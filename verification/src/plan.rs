//! Logical query plans, and what can be told of a plan before it runs.
use crate::assoc::AssocList;
use crate::ast::{
    Assignment, Expr, ExprKind, LiteralValue, Pattern, RemoveItem, ReturnItem, SetItem, SortItem,
};
use crate::ast_model::{ExprKindView, ExprView};
use crate::text;
use crate::types;
use crate::types::{Direction, ErrorCode, ErrorView, GraphError, QueryPhase};
use vstd::prelude::*;

verus! {

/// How a full-text predicate anchors its term.
#[derive(Clone, Copy, Debug, PartialEq, Eq, Structural)]
pub enum FullTextOp {
    Contains,
    StartsWith,
    EndsWith,
}

/// A function over a group of rows.
#[derive(Clone, Copy, Debug, PartialEq, Eq, Structural)]
pub enum AggregateFunction {
    Count,
    Sum,
    Avg,
    Min,
    Max,
    Collect,
    PercentileDisc,
    PercentileCont,
    StDev,
    StDevP,
}

/// An aggregate expression of an `Aggregate` operator.
#[derive(Debug, PartialEq)]
pub struct AggregateExpr {
    pub function: AggregateFunction,
    pub input: Expr,
    pub alias: Option<String>,
    pub distinct: bool,
    /// The second argument of the percentile functions.
    pub extra_arg: Option<Expr>,
    /// The function's name as written in the query.
    pub original_name: String,
    /// The call as written in the query.
    pub original_call_text: Option<String>,
}

/// An operator of a logical query plan.
#[derive(Debug, PartialEq)]
pub enum LogicalOp {
    /// A single empty row, for a RETURN on its own.
    SingleRow,
    /// All nodes with a label.
    Scan { label: String, alias: String },
    /// The nodes that an index gives for some property values.
    IndexLookup {
        label: String,
        alias: String,
        index_properties: Vec<String>,
        lookups: Vec<(String, LiteralValue)>,
        /// What the index does not cover.
        remaining_filters: Option<Expr>,
    },
    /// The node with an id.
    IdLookup { alias: String, value_expr: Expr },
    /// The nodes that a full-text index gives for a term.
    FullTextLookup {
        label: String,
        alias: String,
        property: String,
        op: FullTextOp,
        term: Expr,
        remaining_filters: Option<Expr>,
    },
    /// Follows relationships from a node.
    Expand {
        input: Box<LogicalOp>,
        src_alias: String,
        dst_alias: String,
        /// The relationship's variable.
        rel_alias: Option<String>,
        /// The types to follow; none means any.
        edge_types: Vec<String>,
        direction: Direction,
        min_hops: u32,
        max_hops: u32,
        /// The pattern has a length range, even if it is one hop long: its variable is a list.
        var_length: bool,
        var_length_prop_filters: AssocList<Expr>,
        result_cap: Option<u64>,
    },
    /// Each row of the one with each row of the other.
    CrossProduct { left: Box<LogicalOp>, right: Box<LogicalOp>, same_match: bool },
    /// The rows on which a predicate holds.
    Filter { input: Box<LogicalOp>, predicate: Expr },
    /// The columns of a RETURN or WITH. The last RETURN gives nodes and relationships as
    /// whole values; a WITH keeps their fields apart.
    Project { input: Box<LogicalOp>, items: Vec<ReturnItem>, emit_compound: bool },
    /// Groups of rows, with aggregates over each group.
    Aggregate { input: Box<LogicalOp>, group_keys: Vec<Expr>, aggregates: Vec<AggregateExpr> },
    /// The rows in order.
    Sort { input: Box<LogicalOp>, items: Vec<SortItem> },
    /// The rows without repetitions.
    Distinct { input: Box<LogicalOp> },
    /// The rows behind the first ones.
    Skip { input: Box<LogicalOp>, count: u64 },
    /// The first rows.
    Limit { input: Box<LogicalOp>, count: u64 },
    /// Creates a node.
    CreateNode { labels: Vec<String>, alias: Option<String>, properties: AssocList<Expr> },
    /// Creates a relationship between two bound nodes.
    CreateEdge {
        src_alias: String,
        dst_alias: String,
        edge_type: String,
        rel_alias: Option<String>,
        properties: AssocList<Expr>,
    },
    /// Several creations in turn.
    CreateSequence { ops: Vec<LogicalOp> },
    /// Creations for each row.
    MatchCreate { input: Box<LogicalOp>, create_ops: Vec<LogicalOp> },
    /// Deletes what the expressions give.
    Delete { input: Box<LogicalOp>, exprs: Vec<Expr>, detach: bool },
    /// Sets properties.
    SetProperty { input: Box<LogicalOp>, assignments: Vec<Assignment> },
    /// Adds labels to a node.
    SetLabel { input: Box<LogicalOp>, variable: String, labels: Vec<String> },
    /// Sets all properties at once, or adds to them.
    SetProperties { input: Box<LogicalOp>, variable: String, value: Expr, merge: bool },
    /// Removes properties and labels.
    Remove { input: Box<LogicalOp>, items: Vec<RemoveItem> },
    /// Finds a pattern or creates it.
    Merge { pattern: Pattern, on_create: Vec<SetItem>, on_match: Vec<SetItem> },
    /// Finds a pattern or creates it, for each row.
    MatchMerge {
        input: Box<LogicalOp>,
        merge_pattern: Pattern,
        on_create: Vec<SetItem>,
        on_match: Vec<SetItem>,
    },
    /// Binds a path made of the nodes and relationships of a pattern.
    MaterializePath {
        input: Box<LogicalOp>,
        path_alias: String,
        node_aliases: Vec<String>,
        rel_aliases: Vec<String>,
    },
    /// For each row of the input, the rows of the right side that go with it.
    CorrelatedJoin { input: Box<LogicalOp>, right: Box<LogicalOp>, same_match: bool },
    /// Like a correlated join, but an input row without a match is kept, with nulls.
    LeftOuterJoin {
        input: Box<LogicalOp>,
        right: Box<LogicalOp>,
        optional_aliases: Vec<String>,
        opt_filter: Option<Expr>,
    },
    /// A row for each item of a list.
    Unwind { input: Box<LogicalOp>, expr: Expr, alias: String },
    /// The shortest path between two bound nodes, or all of them.
    ShortestPath {
        input: Box<LogicalOp>,
        src_alias: String,
        dst_alias: String,
        path_alias: String,
        edge_type: Option<String>,
        direction: Direction,
        max_hops: u32,
        all_paths: bool,
    },
    /// Calls a procedure for each row.
    Call {
        input: Box<LogicalOp>,
        procedure_name: String,
        args: Vec<Expr>,
        yield_items: Vec<(String, Option<String>)>,
        yield_star: bool,
    },
    /// Creates an index.
    CreateIndex { label: String, properties: Vec<String> },
    /// Drops an index.
    DropIndex { label: String, properties: Vec<String> },
    /// The rows of several plans; `all` keeps repetitions.
    Union { inputs: Vec<LogicalOp>, all: bool },
    /// A single empty row, for a pipeline to start from.
    EmptyRow,
}

/// The limits that a query runs under.
#[derive(Debug, PartialEq)]
pub struct ExecContext {
    /// How many rows an operator may produce; zero is no limit.
    pub max_result_rows: usize,
    /// How many hops a traversal may make; zero is no limit.
    pub max_traversal_depth: u32,
    /// How many relationships one variable-length traversal may visit; zero is no limit.
    pub max_traversal_work: u64,
    /// Plans that write are to be refused.
    pub require_read_only: bool,
}

impl Default for ExecContext {
    fn default() -> (r: ExecContext)
        ensures
            r.max_result_rows == 0,
            r.max_traversal_depth == 0,
            r.max_traversal_work == 10_000_000,
            !r.require_read_only,
    {
        ExecContext {
            max_result_rows: 0,
            max_traversal_depth: 0,
            max_traversal_work: 10_000_000,
            require_read_only: false,
        }
    }
}

/// The plan writes at its top: nothing is returned from it.
pub open spec fn writes(op: LogicalOp) -> bool {
    match op {
        LogicalOp::CreateNode { .. } => true,
        LogicalOp::CreateEdge { .. } => true,
        LogicalOp::CreateSequence { .. } => true,
        LogicalOp::MatchCreate { .. } => true,
        LogicalOp::Delete { .. } => true,
        LogicalOp::SetProperty { .. } => true,
        LogicalOp::SetLabel { .. } => true,
        LogicalOp::SetProperties { .. } => true,
        LogicalOp::Remove { .. } => true,
        LogicalOp::Merge { .. } => true,
        LogicalOp::MatchMerge { .. } => true,
        LogicalOp::CreateIndex { .. } => true,
        LogicalOp::DropIndex { .. } => true,
        _ => false,
    }
}

/// True when the plan writes at its top.
pub fn is_bare_write(plan: &LogicalOp) -> (r: bool)
    ensures
        r == writes(*plan),
{
    match plan {
        LogicalOp::CreateNode { .. } => true,
        LogicalOp::CreateEdge { .. } => true,
        LogicalOp::CreateSequence { .. } => true,
        LogicalOp::MatchCreate { .. } => true,
        LogicalOp::Delete { .. } => true,
        LogicalOp::SetProperty { .. } => true,
        LogicalOp::SetLabel { .. } => true,
        LogicalOp::SetProperties { .. } => true,
        LogicalOp::Remove { .. } => true,
        LogicalOp::Merge { .. } => true,
        LogicalOp::MatchMerge { .. } => true,
        LogicalOp::CreateIndex { .. } => true,
        LogicalOp::DropIndex { .. } => true,
        _ => false,
    }
}

/// No operator of the plan writes.
pub open spec fn reads_only(op: LogicalOp) -> bool
    decreases op,
{
    match op {
        LogicalOp::Filter { input, .. } => reads_only(*input),
        LogicalOp::Project { input, .. } => reads_only(*input),
        LogicalOp::Distinct { input } => reads_only(*input),
        LogicalOp::Sort { input, .. } => reads_only(*input),
        LogicalOp::Skip { input, .. } => reads_only(*input),
        LogicalOp::Limit { input, .. } => reads_only(*input),
        LogicalOp::Unwind { input, .. } => reads_only(*input),
        LogicalOp::Aggregate { input, .. } => reads_only(*input),
        LogicalOp::ShortestPath { input, .. } => reads_only(*input),
        LogicalOp::MaterializePath { input, .. } => reads_only(*input),
        LogicalOp::Call { input, .. } => reads_only(*input),
        LogicalOp::Expand { input, .. } => reads_only(*input),
        LogicalOp::CrossProduct { left, right, .. } => reads_only(*left) && reads_only(*right),
        LogicalOp::CorrelatedJoin { input, right, .. } => reads_only(*input) && reads_only(*right),
        LogicalOp::LeftOuterJoin { input, right, .. } => reads_only(*input) && reads_only(*right),
        LogicalOp::Union { inputs, .. } => all_read_only(inputs@),
        _ => !writes(op),
    }
}

/// No operator of the plans writes.
pub open spec fn all_read_only(ops: Seq<LogicalOp>) -> bool
    decreases ops,
{
    forall|i: int| 0 <= i < ops.len() ==> reads_only(#[trigger] ops[i])
}

/// True when no operator of the plan writes.
pub fn is_read_only(plan: &LogicalOp) -> (r: bool)
    ensures
        r == reads_only(*plan),
    decreases plan,
{
    match plan {
        LogicalOp::Filter { input, .. } => is_read_only(input),
        LogicalOp::Project { input, .. } => is_read_only(input),
        LogicalOp::Distinct { input } => is_read_only(input),
        LogicalOp::Sort { input, .. } => is_read_only(input),
        LogicalOp::Skip { input, .. } => is_read_only(input),
        LogicalOp::Limit { input, .. } => is_read_only(input),
        LogicalOp::Unwind { input, .. } => is_read_only(input),
        LogicalOp::Aggregate { input, .. } => is_read_only(input),
        LogicalOp::ShortestPath { input, .. } => is_read_only(input),
        LogicalOp::MaterializePath { input, .. } => is_read_only(input),
        LogicalOp::Call { input, .. } => is_read_only(input),
        LogicalOp::Expand { input, .. } => is_read_only(input),
        LogicalOp::CrossProduct { left, right, .. } => is_read_only(left) && is_read_only(right),
        LogicalOp::CorrelatedJoin { input, right, .. } => is_read_only(input) && is_read_only(
            right,
        ),
        LogicalOp::LeftOuterJoin { input, right, .. } => is_read_only(input) && is_read_only(
            right,
        ),
        LogicalOp::Union { inputs, .. } => are_read_only(inputs),
        _ => !is_bare_write(plan),
    }
}

/// True when no operator of the plans writes.
fn are_read_only(ops: &Vec<LogicalOp>) -> (r: bool)
    ensures
        r == all_read_only(ops@),
    decreases ops,
{
    let mut i: usize = 0;
    assert(decreases_to!(ops => ops@));
    while i < ops.len()
        invariant
            i <= ops.len(),
            decreases_to!(ops => ops@),
            forall|j: int| 0 <= j < i ==> reads_only(#[trigger] ops@[j]),
        decreases ops.len() - i,
    {
        if !is_read_only(&ops[i]) {
            return false;
        }
        i = i + 1;
    }
    true
}

/// A traversal is longer than the limit allows.
pub open spec fn too_deep(what: Seq<char>, hops: u32, cap: u32) -> ErrorView {
    types::coded_error(
        QueryPhase::SemanticAnalysis,
        ErrorCode::NumberOutOfRange,
        what + " hop count `"@ + text::decimal(hops as nat)
            + "` exceeds the configured max traversal depth of `"@ + text::decimal(cap as nat)
            + "`"@,
    )
}

/// A traversal is longer than the limit allows.
fn too_deep_error(what: &str, hops: u32, cap: u32) -> (r: GraphError)
    ensures
        r@ == too_deep(what@, hops, cap),
{
    let mut message = text::cat3(what, " hop count `", text::number(hops as u64).as_str());
    message.append("` exceeds the configured max traversal depth of `");
    message.append(text::number(cap as u64).as_str());
    message.append("`");
    GraphError::query(QueryPhase::SemanticAnalysis, ErrorCode::NumberOutOfRange, message)
}

/// The first traversal of the plan, from its top down and from left to right, that is longer
/// than the limit allows.
pub open spec fn depth_fault(op: LogicalOp, cap: u32) -> Option<ErrorView>
    decreases op,
{
    match op {
        LogicalOp::Expand { input, max_hops, .. } => if max_hops > cap {
            Some(too_deep("var-length"@, max_hops, cap))
        } else {
            depth_fault(*input, cap)
        },
        LogicalOp::ShortestPath { input, max_hops, .. } => if max_hops > cap {
            Some(too_deep("shortestPath"@, max_hops, cap))
        } else {
            depth_fault(*input, cap)
        },
        LogicalOp::Filter { input, .. } => depth_fault(*input, cap),
        LogicalOp::Project { input, .. } => depth_fault(*input, cap),
        LogicalOp::Aggregate { input, .. } => depth_fault(*input, cap),
        LogicalOp::Sort { input, .. } => depth_fault(*input, cap),
        LogicalOp::Distinct { input } => depth_fault(*input, cap),
        LogicalOp::Skip { input, .. } => depth_fault(*input, cap),
        LogicalOp::Limit { input, .. } => depth_fault(*input, cap),
        LogicalOp::MatchCreate { input, .. } => depth_fault(*input, cap),
        LogicalOp::Delete { input, .. } => depth_fault(*input, cap),
        LogicalOp::SetProperty { input, .. } => depth_fault(*input, cap),
        LogicalOp::SetLabel { input, .. } => depth_fault(*input, cap),
        LogicalOp::SetProperties { input, .. } => depth_fault(*input, cap),
        LogicalOp::Remove { input, .. } => depth_fault(*input, cap),
        LogicalOp::MatchMerge { input, .. } => depth_fault(*input, cap),
        LogicalOp::MaterializePath { input, .. } => depth_fault(*input, cap),
        LogicalOp::Unwind { input, .. } => depth_fault(*input, cap),
        LogicalOp::Call { input, .. } => depth_fault(*input, cap),
        LogicalOp::CrossProduct { left, right, .. } => match depth_fault(*left, cap) {
            Some(e) => Some(e),
            None => depth_fault(*right, cap),
        },
        LogicalOp::CorrelatedJoin { input, right, .. } => match depth_fault(*input, cap) {
            Some(e) => Some(e),
            None => depth_fault(*right, cap),
        },
        LogicalOp::LeftOuterJoin { input, right, .. } => match depth_fault(*input, cap) {
            Some(e) => Some(e),
            None => depth_fault(*right, cap),
        },
        LogicalOp::Union { inputs, .. } => depth_fault_from(inputs@, 0, cap),
        LogicalOp::CreateSequence { ops } => depth_fault_from(ops@, 0, cap),
        _ => None,
    }
}

/// The first traversal of the plans from `i` on that is longer than the limit allows.
pub open spec fn depth_fault_from(ops: Seq<LogicalOp>, i: int, cap: u32) -> Option<ErrorView>
    decreases ops, ops.len() - i,
{
    if 0 <= i < ops.len() {
        match depth_fault(ops[i], cap) {
            Some(e) => Some(e),
            None => depth_fault_from(ops, i + 1, cap),
        }
    } else {
        None
    }
}

/// A check that fails with the given fault.
pub open spec fn unless(fault: Option<ErrorView>) -> Result<(), ErrorView> {
    match fault {
        Some(e) => Err(e),
        None => Ok(()),
    }
}

/// Refuses a plan with a traversal that is longer than the context allows.
pub fn validate_traversal_depth(plan: &LogicalOp, ctx: &ExecContext) -> (r: Result<(), GraphError>)
    ensures
        types::verdict(r) == (if ctx.max_traversal_depth == 0 {
            Ok::<(), ErrorView>(())
        } else {
            unless(depth_fault(*plan, ctx.max_traversal_depth))
        }),
{
    if ctx.max_traversal_depth == 0 {
        return Ok(());
    }
    check_depth_recursive(plan, ctx.max_traversal_depth)
}

/// Refuses a plan with a traversal that is longer than the limit allows.
pub fn check_depth_recursive(op: &LogicalOp, cap: u32) -> (r: Result<(), GraphError>)
    ensures
        types::verdict(r) == unless(depth_fault(*op, cap)),
    decreases op,
{
    match op {
        LogicalOp::Expand { input, max_hops, .. } => if *max_hops > cap {
            Err(too_deep_error("var-length", *max_hops, cap))
        } else {
            check_depth_recursive(input, cap)
        },
        LogicalOp::ShortestPath { input, max_hops, .. } => if *max_hops > cap {
            Err(too_deep_error("shortestPath", *max_hops, cap))
        } else {
            check_depth_recursive(input, cap)
        },
        LogicalOp::Filter { input, .. } => check_depth_recursive(input, cap),
        LogicalOp::Project { input, .. } => check_depth_recursive(input, cap),
        LogicalOp::Aggregate { input, .. } => check_depth_recursive(input, cap),
        LogicalOp::Sort { input, .. } => check_depth_recursive(input, cap),
        LogicalOp::Distinct { input } => check_depth_recursive(input, cap),
        LogicalOp::Skip { input, .. } => check_depth_recursive(input, cap),
        LogicalOp::Limit { input, .. } => check_depth_recursive(input, cap),
        LogicalOp::MatchCreate { input, .. } => check_depth_recursive(input, cap),
        LogicalOp::Delete { input, .. } => check_depth_recursive(input, cap),
        LogicalOp::SetProperty { input, .. } => check_depth_recursive(input, cap),
        LogicalOp::SetLabel { input, .. } => check_depth_recursive(input, cap),
        LogicalOp::SetProperties { input, .. } => check_depth_recursive(input, cap),
        LogicalOp::Remove { input, .. } => check_depth_recursive(input, cap),
        LogicalOp::MatchMerge { input, .. } => check_depth_recursive(input, cap),
        LogicalOp::MaterializePath { input, .. } => check_depth_recursive(input, cap),
        LogicalOp::Unwind { input, .. } => check_depth_recursive(input, cap),
        LogicalOp::Call { input, .. } => check_depth_recursive(input, cap),
        LogicalOp::CrossProduct { left, right, .. } => match check_depth_recursive(left, cap) {
            Err(e) => Err(e),
            Ok(_) => check_depth_recursive(right, cap),
        },
        LogicalOp::CorrelatedJoin { input, right, .. } => match check_depth_recursive(input, cap) {
            Err(e) => Err(e),
            Ok(_) => check_depth_recursive(right, cap),
        },
        LogicalOp::LeftOuterJoin { input, right, .. } => match check_depth_recursive(input, cap) {
            Err(e) => Err(e),
            Ok(_) => check_depth_recursive(right, cap),
        },
        LogicalOp::Union { inputs, .. } => check_depths(inputs, cap),
        LogicalOp::CreateSequence { ops } => check_depths(ops, cap),
        _ => Ok(()),
    }
}

/// Refuses plans with a traversal that is longer than the limit allows.
fn check_depths(ops: &Vec<LogicalOp>, cap: u32) -> (r: Result<(), GraphError>)
    ensures
        types::verdict(r) == unless(depth_fault_from(ops@, 0, cap)),
    decreases ops,
{
    let mut i: usize = 0;
    assert(decreases_to!(ops => ops@));
    while i < ops.len()
        invariant
            i <= ops.len(),
            decreases_to!(ops => ops@),
            depth_fault_from(ops@, 0, cap) == depth_fault_from(ops@, i as int, cap),
        decreases ops.len() - i,
    {
        match check_depth_recursive(&ops[i], cap) {
            Err(e) => {
                return Err(e);
            },
            Ok(_) => {},
        }
        i = i + 1;
    }
    Ok(())
}

/// An operator produced more rows than the context allows.
pub open spec fn too_many_rows(max: usize) -> ErrorView {
    types::query_error(
        types::ErrorKind::Constraint,
        QueryPhase::Runtime,
        ErrorCode::Other,
        "result set exceeded maximum of "@ + text::decimal(max as nat) + " rows"@,
        None,
        None,
    )
}

/// An operator produced more rows than the context allows.
pub fn too_many_rows_error(max: usize) -> (r: GraphError)
    ensures
        r@ == too_many_rows(max),
{
    GraphError::constraint(
        ErrorCode::Other,
        text::cat3(
            "result set exceeded maximum of ",
            text::number(max as u64).as_str(),
            " rows",
        ),
    )
}

/// Refuses a result with more rows than the context allows.
pub open spec fn row_limit(n: nat, ctx: ExecContext) -> Result<(), ErrorView> {
    if ctx.max_result_rows > 0 && n > ctx.max_result_rows {
        Err(too_many_rows(ctx.max_result_rows))
    } else {
        Ok(())
    }
}

/// Refuses a result with more rows than the context allows.
pub fn check_row_limit(n: usize, ctx: &ExecContext) -> (r: Result<(), GraphError>)
    ensures
        types::verdict(r) == row_limit(n as nat, *ctx),
{
    if ctx.max_result_rows > 0 && n > ctx.max_result_rows {
        return Err(too_many_rows_error(ctx.max_result_rows));
    }
    Ok(())
}

/// The expression holds a subquery over a pattern or, where `vars` says so, a bare variable
/// or a star.
pub open spec fn opens(e: Expr, vars: bool) -> bool
    decreases e,
{
    match e.kind {
        ExprKind::Variable(_) => vars,
        ExprKind::Star => vars,
        ExprKind::Literal(_) => false,
        ExprKind::Parameter(_) => false,
        ExprKind::HasLabel(_, _) => false,
        ExprKind::Property(_, _) => false,
        ExprKind::BinaryOp { left, right, .. } => opens(*left, vars) || opens(*right, vars),
        ExprKind::Not(x) => opens(*x, vars),
        ExprKind::IsNull(x) => opens(*x, vars),
        ExprKind::IsNotNull(x) => opens(*x, vars),
        ExprKind::FunctionCall { args, .. } => any_opens(args@, vars),
        ExprKind::Case { operand, alternatives, default } => opt_opens(operand, vars)
            || branch_opens(alternatives@, vars) || opt_opens(default, vars),
        ExprKind::List(xs) => any_opens(xs@, vars),
        ExprKind::ListComprehension { list_expr, filter, map_expr, .. } => opens(*list_expr, vars)
            || opt_opens(filter, vars) || opt_opens(map_expr, vars),
        ExprKind::PatternComprehension { .. } => true,
        ExprKind::Exists { .. } => true,
        ExprKind::ExistsSubquery(_) => true,
        ExprKind::PatternPredicate(_) => true,
        ExprKind::MapLiteral(entries) => entry_opens(entries@, vars),
        ExprKind::Index { expr, index } => opens(*expr, vars) || opens(*index, vars),
        ExprKind::DotAccess { expr, .. } => opens(*expr, vars),
        ExprKind::Slice { expr, start, end } => opens(*expr, vars) || opt_opens(start, vars)
            || opt_opens(end, vars),
        ExprKind::Quantifier { list_expr, predicate, .. } => opens(*list_expr, vars) || opens(
            *predicate,
            vars,
        ),
    }
}

/// The optional expression does.
pub open spec fn opt_opens(o: Option<Box<Expr>>, vars: bool) -> bool
    decreases o,
{
    match o {
        Some(e) => opens(*e, vars),
        None => false,
    }
}

/// Some expression does.
pub open spec fn any_opens(s: Seq<Expr>, vars: bool) -> bool
    decreases s,
{
    exists|i: int| 0 <= i < s.len() && opens(#[trigger] s[i], vars)
}

/// Some branch does.
pub open spec fn branch_opens(s: Seq<(Box<Expr>, Box<Expr>)>, vars: bool) -> bool
    decreases s,
{
    exists|i: int| 0 <= i < s.len() && (opens(*(#[trigger] s[i]).0, vars) || opens(*s[i].1, vars))
}

/// Some entry does.
pub open spec fn entry_opens(s: Seq<(String, Expr)>, vars: bool) -> bool
    decreases s,
{
    exists|i: int| 0 <= i < s.len() && opens((#[trigger] s[i]).1, vars)
}

/// Whether the expression holds a subquery over a pattern or, where `vars` says so, a bare
/// variable or a star.
fn expr_opens(e: &Expr, vars: bool) -> (r: bool)
    ensures
        r == opens(*e, vars),
    decreases e,
{
    match &e.kind {
        ExprKind::Variable(_) => vars,
        ExprKind::Star => vars,
        ExprKind::Literal(_) => false,
        ExprKind::Parameter(_) => false,
        ExprKind::HasLabel(_, _) => false,
        ExprKind::Property(_, _) => false,
        ExprKind::BinaryOp { left, right, .. } => expr_opens(left, vars) || expr_opens(right, vars),
        ExprKind::Not(x) => expr_opens(x, vars),
        ExprKind::IsNull(x) => expr_opens(x, vars),
        ExprKind::IsNotNull(x) => expr_opens(x, vars),
        ExprKind::FunctionCall { args, .. } => exprs_open(args, vars),
        ExprKind::Case { operand, alternatives, default } => opt_expr_opens(operand, vars)
            || branches_open(alternatives, vars) || opt_expr_opens(default, vars),
        ExprKind::List(xs) => exprs_open(xs, vars),
        ExprKind::ListComprehension { list_expr, filter, map_expr, .. } => expr_opens(
            list_expr,
            vars,
        ) || opt_expr_opens(filter, vars) || opt_expr_opens(map_expr, vars),
        ExprKind::PatternComprehension { .. } => true,
        ExprKind::Exists { .. } => true,
        ExprKind::ExistsSubquery(_) => true,
        ExprKind::PatternPredicate(_) => true,
        ExprKind::MapLiteral(entries) => entries_open(entries, vars),
        ExprKind::Index { expr, index } => expr_opens(expr, vars) || expr_opens(index, vars),
        ExprKind::DotAccess { expr, .. } => expr_opens(expr, vars),
        ExprKind::Slice { expr, start, end } => expr_opens(expr, vars) || opt_expr_opens(
            start,
            vars,
        ) || opt_expr_opens(end, vars),
        ExprKind::Quantifier { list_expr, predicate, .. } => expr_opens(list_expr, vars)
            || expr_opens(predicate, vars),
    }
}

/// Whether the optional expression does.
fn opt_expr_opens(o: &Option<Box<Expr>>, vars: bool) -> (r: bool)
    ensures
        r == opt_opens(*o, vars),
    decreases o,
{
    match o {
        Some(e) => expr_opens(e, vars),
        None => false,
    }
}

/// Whether some expression does.
fn exprs_open(v: &Vec<Expr>, vars: bool) -> (r: bool)
    ensures
        r == any_opens(v@, vars),
    decreases v,
{
    let mut i: usize = 0;
    assert(decreases_to!(v => v@));
    while i < v.len()
        invariant
            i <= v.len(),
            decreases_to!(v => v@),
            forall|j: int| 0 <= j < i ==> !opens(#[trigger] v@[j], vars),
        decreases v.len() - i,
    {
        if expr_opens(&v[i], vars) {
            return true;
        }
        i = i + 1;
    }
    false
}

/// Whether some branch does.
fn branches_open(v: &Vec<(Box<Expr>, Box<Expr>)>, vars: bool) -> (r: bool)
    ensures
        r == branch_opens(v@, vars),
    decreases v,
{
    let mut i: usize = 0;
    assert(decreases_to!(v => v@));
    while i < v.len()
        invariant
            i <= v.len(),
            decreases_to!(v => v@),
            forall|j: int|
                0 <= j < i ==> !opens(*(#[trigger] v@[j]).0, vars) && !opens(*v@[j].1, vars),
        decreases v.len() - i,
    {
        assert(decreases_to!(v@[i as int] => v@[i as int].0));
        assert(decreases_to!(v@[i as int] => v@[i as int].1));
        if expr_opens(&v[i].0, vars) || expr_opens(&v[i].1, vars) {
            return true;
        }
        i = i + 1;
    }
    false
}

/// Whether some entry does.
fn entries_open(v: &Vec<(String, Expr)>, vars: bool) -> (r: bool)
    ensures
        r == entry_opens(v@, vars),
    decreases v,
{
    let mut i: usize = 0;
    assert(decreases_to!(v => v@));
    while i < v.len()
        invariant
            i <= v.len(),
            decreases_to!(v => v@),
            forall|j: int| 0 <= j < i ==> !opens((#[trigger] v@[j]).1, vars),
        decreases v.len() - i,
    {
        assert(decreases_to!(v@[i as int] => v@[i as int].1));
        if expr_opens(&v[i].1, vars) {
            return true;
        }
        i = i + 1;
    }
    false
}

/// True when the expression holds a bare variable, a star or a subquery over a pattern.
pub fn expr_has_bare_variable(e: &Expr) -> (r: bool)
    ensures
        r == opens(*e, true),
{
    expr_opens(e, true)
}

/// True when the expression holds a subquery over a pattern.
pub fn expr_has_pattern_subquery(e: &Expr) -> (r: bool)
    ensures
        r == opens(*e, false),
{
    expr_opens(e, false)
}

/// The plan can run on slot records. A bare variable may stand for a whole node, whose
/// properties slot records do not all hold; a subquery over a pattern binds names that no
/// slot is kept for. Joins and writes run on named records underneath.
pub open spec fn slot_supported(op: LogicalOp) -> bool
    decreases op,
{
    match op {
        LogicalOp::EmptyRow => true,
        LogicalOp::SingleRow => true,
        LogicalOp::Scan { .. } => true,
        LogicalOp::IndexLookup { remaining_filters, .. } => match remaining_filters {
            Some(f) => !opens(f, true),
            None => true,
        },
        LogicalOp::Filter { input, predicate } => slot_supported(*input) && !opens(predicate, true),
        LogicalOp::Project { input, items, .. } => slot_supported(*input) && forall|i: int|
            0 <= i < items@.len() ==> !opens((#[trigger] items@[i]).expr, true),
        LogicalOp::Aggregate { input, group_keys, aggregates } => slot_supported(*input) && (
        forall|i: int| 0 <= i < group_keys@.len() ==> !opens(#[trigger] group_keys@[i], false)) && (
        forall|i: int|
            0 <= i < aggregates@.len() ==> !opens((#[trigger] aggregates@[i]).input, false)),
        LogicalOp::Skip { input, .. } => slot_supported(*input),
        LogicalOp::Limit { input, .. } => slot_supported(*input),
        LogicalOp::Distinct { input } => slot_supported(*input),
        LogicalOp::Sort { input, items } => slot_supported(*input) && forall|i: int|
            0 <= i < items@.len() ==> !opens((#[trigger] items@[i]).expr, true),
        LogicalOp::Unwind { input, expr, .. } => slot_supported(*input) && !opens(expr, false),
        LogicalOp::Expand { input, var_length_prop_filters, .. } => slot_supported(*input)
            && !entry_opens(var_length_prop_filters.entries@, true),
        LogicalOp::CrossProduct { .. } => true,
        LogicalOp::CorrelatedJoin { .. } => true,
        LogicalOp::LeftOuterJoin { .. } => true,
        _ => writes(op),
    }
}

/// The operator takes its rows from `input`, one slot record at a time.
pub open spec fn works_on(op: LogicalOp, input: LogicalOp) -> bool {
    match op {
        LogicalOp::Filter { input: i, .. } => *i == input,
        LogicalOp::Expand { input: i, .. } => *i == input,
        LogicalOp::Aggregate { input: i, .. } => *i == input,
        LogicalOp::Skip { input: i, .. } => *i == input,
        LogicalOp::Limit { input: i, .. } => *i == input,
        LogicalOp::Distinct { input: i } => *i == input,
        LogicalOp::Sort { input: i, .. } => *i == input,
        LogicalOp::Unwind { input: i, .. } => *i == input,
        LogicalOp::Project { input: i, .. } => *i == input,
        _ => false,
    }
}

/// `sub` is the plan, or one that its operators take slot records from.
pub open spec fn feeds(op: LogicalOp, sub: LogicalOp) -> bool
    decreases op,
{
    op == sub || match op {
        LogicalOp::Filter { input, .. } => feeds(*input, sub),
        LogicalOp::Expand { input, .. } => feeds(*input, sub),
        LogicalOp::Aggregate { input, .. } => feeds(*input, sub),
        LogicalOp::Skip { input, .. } => feeds(*input, sub),
        LogicalOp::Limit { input, .. } => feeds(*input, sub),
        LogicalOp::Distinct { input } => feeds(*input, sub),
        LogicalOp::Sort { input, .. } => feeds(*input, sub),
        LogicalOp::Unwind { input, .. } => feeds(*input, sub),
        LogicalOp::Project { input, .. } => feeds(*input, sub),
        _ => false,
    }
}

/// Every plan that the operators of a supported plan take slot records from is supported
/// itself: it has an operator that runs on slot records at its top.
pub proof fn supported_plans_are_fed_by_supported_plans(op: LogicalOp, sub: LogicalOp)
    requires
        slot_supported(op),
        feeds(op, sub),
    ensures
        slot_supported(sub),
        reads_only(op) ==> reads_only(sub),
    decreases op,
{
    if op != sub {
        match op {
            LogicalOp::Filter { input, .. } => {
                supported_plans_are_fed_by_supported_plans(*input, sub);
            },
            LogicalOp::Expand { input, .. } => {
                supported_plans_are_fed_by_supported_plans(*input, sub);
            },
            LogicalOp::Aggregate { input, .. } => {
                supported_plans_are_fed_by_supported_plans(*input, sub);
            },
            LogicalOp::Skip { input, .. } => {
                supported_plans_are_fed_by_supported_plans(*input, sub);
            },
            LogicalOp::Limit { input, .. } => {
                supported_plans_are_fed_by_supported_plans(*input, sub);
            },
            LogicalOp::Distinct { input } => {
                supported_plans_are_fed_by_supported_plans(*input, sub);
            },
            LogicalOp::Sort { input, .. } => {
                supported_plans_are_fed_by_supported_plans(*input, sub);
            },
            LogicalOp::Unwind { input, .. } => {
                supported_plans_are_fed_by_supported_plans(*input, sub);
            },
            LogicalOp::Project { input, .. } => {
                supported_plans_are_fed_by_supported_plans(*input, sub);
            },
            _ => {},
        }
    }
}

/// An operator of a supported plan takes its slot records from a supported plan.
pub proof fn supported_operators_work_on_supported_plans(op: LogicalOp, input: LogicalOp)
    requires
        slot_supported(op),
        works_on(op, input),
    ensures
        slot_supported(input),
        feeds(op, input),
{
    assert(feeds(input, input));
}

/// True when the plan can run on slot records.
pub fn is_slot_supported(plan: &LogicalOp) -> (r: bool)
    ensures
        r == slot_supported(*plan),
    decreases plan,
{
    match plan {
        LogicalOp::EmptyRow => true,
        LogicalOp::SingleRow => true,
        LogicalOp::Scan { .. } => true,
        LogicalOp::IndexLookup { remaining_filters, .. } => match remaining_filters {
            Some(f) => !expr_has_bare_variable(f),
            None => true,
        },
        LogicalOp::Filter { input, predicate } => is_slot_supported(input)
            && !expr_has_bare_variable(predicate),
        LogicalOp::Project { input, items, .. } => is_slot_supported(input) && items_supported(
            items,
        ),
        LogicalOp::Aggregate { input, group_keys, aggregates } => is_slot_supported(input)
            && !exprs_open(group_keys, false) && aggregates_supported(aggregates),
        LogicalOp::Skip { input, .. } => is_slot_supported(input),
        LogicalOp::Limit { input, .. } => is_slot_supported(input),
        LogicalOp::Distinct { input } => is_slot_supported(input),
        LogicalOp::Sort { input, items } => is_slot_supported(input) && sort_supported(items),
        LogicalOp::Unwind { input, expr, .. } => is_slot_supported(input)
            && !expr_has_pattern_subquery(expr),
        LogicalOp::Expand { input, var_length_prop_filters, .. } => is_slot_supported(input)
            && !entries_open(&var_length_prop_filters.entries, true),
        LogicalOp::CrossProduct { .. } => true,
        LogicalOp::CorrelatedJoin { .. } => true,
        LogicalOp::LeftOuterJoin { .. } => true,
        _ => is_bare_write(plan),
    }
}

/// True when no item holds a bare variable.
fn items_supported(v: &Vec<ReturnItem>) -> (r: bool)
    ensures
        r == forall|i: int| 0 <= i < v@.len() ==> !opens((#[trigger] v@[i]).expr, true),
{
    let mut i: usize = 0;
    while i < v.len()
        invariant
            i <= v.len(),
            forall|j: int| 0 <= j < i ==> !opens((#[trigger] v@[j]).expr, true),
        decreases v.len() - i,
    {
        if expr_has_bare_variable(&v[i].expr) {
            return false;
        }
        i = i + 1;
    }
    true
}

/// True when no input of an aggregate holds a subquery over a pattern.
fn aggregates_supported(v: &Vec<AggregateExpr>) -> (r: bool)
    ensures
        r == forall|i: int| 0 <= i < v@.len() ==> !opens((#[trigger] v@[i]).input, false),
{
    let mut i: usize = 0;
    while i < v.len()
        invariant
            i <= v.len(),
            forall|j: int| 0 <= j < i ==> !opens((#[trigger] v@[j]).input, false),
        decreases v.len() - i,
    {
        if expr_has_pattern_subquery(&v[i].input) {
            return false;
        }
        i = i + 1;
    }
    true
}

/// True when no sort key holds a bare variable.
fn sort_supported(v: &Vec<SortItem>) -> (r: bool)
    ensures
        r == forall|i: int| 0 <= i < v@.len() ==> !opens((#[trigger] v@[i]).expr, true),
{
    let mut i: usize = 0;
    while i < v.len()
        invariant
            i <= v.len(),
            forall|j: int| 0 <= j < i ==> !opens((#[trigger] v@[j]).expr, true),
        decreases v.len() - i,
    {
        if expr_has_bare_variable(&v[i].expr) {
            return false;
        }
        i = i + 1;
    }
    true
}

/// The name of an aggregate function.
pub open spec fn function_name(f: AggregateFunction) -> Seq<char> {
    match f {
        AggregateFunction::Count => "count"@,
        AggregateFunction::Sum => "sum"@,
        AggregateFunction::Avg => "avg"@,
        AggregateFunction::Min => "min"@,
        AggregateFunction::Max => "max"@,
        AggregateFunction::Collect => "collect"@,
        AggregateFunction::PercentileDisc => "percentileDisc"@,
        AggregateFunction::PercentileCont => "percentileCont"@,
        AggregateFunction::StDev => "stDev"@,
        AggregateFunction::StDevP => "stDevP"@,
    }
}

/// The name of an aggregate function.
pub fn agg_fn_name(f: AggregateFunction) -> (r: &'static str)
    ensures
        r@ == function_name(f),
{
    match f {
        AggregateFunction::Count => "count",
        AggregateFunction::Sum => "sum",
        AggregateFunction::Avg => "avg",
        AggregateFunction::Min => "min",
        AggregateFunction::Max => "max",
        AggregateFunction::Collect => "collect",
        AggregateFunction::PercentileDisc => "percentileDisc",
        AggregateFunction::PercentileCont => "percentileCont",
        AggregateFunction::StDev => "stDev",
        AggregateFunction::StDevP => "stDevP",
    }
}

/// The name is that of an aggregate function, in whatever case it is written.
pub open spec fn names_aggregate(name: Seq<char>) -> bool {
    let n = text::lower_text(name);
    n == "count"@ || n == "sum"@ || n == "avg"@ || n == "min"@ || n == "max"@ || n == "collect"@
        || n == "percentiledisc"@ || n == "percentilecont"@ || n == "stdev"@ || n == "stdevp"@
}

/// The expression is a call of an aggregate function.
pub open spec fn aggregate_call(e: ExprView) -> bool {
    match e.kind {
        ExprKindView::FunctionCall { name, .. } => names_aggregate(name),
        _ => false,
    }
}

/// True when the expression is a call of an aggregate function.
pub fn is_aggregate_call(e: &Expr) -> (r: bool)
    ensures
        r == aggregate_call(e@),
{
    match &e.kind {
        ExprKind::FunctionCall { name, .. } => {
            let n = text::lower_string(name.as_str());
            let n = n.as_str();
            text::same_str(n, "count") || text::same_str(n, "sum") || text::same_str(n, "avg")
                || text::same_str(n, "min") || text::same_str(n, "max") || text::same_str(
                n,
                "collect",
            ) || text::same_str(n, "percentiledisc") || text::same_str(n, "percentilecont")
                || text::same_str(n, "stdev") || text::same_str(n, "stdevp")
        },
        _ => false,
    }
}

/// A plan that does not write at its top and holds no write below it has nothing to refuse.
pub proof fn read_only_plans_do_not_write(op: LogicalOp)
    requires
        reads_only(op),
    ensures
        !writes(op),
{
}

/// The fault of a plan that writes inside a read transaction.
pub open spec fn write_refused() -> ErrorView {
    ErrorView::Transaction {
        message: "write operations are not permitted inside a read transaction"@,
        hint: Some(
            "begin a write transaction with begin_write/write_tx, or remove the CREATE/SET/DELETE/MERGE/REMOVE clause"@,
        ),
    }
}

/// Refuses a plan that writes where only reading is allowed.
pub fn check_permitted(plan: &LogicalOp, ctx: &ExecContext) -> (r: Result<(), GraphError>)
    ensures
        types::verdict(r) == (if ctx.require_read_only && !reads_only(*plan) {
            Err(write_refused())
        } else {
            Ok(())
        }),
{
    if ctx.require_read_only && !is_read_only(plan) {
        Err(
            GraphError::Transaction {
                message: text::owned(
                    "write operations are not permitted inside a read transaction",
                ),
                hint: Some(
                    text::owned(
                        "begin a write transaction with begin_write/write_tx, or remove the CREATE/SET/DELETE/MERGE/REMOVE clause",
                    ),
                ),
            },
        )
    } else {
        Ok(())
    }
}

/// True when the plan changes the schema, so that plans made before it no longer hold.
pub fn is_schema_change(plan: &LogicalOp) -> (r: bool)
    ensures
        r == (plan is CreateIndex || plan is DropIndex),
{
    match plan {
        LogicalOp::CreateIndex { .. } => true,
        LogicalOp::DropIndex { .. } => true,
        _ => false,
    }
}

} // verus!
