//! Running plans that read.
use super::arrange;
use super::call;
use super::expand;
use super::expand::{Expansion, ExpansionView};
use super::flow;
use super::flow::{Outcome, Rows};
use super::group;
use super::inner;
use super::join;
use super::path;
use super::path::{PathSearch, PathSearchView};
use super::project;
use super::read;
use crate::assoc;
use crate::assoc::AssocList;
use crate::ast::{Expr, ExprKind, LiteralValue};
use crate::ast_copy;
use crate::ast_model;
use crate::ast_model::ExprView;
use crate::binding;
use crate::order;
use crate::plan;
use crate::plan::{ExecContext, LogicalOp};
use crate::record;
use crate::record::{NamedRecord, Row};
use crate::source;
use crate::source::{Model, Source};
use crate::text;
use crate::types::{Direction, ErrorView, GraphError};
use crate::value;
use crate::value::{Node, NodeView, Value, ValueView};
use vstd::prelude::*;

verus! {

/// The values that the relationships of a path must have: of the filters those that are
/// literals.
pub open spec fn literal_filters(s: Seq<(String, Expr)>, m: Model) -> Row
    decreases s.len(),
{
    if s.len() == 0 {
        Row::empty()
    } else {
        match s.last().1.kind {
            ExprKind::Literal(l) => assoc::put(
                literal_filters(s.drop_last(), m),
                s.last().0@,
                read::literal(l@, m),
            ),
            _ => literal_filters(s.drop_last(), m),
        }
    }
}

/// The values that the relationships of a path must have.
pub fn find_filters<S: Source>(db: &S, v: &Vec<(String, Expr)>) -> (r: AssocList<Value>)
    ensures
        source::steady(*db) ==> value::props_view(r.entries@) == literal_filters(
            v@,
            source::model(*db),
        ),
{
    let mut out = NamedRecord::new();
    let mut i: usize = 0;
    assert(v@.take(0) =~= Seq::<(String, Expr)>::empty());
    while i < v.len()
        invariant
            i <= v.len(),
            source::steady(*db) ==> out@ == literal_filters(
                v@.take(i as int),
                source::model(*db),
            ),
        decreases v.len() - i,
    {
        assert(v@.take(i + 1).drop_last() =~= v@.take(i as int));
        match &v[i].1.kind {
            ExprKind::Literal(l) => {
                out.set(v[i].0.clone(), read::literal_to_value(db, l));
            },
            _ => {},
        }
        i = i + 1;
    }
    assert(v@.take(v@.len() as int) =~= v@);
    out.fields
}

/// What an `Expand` operator follows.
pub open spec fn expansion(op: LogicalOp, m: Model) -> ExpansionView {
    match op {
        LogicalOp::Expand {
            src_alias,
            dst_alias,
            rel_alias,
            edge_types,
            direction,
            min_hops,
            max_hops,
            var_length,
            var_length_prop_filters,
            ..
        } => ExpansionView {
            src_alias: src_alias@,
            dst_alias: dst_alias@,
            rel_alias: ast_model::opt_text(rel_alias),
            edge_types: ast_model::texts(edge_types@),
            direction,
            min_hops,
            max_hops,
            var_length,
            filters: literal_filters(var_length_prop_filters.entries@, m),
        },
        _ => arbitrary(),
    }
}

/// A copy of an optional text.
fn dup_opt(o: &Option<String>) -> (r: Option<String>)
    ensures
        ast_model::opt_text(r) == ast_model::opt_text(*o),
{
    match o {
        Some(s) => Some(s.clone()),
        None => None,
    }
}

/// What an `Expand` operator follows.
pub fn build_expansion<S: Source>(db: &S, op: &LogicalOp) -> (r: Expansion)
    requires
        op is Expand,
    ensures
        source::steady(*db) ==> r@ == expansion(*op, source::model(*db)),
{
    match op {
        LogicalOp::Expand {
            src_alias,
            dst_alias,
            rel_alias,
            edge_types,
            direction,
            min_hops,
            max_hops,
            var_length,
            var_length_prop_filters,
            ..
        } => Expansion {
            src_alias: src_alias.clone(),
            dst_alias: dst_alias.clone(),
            rel_alias: dup_opt(rel_alias),
            edge_types: ast_copy::dup_texts(edge_types),
            direction: *direction,
            min_hops: *min_hops,
            max_hops: *max_hops,
            var_length: *var_length,
            filters: find_filters(db, &var_length_prop_filters.entries),
        },
        _ => Expansion {
            src_alias: String::new(),
            dst_alias: String::new(),
            rel_alias: None,
            edge_types: Vec::new(),
            direction: Direction::Both,
            min_hops: 0,
            max_hops: 0,
            var_length: false,
            filters: AssocList::new(),
        },
    }
}

/// How many rows an `Expand` operator needs to give.
pub open spec fn wanted(op: LogicalOp) -> Option<usize> {
    match op {
        LogicalOp::Expand { result_cap: Some(c), .. } => Some(c as usize),
        _ => None,
    }
}

/// The operator works on the rows of one input, without writing.
pub open spec fn works_on_rows(op: LogicalOp) -> bool {
    match op {
        LogicalOp::Expand { .. } => true,
        LogicalOp::Filter { .. } => true,
        LogicalOp::Project { .. } => true,
        LogicalOp::Aggregate { .. } => true,
        LogicalOp::Sort { .. } => true,
        LogicalOp::Distinct { .. } => true,
        LogicalOp::Skip { .. } => true,
        LogicalOp::Limit { .. } => true,
        LogicalOp::Unwind { .. } => true,
        LogicalOp::MaterializePath { .. } => true,
        LogicalOp::ShortestPath { .. } => true,
        LogicalOp::Call { .. } => true,
        _ => false,
    }
}

/// What a `ShortestPath` operator looks for.
pub open spec fn path_search(op: LogicalOp) -> PathSearchView {
    match op {
        LogicalOp::ShortestPath {
            src_alias,
            dst_alias,
            path_alias,
            edge_type,
            direction,
            max_hops,
            ..
        } => PathSearchView {
            src_alias: src_alias@,
            dst_alias: dst_alias@,
            path_alias: path_alias@,
            label: match edge_type {
                Some(t) => t@,
                None => ""@,
            },
            direction,
            max_hops,
        },
        _ => arbitrary(),
    }
}

/// What an operator makes of the rows of its input, however many rows that are.
pub open spec fn made(op: LogicalOp, rs: Seq<Row>, ctx: ExecContext, m: Model) -> Rows {
    match op {
        LogicalOp::Expand { .. } => expand::expanded_all(
            rs,
            expansion(op, m),
            wanted(op),
            ctx.max_traversal_work,
            m,
        ),
        LogicalOp::Filter { predicate, .. } => read::filtered(rs, predicate@, m),
        LogicalOp::Project { items, emit_compound, .. } => project::projected_rows(
            rs,
            ast_model::return_items_view(items@),
            emit_compound,
            m,
        ),
        LogicalOp::Aggregate { group_keys, aggregates, .. } => group::aggregated(
            rs,
            ast_model::exprs_view(group_keys@),
            aggregates@,
            false,
            m,
        ),
        LogicalOp::Sort { items, .. } => Ok(
            arrange::sorted(rs, arrange::row_before(ast_model::sort_items_view(items@), m)),
        ),
        LogicalOp::Distinct { .. } => Ok(arrange::unique(rs, arrange::alike(true))),
        LogicalOp::Skip { count, .. } => Ok(arrange::skipped(rs, count)),
        LogicalOp::Limit { count, .. } => Ok(arrange::limited(rs, count)),
        LogicalOp::Unwind { expr, alias, .. } => read::unwound_rows(rs, expr@, alias@, m),
        LogicalOp::MaterializePath { path_alias, node_aliases, rel_aliases, .. } => path::path_rows(
            rs,
            path_alias@,
            ast_model::texts(node_aliases@),
            ast_model::texts(rel_aliases@),
            false,
            m,
        ),
        LogicalOp::ShortestPath { all_paths, .. } => path::shortest(
            rs,
            path_search(op),
            all_paths,
            m,
        ),
        LogicalOp::Call { procedure_name, args, yield_items, .. } => call::called_rows(
            rs,
            procedure_name@,
            ast_model::exprs_view(args@),
            ast_model::yields_view(yield_items@),
            ctx,
            m,
        ),
        _ => arbitrary(),
    }
}

/// What an operator makes of the rows of its input, unless it is more than the context allows.
pub open spec fn applied(op: LogicalOp, rs: Seq<Row>, ctx: ExecContext, m: Model) -> Rows {
    read::limited_all(made(op, rs, ctx, m), ctx)
}

/// What a `ShortestPath` operator looks for.
fn build_search(op: &LogicalOp) -> (r: PathSearch)
    requires
        op is ShortestPath,
    ensures
        r@ == path_search(*op),
{
    match op {
        LogicalOp::ShortestPath {
            src_alias,
            dst_alias,
            path_alias,
            edge_type,
            direction,
            max_hops,
            ..
        } => PathSearch {
            src_alias: src_alias.clone(),
            dst_alias: dst_alias.clone(),
            path_alias: path_alias.clone(),
            label: match edge_type {
                Some(t) => t.clone(),
                None => text::owned(""),
            },
            direction: *direction,
            max_hops: *max_hops,
        },
        _ => PathSearch {
            src_alias: String::new(),
            dst_alias: String::new(),
            path_alias: String::new(),
            label: String::new(),
            direction: Direction::Both,
            max_hops: 0,
        },
    }
}

/// What an operator makes of the rows of its input, unless it is more than the context allows.
pub fn apply<S: Source>(db: &S, op: &LogicalOp, rs: Vec<NamedRecord>, ctx: &ExecContext) -> (r: Outcome)
    requires
        works_on_rows(*op),
    ensures
        source::steady(*db) ==> flow::rows_told(r) == applied(
            *op,
            record::rows(rs@),
            *ctx,
            source::model(*db),
        ),
{
    let made = match op {
        LogicalOp::Expand { result_cap, .. } => {
            let x = build_expansion(db, op);
            let cap = match result_cap {
                Some(c) => Some(*c as usize),
                None => None,
            };
            expand::expand_rows(db, &rs, &x, cap, ctx)
        },
        LogicalOp::Filter { predicate, .. } => read::filter_rows(db, &rs, predicate),
        LogicalOp::Project { items, emit_compound, .. } => project::project_rows(
            db,
            &rs,
            items,
            *emit_compound,
        ),
        LogicalOp::Aggregate { group_keys, aggregates, .. } => group::aggregate_named_records(
            db,
            &rs,
            group_keys,
            aggregates,
            false,
        ),
        LogicalOp::Sort { items, .. } => Ok(arrange::sort_rows(db, rs, items, false)),
        LogicalOp::Distinct { .. } => Ok(arrange::unique_rows(rs, true)),
        LogicalOp::Skip { count, .. } => Ok(arrange::skip_rows(rs, *count)),
        LogicalOp::Limit { count, .. } => Ok(arrange::take_rows(rs, *count)),
        LogicalOp::Unwind { expr, alias, .. } => read::unwind_rows(db, &rs, expr, alias.as_str()),
        LogicalOp::MaterializePath { path_alias, node_aliases, rel_aliases, .. } =>
        path::materialize_paths(db, &rs, path_alias.as_str(), node_aliases, rel_aliases, false),
        LogicalOp::ShortestPath { all_paths, .. } => {
            let x = build_search(op);
            path::shortest_paths(db, &rs, &x, *all_paths)
        },
        LogicalOp::Call { procedure_name, args, yield_items, .. } => call::call_rows(
            db,
            &rs,
            procedure_name.as_str(),
            args,
            yield_items,
            ctx,
        ),
        _ => Ok(rs),
    };
    read::limit_all(made, ctx)
}

/// What an operator makes of what its input gives.
pub open spec fn applied_to(op: LogicalOp, rs: Rows, ctx: ExecContext, m: Model) -> Rows {
    match rs {
        Ok(rs) => applied(op, rs, ctx, m),
        Err(e) => Err(e),
    }
}

/// What an operator makes of what its input gives.
fn apply_to<S: Source>(db: &S, op: &LogicalOp, rs: Outcome, ctx: &ExecContext) -> (r: Outcome)
    requires
        works_on_rows(*op),
    ensures
        source::steady(*db) ==> flow::rows_told(r) == applied_to(
            *op,
            flow::rows_told(rs),
            *ctx,
            source::model(*db),
        ),
{
    match rs {
        Ok(rs) => apply(db, op, rs, ctx),
        Err(e) => Err(e),
    }
}

/// The rows of a union.
pub open spec fn united(rs: Rows, all: bool) -> Rows {
    match rs {
        Ok(rs) => Ok(
            if all {
                rs
            } else {
                arrange::unique(rs, arrange::alike(false))
            },
        ),
        Err(e) => Err(e),
    }
}

/// The rows of a plan.
pub open spec fn rows_of(op: LogicalOp, ctx: ExecContext, m: Model) -> Rows
    decreases op, 2int, 0int,
{
    match op {
        LogicalOp::SingleRow => Ok(seq![Row::empty()]),
        LogicalOp::EmptyRow => Ok(seq![Row::empty()]),
        LogicalOp::Scan { label, alias } => read::scanned(label@, alias@, ctx, m),
        LogicalOp::IndexLookup { label, alias, index_properties, lookups, remaining_filters } =>
        read::limited_all(
            read::indexed(
                label@,
                alias@,
                ast_model::texts(index_properties@),
                read::lookup_keys(lookups@, m),
                ast_model::opt_expr_view(remaining_filters),
                m,
            ),
            ctx,
        ),
        LogicalOp::IdLookup { alias, value_expr } => read::limited_all(
            read::looked_up(alias@, value_expr@, Row::empty(), m),
            ctx,
        ),
        LogicalOp::FullTextLookup { label, alias, property, op, term, remaining_filters } =>
        read::limited_all(
            read::text_looked_up(
                label@,
                alias@,
                property@,
                op,
                term@,
                ast_model::opt_expr_view(remaining_filters),
                Row::empty(),
                m,
            ),
            ctx,
        ),
        LogicalOp::Expand { input, .. } => applied_to(op, rows_of(*input, ctx, m), ctx, m),
        LogicalOp::Filter { input, .. } => applied_to(op, rows_of(*input, ctx, m), ctx, m),
        LogicalOp::Project { input, .. } => applied_to(op, rows_of(*input, ctx, m), ctx, m),
        LogicalOp::Aggregate { input, .. } => applied_to(op, rows_of(*input, ctx, m), ctx, m),
        LogicalOp::Sort { input, .. } => applied_to(op, rows_of(*input, ctx, m), ctx, m),
        LogicalOp::Distinct { input } => applied_to(op, rows_of(*input, ctx, m), ctx, m),
        LogicalOp::Skip { input, .. } => applied_to(op, rows_of(*input, ctx, m), ctx, m),
        LogicalOp::Limit { input, .. } => applied_to(op, rows_of(*input, ctx, m), ctx, m),
        LogicalOp::Unwind { input, .. } => applied_to(op, rows_of(*input, ctx, m), ctx, m),
        LogicalOp::MaterializePath { input, .. } => applied_to(op, rows_of(*input, ctx, m), ctx, m),
        LogicalOp::ShortestPath { input, .. } => applied_to(op, rows_of(*input, ctx, m), ctx, m),
        LogicalOp::Call { input, .. } => applied_to(op, rows_of(*input, ctx, m), ctx, m),
        LogicalOp::CrossProduct { left, right, same_match } => match rows_of(*left, ctx, m) {
            Ok(ls) => join::crossed(ls, rows_of(*right, ctx, m), same_match, ctx),
            Err(e) => Err(e),
        },
        LogicalOp::CorrelatedJoin { input, .. } => match rows_of(*input, ctx, m) {
            Ok(ls) => read::limited_all(joined(op, ls, None, ctx, m), ctx),
            Err(e) => Err(e),
        },
        LogicalOp::LeftOuterJoin { input, .. } => match rows_of(*input, ctx, m) {
            Ok(ls) => read::limited_all(joined(op, ls, None, ctx, m), ctx),
            Err(e) => Err(e),
        },
        LogicalOp::Union { inputs, all } => read::limited_all(
            united(rows_of_all(inputs@, inputs@.len() as int, ctx, m), all),
            ctx,
        ),
        _ => arbitrary(),
    }
}

/// The rows of the first `n` plans, one after the other.
pub open spec fn rows_of_all(ops: Seq<LogicalOp>, n: int, ctx: ExecContext, m: Model) -> Rows
    decreases ops, 0int, n,
{
    if n <= 0 || n > ops.len() {
        Ok(Seq::empty())
    } else {
        match rows_of_all(ops, n - 1, ctx, m) {
            Ok(done) => match rows_of(ops[n - 1], ctx, m) {
                Ok(more) => Ok(done + more),
                Err(e) => Err(e),
            },
            Err(e) => Err(e),
        }
    }
}

/// What the right side of a join sees: the left row, and the row outside where there is one.
pub open spec fn sight(outer: Option<Row>, l: Row) -> Row {
    match outer {
        Some(o) => record::put_all(o, l),
        None => l,
    }
}

/// The rows of a join for one row of its left side and those of the right side for it.
pub open spec fn joined_with(op: LogicalOp, l: Row, rs: Seq<Row>, m: Model) -> Rows {
    match op {
        LogicalOp::CrossProduct { same_match, .. } => join::pairs(l, rs, true, same_match),
        LogicalOp::CorrelatedJoin { same_match, .. } => join::pairs(l, rs, false, same_match),
        LogicalOp::LeftOuterJoin { optional_aliases, opt_filter, .. } => join::outer_joined(
            l,
            rs,
            ast_model::texts(optional_aliases@),
            ast_model::opt_expr_view(opt_filter),
            m,
        ),
        _ => arbitrary(),
    }
}

/// The rows of a join for one row of its left side and what the right side gives for it.
pub open spec fn joined_to(op: LogicalOp, l: Row, rs: Rows, m: Model) -> Rows {
    match rs {
        Ok(rs) => joined_with(op, l, rs, m),
        Err(e) => Err(e),
    }
}

/// The rows of a join for one row of its left side.
pub open spec fn joined_one(
    op: LogicalOp,
    l: Row,
    outer: Option<Row>,
    ctx: ExecContext,
    m: Model,
) -> Rows
    decreases op, 0int, 0int,
{
    match op {
        LogicalOp::CrossProduct { right, .. } => joined_to(
            op,
            l,
            inner_rows_of(*right, sight(outer, l), ctx, m),
            m,
        ),
        LogicalOp::CorrelatedJoin { right, .. } => joined_to(
            op,
            l,
            inner_rows_of(*right, sight(outer, l), ctx, m),
            m,
        ),
        LogicalOp::LeftOuterJoin { right, .. } => joined_to(
            op,
            l,
            inner_rows_of(*right, sight(outer, l), ctx, m),
            m,
        ),
        _ => arbitrary(),
    }
}

/// The rows of a join, whose right side runs for each row of its left side.
pub open spec fn joined(
    op: LogicalOp,
    ls: Seq<Row>,
    outer: Option<Row>,
    ctx: ExecContext,
    m: Model,
) -> Rows
    decreases op, 1int, ls.len(),
{
    if ls.len() == 0 {
        Ok(Seq::empty())
    } else {
        match joined(op, ls.drop_last(), outer, ctx, m) {
            Ok(done) => match joined_one(op, ls.last(), outer, ctx, m) {
                Ok(more) => Ok(done + more),
                Err(e) => Err(e),
            },
            Err(e) => Err(e),
        }
    }
}

/// The row of the node that a variable is bound to outside; nothing if the variable is null, and
/// no answer if it is not bound to a node.
pub open spec fn outer_node(outer: Row, alias: Seq<char>, m: Model) -> Option<
    Result<Option<NodeView>, ErrorView>,
> {
    match assoc::lookup(outer, alias) {
        Some(v) => match binding::node_of(v) {
            Some(id) => Some(
                match (m.node)(id) {
                    Ok(n) => Ok(Some(n)),
                    Err(e) => Err(e),
                },
            ),
            None => if v == ValueView::Null {
                Some(Ok(None))
            } else {
                None
            },
        },
        None => None,
    }
}

/// The label is asked for and the node does not have it.
pub open spec fn lacks_label(n: NodeView, label: Seq<char>) -> bool {
    label.len() > 0 && !n.labels.contains(label)
}

/// A scan inside a subquery: a variable that is bound outside stands for its node.
pub open spec fn inner_scanned(
    label: Seq<char>,
    alias: Seq<char>,
    outer: Row,
    ctx: ExecContext,
    m: Model,
) -> Rows {
    match outer_node(outer, alias, m) {
        Some(Ok(Some(n))) => if lacks_label(n, label) {
            Ok(Seq::empty())
        } else {
            Ok(seq![binding::node_row(Row::empty(), n, alias)])
        },
        Some(Ok(None)) => Ok(Seq::empty()),
        Some(Err(e)) => Err(e),
        None => read::scanned(label, alias, ctx, m),
    }
}

/// A lookup by id inside a subquery.
pub open spec fn inner_looked_up(alias: Seq<char>, e: ExprView, outer: Row, m: Model) -> Rows {
    match outer_node(outer, alias, m) {
        Some(Ok(Some(n))) => Ok(seq![binding::node_row(Row::empty(), n, alias)]),
        Some(Ok(None)) => Ok(Seq::empty()),
        Some(Err(e)) => Err(e),
        None => read::looked_up(alias, e, outer, m),
    }
}

/// The row has the values that an index would be asked for.
pub open spec fn has_keys(rec: Row, alias: Seq<char>, keys: Row) -> bool {
    forall|i: int|
        0 <= i < keys.len() ==> (match assoc::lookup(
            rec,
            text::dotted(alias, (#[trigger] keys[i]).0),
        ) {
            Some(v) => order::same(v, keys[i].1),
            None => false,
        })
}

/// An index lookup inside a subquery: a variable that is bound outside must have what the index
/// would be asked for.
pub open spec fn inner_indexed(
    label: Seq<char>,
    alias: Seq<char>,
    properties: Seq<Seq<char>>,
    keys: Row,
    rest: Option<ExprView>,
    outer: Row,
    m: Model,
) -> Rows {
    match binding::node_in(assoc::lookup(outer, alias)) {
        Some(id) => match (m.node)(id) {
            Ok(n) => {
                let rec = binding::node_row(Row::empty(), n, alias);
                if lacks_label(n, label) || !has_keys(rec, alias, keys) {
                    Ok(Seq::empty())
                } else {
                    read::kept_if(rec, rest, m)
                }
            },
            Err(e) => Err(e),
        },
        None => read::indexed(label, alias, properties, keys, rest, m),
    }
}

/// The row where the predicate holds on it together with what is bound outside.
pub open spec fn inner_kept(rec: Row, outer: Row, predicate: ExprView, m: Model) -> Rows {
    match (m.holds)(predicate, record::filled(rec, outer)) {
        Ok(true) => Ok(seq![rec]),
        Ok(false) => Ok(Seq::empty()),
        Err(e) => Err(e),
    }
}

/// The operator works on the rows of its input together with the row outside a subquery.
pub open spec fn works_inside(op: LogicalOp) -> bool {
    match op {
        LogicalOp::Expand { .. } => true,
        LogicalOp::Filter { .. } => true,
        LogicalOp::Project { .. } => true,
        LogicalOp::Aggregate { .. } => true,
        LogicalOp::MaterializePath { .. } => true,
        _ => false,
    }
}

/// What an operator makes of the rows of its input inside a subquery, however many rows that
/// are.
pub open spec fn inner_made(op: LogicalOp, rs: Seq<Row>, outer: Row, ctx: ExecContext, m: Model) -> Rows {
    match op {
        LogicalOp::Expand { .. } => inner::expanded_rows(rs, outer, expansion(op, m), ctx, m),
        LogicalOp::Filter { predicate, .. } => flow::each(
            rs,
            |rec: Row| inner_kept(rec, outer, predicate@, m),
        ),
        LogicalOp::Project { items, emit_compound, .. } => project::inner_projected_rows(
            rs,
            ast_model::return_items_view(items@),
            emit_compound,
            m,
        ),
        LogicalOp::Aggregate { group_keys, aggregates, .. } => group::aggregated(
            rs,
            ast_model::exprs_view(group_keys@),
            aggregates@,
            true,
            m,
        ),
        LogicalOp::MaterializePath { path_alias, node_aliases, rel_aliases, .. } => path::path_rows(
            rs,
            path_alias@,
            ast_model::texts(node_aliases@),
            ast_model::texts(rel_aliases@),
            true,
            m,
        ),
        _ => arbitrary(),
    }
}

/// What an operator makes of what its input gives inside a subquery, unless it is more than the
/// context allows.
pub open spec fn inner_applied_to(op: LogicalOp, rs: Rows, outer: Row, ctx: ExecContext, m: Model) -> Rows {
    match rs {
        Ok(rs) => read::limited_all(inner_made(op, rs, outer, ctx, m), ctx),
        Err(e) => Err(e),
    }
}

/// The rows of a plan inside a subquery, for a row outside.
pub open spec fn inner_rows_of(op: LogicalOp, outer: Row, ctx: ExecContext, m: Model) -> Rows
    decreases op, 3int, 0int,
{
    match op {
        LogicalOp::Scan { label, alias } => read::limited_all(
            inner_scanned(label@, alias@, outer, ctx, m),
            ctx,
        ),
        LogicalOp::IdLookup { alias, value_expr } => read::limited_all(
            inner_looked_up(alias@, value_expr@, outer, m),
            ctx,
        ),
        LogicalOp::FullTextLookup { label, alias, property, op, term, remaining_filters } =>
        read::limited_all(
            read::text_looked_up(
                label@,
                alias@,
                property@,
                op,
                term@,
                ast_model::opt_expr_view(remaining_filters),
                outer,
                m,
            ),
            ctx,
        ),
        LogicalOp::IndexLookup { label, alias, index_properties, lookups, remaining_filters } =>
        read::limited_all(
            inner_indexed(
                label@,
                alias@,
                ast_model::texts(index_properties@),
                read::lookup_keys(lookups@, m),
                ast_model::opt_expr_view(remaining_filters),
                outer,
                m,
            ),
            ctx,
        ),
        LogicalOp::Expand { input, .. } => inner_applied_to(
            op,
            inner_rows_of(*input, outer, ctx, m),
            outer,
            ctx,
            m,
        ),
        LogicalOp::Filter { input, .. } => inner_applied_to(
            op,
            inner_rows_of(*input, outer, ctx, m),
            outer,
            ctx,
            m,
        ),
        LogicalOp::CrossProduct { left, .. } => match inner_rows_of(*left, outer, ctx, m) {
            Ok(ls) => read::limited_all(joined(op, ls, Some(outer), ctx, m), ctx),
            Err(e) => Err(e),
        },
        LogicalOp::CorrelatedJoin { input, .. } => match inner_rows_of(*input, outer, ctx, m) {
            Ok(ls) => read::limited_all(joined(op, ls, Some(outer), ctx, m), ctx),
            Err(e) => Err(e),
        },
        LogicalOp::Project { input, .. } => inner_applied_to(
            op,
            inner_rows_of(*input, outer, ctx, m),
            outer,
            ctx,
            m,
        ),
        LogicalOp::Aggregate { input, .. } => inner_applied_to(
            op,
            inner_rows_of(*input, outer, ctx, m),
            outer,
            ctx,
            m,
        ),
        LogicalOp::MaterializePath { input, .. } => inner_applied_to(
            op,
            inner_rows_of(*input, outer, ctx, m),
            outer,
            ctx,
            m,
        ),
        _ => rows_of(op, ctx, m),
    }
}

/// The rows of a plan that reads.
pub fn exec<S: Source>(db: &S, op: &LogicalOp, ctx: &ExecContext) -> (r: Outcome)
    requires
        plan::reads_only(*op),
    ensures
        source::steady(*db) ==> flow::rows_told(r) == rows_of(*op, *ctx, source::model(*db)),
    decreases op, 2int,
{
    match op {
        LogicalOp::SingleRow => Ok(read::one_row(NamedRecord::new())),
        LogicalOp::EmptyRow => Ok(read::one_row(NamedRecord::new())),
        LogicalOp::Scan { label, alias } => read::exec_scan(db, label.as_str(), alias.as_str(), ctx),
        LogicalOp::IndexLookup { label, alias, index_properties, lookups, remaining_filters } =>
        read::limit_all(
            read::exec_index_lookup(
                db,
                label.as_str(),
                alias.as_str(),
                index_properties,
                lookups,
                remaining_filters,
            ),
            ctx,
        ),
        LogicalOp::IdLookup { alias, value_expr } => read::limit_all(
            read::exec_id_lookup(db, alias.as_str(), value_expr, &NamedRecord::new()),
            ctx,
        ),
        LogicalOp::FullTextLookup { label, alias, property, op, term, remaining_filters } =>
        read::limit_all(
            read::exec_fulltext_lookup(
                db,
                label.as_str(),
                alias.as_str(),
                property.as_str(),
                *op,
                term,
                remaining_filters,
                &NamedRecord::new(),
            ),
            ctx,
        ),
        LogicalOp::Expand { input, .. } => apply_to(db, op, exec(db, input, ctx), ctx),
        LogicalOp::Filter { input, .. } => apply_to(db, op, exec(db, input, ctx), ctx),
        LogicalOp::Project { input, .. } => apply_to(db, op, exec(db, input, ctx), ctx),
        LogicalOp::Aggregate { input, .. } => apply_to(db, op, exec(db, input, ctx), ctx),
        LogicalOp::Sort { input, .. } => apply_to(db, op, exec(db, input, ctx), ctx),
        LogicalOp::Distinct { input } => apply_to(db, op, exec(db, input, ctx), ctx),
        LogicalOp::Skip { input, .. } => apply_to(db, op, exec(db, input, ctx), ctx),
        LogicalOp::Limit { input, .. } => apply_to(db, op, exec(db, input, ctx), ctx),
        LogicalOp::Unwind { input, .. } => apply_to(db, op, exec(db, input, ctx), ctx),
        LogicalOp::MaterializePath { input, .. } => apply_to(db, op, exec(db, input, ctx), ctx),
        LogicalOp::ShortestPath { input, .. } => apply_to(db, op, exec(db, input, ctx), ctx),
        LogicalOp::Call { input, .. } => apply_to(db, op, exec(db, input, ctx), ctx),
        LogicalOp::CrossProduct { .. } => exec_cross_product(db, op, ctx),
        LogicalOp::CorrelatedJoin { input, .. } => match exec(db, input, ctx) {
            Ok(ls) => read::limit_all(join_all(db, op, &ls, None, ctx), ctx),
            Err(e) => Err(e),
        },
        LogicalOp::LeftOuterJoin { input, .. } => match exec(db, input, ctx) {
            Ok(ls) => read::limit_all(join_all(db, op, &ls, None, ctx), ctx),
            Err(e) => Err(e),
        },
        LogicalOp::Union { inputs, all } => match exec_all(db, inputs, ctx) {
            Ok(rs) => if *all {
                read::limit_rows(rs, ctx)
            } else {
                read::limit_rows(arrange::unique_rows(rs, false), ctx)
            },
            Err(e) => Err(e),
        },
        _ => Ok(read::no_rows()),
    }
}

/// The rows of a cross product.
fn exec_cross_product<S: Source>(db: &S, op: &LogicalOp, ctx: &ExecContext) -> (r: Outcome)
    requires
        op is CrossProduct,
        plan::reads_only(*op),
    ensures
        source::steady(*db) ==> flow::rows_told(r) == rows_of(*op, *ctx, source::model(*db)),
    decreases op, 0int,
{
    match op {
        LogicalOp::CrossProduct { left, right, same_match } => {
            let ls = match exec(db, left, ctx) {
                Ok(ls) => ls,
                Err(e) => {
                    return Err(e);
                },
            };
            assert(record::rows(ls@).len() == ls@.len());
            if ls.len() == 0 {
                return Ok(read::no_rows());
            }
            match exec(db, right, ctx) {
                Ok(rs) => join::cross_rows(&ls, &rs, *same_match, ctx),
                Err(e) => Err(e),
            }
        },
        _ => Ok(read::no_rows()),
    }
}

/// The first row that fails decides.
proof fn lemma_joined_stops(
    op: LogicalOp,
    ls: Seq<Row>,
    outer: Option<Row>,
    ctx: ExecContext,
    m: Model,
    i: int,
)
    requires
        0 <= i <= ls.len(),
        joined(op, ls.take(i), outer, ctx, m) is Err,
    ensures
        joined(op, ls, outer, ctx, m) == joined(op, ls.take(i), outer, ctx, m),
    decreases ls.len(),
{
    if i < ls.len() {
        assert(ls.drop_last().take(i) =~= ls.take(i));
        lemma_joined_stops(op, ls.drop_last(), outer, ctx, m, i);
    } else {
        assert(ls.take(i) =~= ls);
    }
}

/// What an optional row says.
pub open spec fn opt_row(o: Option<&NamedRecord>) -> Option<Row> {
    match o {
        Some(rec) => Some(rec@),
        None => None,
    }
}

/// The operator is a join whose right side reads only.
pub open spec fn joins_reads(op: LogicalOp) -> bool {
    match op {
        LogicalOp::CrossProduct { right, .. } => plan::reads_only(*right),
        LogicalOp::CorrelatedJoin { right, .. } => plan::reads_only(*right),
        LogicalOp::LeftOuterJoin { right, .. } => plan::reads_only(*right),
        _ => false,
    }
}

/// The operator is a join.
pub open spec fn joins(op: LogicalOp) -> bool {
    match op {
        LogicalOp::CrossProduct { .. } => true,
        LogicalOp::CorrelatedJoin { .. } => true,
        LogicalOp::LeftOuterJoin { .. } => true,
        _ => false,
    }
}

/// The rows of a join for one row of its left side and those of the right side for it.
pub fn join_with<S: Source>(db: &S, op: &LogicalOp, l: &NamedRecord, rs: &Vec<NamedRecord>) -> (r: Outcome)
    requires
        joins(*op),
    ensures
        source::steady(*db) ==> flow::rows_told(r) == joined_with(
            *op,
            l@,
            record::rows(rs@),
            source::model(*db),
        ),
{
    match op {
        LogicalOp::CrossProduct { same_match, .. } => Ok(join::pair_rows(l, rs, true, *same_match)),
        LogicalOp::CorrelatedJoin { same_match, .. } => Ok(
            join::pair_rows(l, rs, false, *same_match),
        ),
        LogicalOp::LeftOuterJoin { optional_aliases, opt_filter, .. } => join::outer_join(
            db,
            l,
            rs,
            optional_aliases,
            opt_filter,
        ),
        _ => Ok(read::no_rows()),
    }
}

/// What the right side of a join sees: the left row, and the row outside where there is one.
pub fn seen_inside(outer: Option<&NamedRecord>, l: &NamedRecord) -> (r: NamedRecord)
    ensures
        r@ == sight(opt_row(outer), l@),
{
    match outer {
        Some(o) => join::combine(o, l, true),
        None => l.dup(),
    }
}

/// The rows of a join for one row of its left side.
fn join_one<S: Source>(
    db: &S,
    op: &LogicalOp,
    l: &NamedRecord,
    outer: Option<&NamedRecord>,
    ctx: &ExecContext,
) -> (r: Outcome)
    requires
        joins_reads(*op),
    ensures
        source::steady(*db) ==> flow::rows_told(r) == joined_one(
            *op,
            l@,
            opt_row(outer),
            *ctx,
            source::model(*db),
        ),
    decreases op, 0int,
{
    let seen = seen_inside(outer, l);
    let rs = match op {
        LogicalOp::CrossProduct { right, .. } => exec_correlated(db, right, &seen, ctx),
        LogicalOp::CorrelatedJoin { right, .. } => exec_correlated(db, right, &seen, ctx),
        LogicalOp::LeftOuterJoin { right, .. } => exec_correlated(db, right, &seen, ctx),
        _ => Ok(read::no_rows()),
    };
    match rs {
        Ok(rs) => join_with(db, op, l, &rs),
        Err(e) => Err(e),
    }
}

/// The rows of a join, whose right side runs for each row of its left side.
pub fn join_all<S: Source>(
    db: &S,
    op: &LogicalOp,
    ls: &Vec<NamedRecord>,
    outer: Option<&NamedRecord>,
    ctx: &ExecContext,
) -> (r: Outcome)
    requires
        joins_reads(*op),
    ensures
        source::steady(*db) ==> flow::rows_told(r) == joined(
            *op,
            record::rows(ls@),
            opt_row(outer),
            *ctx,
            source::model(*db),
        ),
    decreases op, 1int,
{
    let ghost m = source::model(*db);
    let ghost s = record::rows(ls@);
    let ghost o = opt_row(outer);
    let mut out: Vec<NamedRecord> = Vec::new();
    let mut i: usize = 0;
    assert(s.take(0) =~= Seq::<Row>::empty());
    assert(record::rows(out@) =~= Seq::<Row>::empty());
    while i < ls.len()
        invariant
            i <= ls.len(),
            m == source::model(*db),
            s == record::rows(ls@),
            o == opt_row(outer),
            joins_reads(*op),
            source::steady(*db) ==> joined(*op, s.take(i as int), o, *ctx, m) == Ok::<
                Seq<Row>,
                ErrorView,
            >(record::rows(out@)),
        decreases ls.len() - i,
    {
        assert(s.take(i + 1).drop_last() =~= s.take(i as int));
        assert(s.take(i + 1).last() == ls@[i as int]@);
        match join_one(db, op, &ls[i], outer, ctx) {
            Ok(more) => {
                flow::append_rows(&mut out, more);
            },
            Err(e) => {
                proof {
                    if source::steady(*db) {
                        lemma_joined_stops(*op, s, o, *ctx, m, i + 1);
                    }
                }
                return Err(e);
            },
        }
        i = i + 1;
    }
    assert(s.take(s.len() as int) =~= s);
    Ok(out)
}

/// The first plan that fails decides.
proof fn lemma_all_stop(ops: Seq<LogicalOp>, n: int, ctx: ExecContext, m: Model, i: int)
    requires
        0 <= i <= n <= ops.len(),
        rows_of_all(ops, i, ctx, m) is Err,
    ensures
        rows_of_all(ops, n, ctx, m) == rows_of_all(ops, i, ctx, m),
    decreases n,
{
    if i < n {
        lemma_all_stop(ops, n - 1, ctx, m, i);
    }
}

/// The rows of the plans, one after the other.
fn exec_all<S: Source>(db: &S, ops: &Vec<LogicalOp>, ctx: &ExecContext) -> (r: Outcome)
    requires
        plan::all_read_only(ops@),
    ensures
        source::steady(*db) ==> flow::rows_told(r) == rows_of_all(
            ops@,
            ops@.len() as int,
            *ctx,
            source::model(*db),
        ),
    decreases ops, 0int,
{
    let ghost m = source::model(*db);
    let mut out: Vec<NamedRecord> = Vec::new();
    let mut i: usize = 0;
    assert(decreases_to!(ops => ops@));
    assert(record::rows(out@) =~= Seq::<Row>::empty());
    while i < ops.len()
        invariant
            i <= ops.len(),
            m == source::model(*db),
            decreases_to!(ops => ops@),
            plan::all_read_only(ops@),
            source::steady(*db) ==> rows_of_all(ops@, i as int, *ctx, m) == Ok::<
                Seq<Row>,
                ErrorView,
            >(record::rows(out@)),
        decreases ops.len() - i,
    {
        assert(plan::reads_only(ops@[i as int]));
        match exec(db, &ops[i], ctx) {
            Ok(more) => {
                flow::append_rows(&mut out, more);
            },
            Err(e) => {
                proof {
                    if source::steady(*db) {
                        lemma_all_stop(ops@, ops@.len() as int, *ctx, m, i + 1);
                    }
                }
                return Err(e);
            },
        }
        i = i + 1;
    }
    Ok(out)
}

/// The node that a variable is bound to outside, if it is.
fn find_outer_node<S: Source>(db: &S, outer: &NamedRecord, alias: &str) -> (r: Option<
    Result<Option<Node>, GraphError>,
>)
    ensures
        source::steady(*db) ==> (match r {
            Some(Ok(Some(n))) => Some(Ok::<Option<NodeView>, ErrorView>(Some(n@))),
            Some(Ok(None)) => Some(Ok::<Option<NodeView>, ErrorView>(None)),
            Some(Err(e)) => Some(Err::<Option<NodeView>, ErrorView>(e@)),
            None => None,
        }) == outer_node(outer@, alias@, source::model(*db)),
{
    match binding::node_field(outer, alias) {
        Some(id) => match source::ask_node(db, id) {
            Ok(n) => Some(Ok(Some(n))),
            Err(e) => Some(Err(e)),
        },
        None => if binding::is_null_field(outer, alias) {
            Some(Ok(None))
        } else {
            None
        },
    }
}

/// True when the label is asked for and the node does not have it.
fn is_lacking(n: &Node, label: &str) -> (r: bool)
    ensures
        r == lacks_label(n@, label@),
{
    text::chars_of(label).len() > 0 && !project::has_text(&n.labels, label)
}

/// A scan inside a subquery.
fn scan_inner<S: Source>(
    db: &S,
    label: &str,
    alias: &str,
    outer: &NamedRecord,
    ctx: &ExecContext,
) -> (r: Outcome)
    ensures
        source::steady(*db) ==> flow::rows_told(r) == inner_scanned(
            label@,
            alias@,
            outer@,
            *ctx,
            source::model(*db),
        ),
{
    match find_outer_node(db, outer, alias) {
        Some(Ok(Some(n))) => if is_lacking(&n, label) {
            Ok(read::no_rows())
        } else {
            Ok(read::one_row(binding::node_to_record(&n, alias)))
        },
        Some(Ok(None)) => Ok(read::no_rows()),
        Some(Err(e)) => Err(e),
        None => read::exec_scan(db, label, alias, ctx),
    }
}

/// A lookup by id inside a subquery.
fn look_up_inner<S: Source>(db: &S, alias: &str, e: &Expr, outer: &NamedRecord) -> (r: Outcome)
    ensures
        source::steady(*db) ==> flow::rows_told(r) == inner_looked_up(
            alias@,
            e@,
            outer@,
            source::model(*db),
        ),
{
    match find_outer_node(db, outer, alias) {
        Some(Ok(Some(n))) => Ok(read::one_row(binding::node_to_record(&n, alias))),
        Some(Ok(None)) => Ok(read::no_rows()),
        Some(Err(e)) => Err(e),
        None => read::exec_id_lookup(db, alias, e, outer),
    }
}

/// True when the row has the values that an index would be asked for.
fn keys_match(rec: &NamedRecord, alias: &str, keys: &Vec<(String, Value)>) -> (r: bool)
    ensures
        r == has_keys(rec@, alias@, value::props_view(keys@)),
{
    let ghost all = value::props_view(keys@);
    let mut i: usize = 0;
    while i < keys.len()
        invariant
            i <= keys.len(),
            all == value::props_view(keys@),
            forall|j: int|
                0 <= j < i ==> (match assoc::lookup(
                    rec@,
                    text::dotted(alias@, (#[trigger] all[j]).0),
                ) {
                    Some(v) => order::same(v, all[j].1),
                    None => false,
                }),
        decreases keys.len() - i,
    {
        assert(all[i as int].0 == keys@[i as int].0@);
        match rec.get(text::field(alias, keys[i].0.as_str()).as_str()) {
            Some(v) => {
                if !order::equal(v, &keys[i].1) {
                    return false;
                }
            },
            None => {
                return false;
            },
        }
        i = i + 1;
    }
    true
}

/// An index lookup inside a subquery.
fn index_inner<S: Source>(
    db: &S,
    label: &str,
    alias: &str,
    properties: &Vec<String>,
    lookups: &Vec<(String, LiteralValue)>,
    rest: &Option<Expr>,
    outer: &NamedRecord,
) -> (r: Outcome)
    ensures
        source::steady(*db) ==> flow::rows_told(r) == inner_indexed(
            label@,
            alias@,
            ast_model::texts(properties@),
            read::lookup_keys(lookups@, source::model(*db)),
            ast_model::opt_expr_view(*rest),
            outer@,
            source::model(*db),
        ),
{
    match binding::node_field(outer, alias) {
        Some(id) => match source::ask_node(db, id) {
            Ok(n) => {
                if is_lacking(&n, label) {
                    return Ok(read::no_rows());
                }
                let rec = binding::node_to_record(&n, alias);
                let keys = read::resolve_lookups(db, lookups);
                if !keys_match(&rec, alias, &keys) {
                    return Ok(read::no_rows());
                }
                read::keep_if(db, rec, rest)
            },
            Err(e) => Err(e),
        },
        None => read::exec_index_lookup(db, label, alias, properties, lookups, rest),
    }
}

/// The row where the predicate holds on it together with what is bound outside.
fn keep_inner<S: Source>(
    db: &S,
    rec: &NamedRecord,
    outer: &NamedRecord,
    predicate: &Expr,
) -> (r: Outcome)
    ensures
        source::steady(*db) ==> flow::rows_told(r) == inner_kept(
            rec@,
            outer@,
            predicate@,
            source::model(*db),
        ),
{
    match source::ask_holds(db, predicate, &join::combine(rec, outer, false)) {
        Ok(true) => Ok(read::one_row(rec.dup())),
        Ok(false) => Ok(read::no_rows()),
        Err(e) => Err(e),
    }
}

/// The rows where the predicate holds on them together with what is bound outside.
fn filter_inner<S: Source>(
    db: &S,
    rs: &Vec<NamedRecord>,
    outer: &NamedRecord,
    predicate: &Expr,
) -> (r: Outcome)
    ensures
        source::steady(*db) ==> flow::rows_told(r) == flow::each(
            record::rows(rs@),
            |rec: Row| inner_kept(rec, outer@, predicate@, source::model(*db)),
        ),
{
    let ghost m = source::model(*db);
    let ghost (ov, p) = (outer@, predicate@);
    assert(flow::viewed(rs@) =~= record::rows(rs@));
    let f = |rec: &NamedRecord| -> (o: Outcome)
        ensures
            source::steady(*db) ==> flow::rows_told(o) == inner_kept(
                rec@,
                outer@,
                predicate@,
                source::model(*db),
            ),
        { keep_inner(db, rec, outer, predicate) };
    flow::gather(
        rs,
        f,
        Ghost(|rec: Row| inner_kept(rec, ov, p, m)),
        Ghost(source::steady(*db)),
    )
}

/// What an operator makes of the rows of its input inside a subquery, unless it is more than the
/// context allows.
pub fn apply_inner<S: Source>(
    db: &S,
    op: &LogicalOp,
    rs: &Vec<NamedRecord>,
    outer: &NamedRecord,
    ctx: &ExecContext,
) -> (r: Outcome)
    requires
        works_inside(*op),
    ensures
        source::steady(*db) ==> flow::rows_told(r) == inner_applied_to(
            *op,
            Ok(record::rows(rs@)),
            outer@,
            *ctx,
            source::model(*db),
        ),
{
    let made = match op {
        LogicalOp::Expand { .. } => {
            let x = build_expansion(db, op);
            inner::expand_rows(db, rs, outer, &x, ctx)
        },
        LogicalOp::Filter { predicate, .. } => filter_inner(db, rs, outer, predicate),
        LogicalOp::Project { items, emit_compound, .. } => project::project_inner_rows(
            db,
            rs,
            items,
            *emit_compound,
        ),
        LogicalOp::Aggregate { group_keys, aggregates, .. } => group::aggregate_named_records(
            db,
            rs,
            group_keys,
            aggregates,
            true,
        ),
        LogicalOp::MaterializePath { path_alias, node_aliases, rel_aliases, .. } =>
        path::materialize_paths(db, rs, path_alias.as_str(), node_aliases, rel_aliases, true),
        _ => Ok(read::no_rows()),
    };
    read::limit_all(made, ctx)
}

/// What an operator makes of what its input gives inside a subquery.
fn apply_inner_to<S: Source>(
    db: &S,
    op: &LogicalOp,
    rs: Outcome,
    outer: &NamedRecord,
    ctx: &ExecContext,
) -> (r: Outcome)
    requires
        works_inside(*op),
    ensures
        source::steady(*db) ==> flow::rows_told(r) == inner_applied_to(
            *op,
            flow::rows_told(rs),
            outer@,
            *ctx,
            source::model(*db),
        ),
{
    match rs {
        Ok(rs) => apply_inner(db, op, &rs, outer, ctx),
        Err(e) => Err(e),
    }
}

/// The rows of a plan that reads, inside a subquery, for a row outside.
pub fn exec_correlated<S: Source>(
    db: &S,
    op: &LogicalOp,
    outer: &NamedRecord,
    ctx: &ExecContext,
) -> (r: Outcome)
    requires
        plan::reads_only(*op),
    ensures
        source::steady(*db) ==> flow::rows_told(r) == inner_rows_of(
            *op,
            outer@,
            *ctx,
            source::model(*db),
        ),
    decreases op, 3int,
{
    match op {
        LogicalOp::Scan { label, alias } => read::limit_all(
            scan_inner(db, label.as_str(), alias.as_str(), outer, ctx),
            ctx,
        ),
        LogicalOp::IdLookup { alias, value_expr } => read::limit_all(
            look_up_inner(db, alias.as_str(), value_expr, outer),
            ctx,
        ),
        LogicalOp::FullTextLookup { label, alias, property, op, term, remaining_filters } =>
        read::limit_all(
            read::exec_fulltext_lookup(
                db,
                label.as_str(),
                alias.as_str(),
                property.as_str(),
                *op,
                term,
                remaining_filters,
                outer,
            ),
            ctx,
        ),
        LogicalOp::IndexLookup { label, alias, index_properties, lookups, remaining_filters } =>
        read::limit_all(
            index_inner(
                db,
                label.as_str(),
                alias.as_str(),
                index_properties,
                lookups,
                remaining_filters,
                outer,
            ),
            ctx,
        ),
        LogicalOp::Expand { input, .. } => apply_inner_to(
            db,
            op,
            exec_correlated(db, input, outer, ctx),
            outer,
            ctx,
        ),
        LogicalOp::Filter { input, .. } => apply_inner_to(
            db,
            op,
            exec_correlated(db, input, outer, ctx),
            outer,
            ctx,
        ),
        LogicalOp::CrossProduct { left, .. } => match exec_correlated(db, left, outer, ctx) {
            Ok(ls) => read::limit_all(join_all(db, op, &ls, Some(outer), ctx), ctx),
            Err(e) => Err(e),
        },
        LogicalOp::CorrelatedJoin { input, .. } => match exec_correlated(db, input, outer, ctx) {
            Ok(ls) => read::limit_all(join_all(db, op, &ls, Some(outer), ctx), ctx),
            Err(e) => Err(e),
        },
        LogicalOp::Project { input, .. } => apply_inner_to(
            db,
            op,
            exec_correlated(db, input, outer, ctx),
            outer,
            ctx,
        ),
        LogicalOp::Aggregate { input, .. } => apply_inner_to(
            db,
            op,
            exec_correlated(db, input, outer, ctx),
            outer,
            ctx,
        ),
        LogicalOp::MaterializePath { input, .. } => apply_inner_to(
            db,
            op,
            exec_correlated(db, input, outer, ctx),
            outer,
            ctx,
        ),
        _ => exec(db, op, ctx),
    }
}

} // verus!
