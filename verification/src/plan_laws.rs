//! What a look at a plan or an expression tells of its parts: whether one writes, goes too far or
//! holds a subquery.
use crate::ast::{Expr, ExprKind};
use crate::plan;
use crate::plan::LogicalOp;
use vstd::prelude::*;

verus! {

/// A plan is a part of another: the other itself, or a part of one of its inputs.
pub open spec fn part_of(sub: LogicalOp, op: LogicalOp) -> bool
    decreases op,
{
    sub == op || match op {
        LogicalOp::Expand { input, .. } => part_of(sub, *input),
        LogicalOp::ShortestPath { input, .. } => part_of(sub, *input),
        LogicalOp::Filter { input, .. } => part_of(sub, *input),
        LogicalOp::Project { input, .. } => part_of(sub, *input),
        LogicalOp::Aggregate { input, .. } => part_of(sub, *input),
        LogicalOp::Sort { input, .. } => part_of(sub, *input),
        LogicalOp::Distinct { input } => part_of(sub, *input),
        LogicalOp::Skip { input, .. } => part_of(sub, *input),
        LogicalOp::Limit { input, .. } => part_of(sub, *input),
        LogicalOp::MatchCreate { input, .. } => part_of(sub, *input),
        LogicalOp::Delete { input, .. } => part_of(sub, *input),
        LogicalOp::SetProperty { input, .. } => part_of(sub, *input),
        LogicalOp::SetLabel { input, .. } => part_of(sub, *input),
        LogicalOp::SetProperties { input, .. } => part_of(sub, *input),
        LogicalOp::Remove { input, .. } => part_of(sub, *input),
        LogicalOp::MatchMerge { input, .. } => part_of(sub, *input),
        LogicalOp::MaterializePath { input, .. } => part_of(sub, *input),
        LogicalOp::Unwind { input, .. } => part_of(sub, *input),
        LogicalOp::Call { input, .. } => part_of(sub, *input),
        LogicalOp::CrossProduct { left, right, .. } => part_of(sub, *left) || part_of(sub, *right),
        LogicalOp::CorrelatedJoin { input, right, .. } => part_of(sub, *input) || part_of(
            sub,
            *right,
        ),
        LogicalOp::LeftOuterJoin { input, right, .. } => part_of(sub, *input) || part_of(
            sub,
            *right,
        ),
        LogicalOp::Union { inputs, .. } => exists|i: int|
            0 <= i < inputs@.len() && part_of(sub, inputs@[i]),
        LogicalOp::CreateSequence { ops } => exists|i: int|
            0 <= i < ops@.len() && part_of(sub, ops@[i]),
        _ => false,
    }
}

/// The traversal keeps to a limit.
pub open spec fn short_enough(op: LogicalOp, cap: u32) -> bool {
    match op {
        LogicalOp::Expand { max_hops, .. } => max_hops <= cap,
        LogicalOp::ShortestPath { max_hops, .. } => max_hops <= cap,
        _ => true,
    }
}

/// Where a plan passes the limit on the length of traversals, every traversal in it keeps to the
/// limit, however deep it stands.
pub proof fn no_traversal_is_too_long(op: LogicalOp, sub: LogicalOp, cap: u32)
    requires
        plan::depth_fault(op, cap) is None,
        part_of(sub, op),
    ensures
        short_enough(sub, cap),
    decreases op,
{
    if sub != op {
        match op {
            LogicalOp::Expand { input, .. } => no_traversal_is_too_long(*input, sub, cap),
            LogicalOp::ShortestPath { input, .. } => no_traversal_is_too_long(*input, sub, cap),
            LogicalOp::Filter { input, .. } => no_traversal_is_too_long(*input, sub, cap),
            LogicalOp::Project { input, .. } => no_traversal_is_too_long(*input, sub, cap),
            LogicalOp::Aggregate { input, .. } => no_traversal_is_too_long(*input, sub, cap),
            LogicalOp::Sort { input, .. } => no_traversal_is_too_long(*input, sub, cap),
            LogicalOp::Distinct { input } => no_traversal_is_too_long(*input, sub, cap),
            LogicalOp::Skip { input, .. } => no_traversal_is_too_long(*input, sub, cap),
            LogicalOp::Limit { input, .. } => no_traversal_is_too_long(*input, sub, cap),
            LogicalOp::MatchCreate { input, .. } => no_traversal_is_too_long(*input, sub, cap),
            LogicalOp::Delete { input, .. } => no_traversal_is_too_long(*input, sub, cap),
            LogicalOp::SetProperty { input, .. } => no_traversal_is_too_long(*input, sub, cap),
            LogicalOp::SetLabel { input, .. } => no_traversal_is_too_long(*input, sub, cap),
            LogicalOp::SetProperties { input, .. } => no_traversal_is_too_long(*input, sub, cap),
            LogicalOp::Remove { input, .. } => no_traversal_is_too_long(*input, sub, cap),
            LogicalOp::MatchMerge { input, .. } => no_traversal_is_too_long(*input, sub, cap),
            LogicalOp::MaterializePath { input, .. } => no_traversal_is_too_long(*input, sub, cap),
            LogicalOp::Unwind { input, .. } => no_traversal_is_too_long(*input, sub, cap),
            LogicalOp::Call { input, .. } => no_traversal_is_too_long(*input, sub, cap),
            LogicalOp::CrossProduct { left, right, .. } => {
                if part_of(sub, *left) {
                    no_traversal_is_too_long(*left, sub, cap);
                } else {
                    no_traversal_is_too_long(*right, sub, cap);
                }
            },
            LogicalOp::CorrelatedJoin { input, right, .. } => {
                if part_of(sub, *input) {
                    no_traversal_is_too_long(*input, sub, cap);
                } else {
                    no_traversal_is_too_long(*right, sub, cap);
                }
            },
            LogicalOp::LeftOuterJoin { input, right, .. } => {
                if part_of(sub, *input) {
                    no_traversal_is_too_long(*input, sub, cap);
                } else {
                    no_traversal_is_too_long(*right, sub, cap);
                }
            },
            LogicalOp::Union { inputs, .. } => {
                let i = choose|i: int| 0 <= i < inputs@.len() && part_of(sub, inputs@[i]);
                lemma_none_faulty(inputs@, 0, i, cap);
                no_traversal_is_too_long(inputs@[i], sub, cap);
            },
            LogicalOp::CreateSequence { ops } => {
                let i = choose|i: int| 0 <= i < ops@.len() && part_of(sub, ops@[i]);
                lemma_none_faulty(ops@, 0, i, cap);
                no_traversal_is_too_long(ops@[i], sub, cap);
            },
            _ => {},
        }
    }
}

/// Where no plan of a list from a place on is faulty, none of them is.
proof fn lemma_none_faulty(ops: Seq<LogicalOp>, n: int, i: int, cap: u32)
    requires
        0 <= n <= i < ops.len(),
        plan::depth_fault_from(ops, n, cap) is None,
    ensures
        plan::depth_fault(ops[i], cap) is None,
    decreases ops.len() - n,
{
    if n < i {
        lemma_none_faulty(ops, n + 1, i, cap);
    }
}

/// A traversal that is too long fails the plan at once.
pub proof fn a_traversal_too_long_is_refused(op: LogicalOp, cap: u32)
    requires
        !short_enough(op, cap),
    ensures
        plan::depth_fault(op, cap) is Some,
{
}

/// Where a plan is refused for the length of its traversals, some traversal in it is too long.
pub proof fn only_long_traversals_are_refused(op: LogicalOp, cap: u32) -> (sub: LogicalOp)
    requires
        plan::depth_fault(op, cap) is Some,
    ensures
        part_of(sub, op),
        !short_enough(sub, cap),
    decreases op,
{
    if !short_enough(op, cap) {
        op
    } else {
        match op {
            LogicalOp::Expand { input, .. } => only_long_traversals_are_refused(*input, cap),
            LogicalOp::ShortestPath { input, .. } => only_long_traversals_are_refused(*input, cap),
            LogicalOp::Filter { input, .. } => only_long_traversals_are_refused(*input, cap),
            LogicalOp::Project { input, .. } => only_long_traversals_are_refused(*input, cap),
            LogicalOp::Aggregate { input, .. } => only_long_traversals_are_refused(*input, cap),
            LogicalOp::Sort { input, .. } => only_long_traversals_are_refused(*input, cap),
            LogicalOp::Distinct { input } => only_long_traversals_are_refused(*input, cap),
            LogicalOp::Skip { input, .. } => only_long_traversals_are_refused(*input, cap),
            LogicalOp::Limit { input, .. } => only_long_traversals_are_refused(*input, cap),
            LogicalOp::MatchCreate { input, .. } => only_long_traversals_are_refused(*input, cap),
            LogicalOp::Delete { input, .. } => only_long_traversals_are_refused(*input, cap),
            LogicalOp::SetProperty { input, .. } => only_long_traversals_are_refused(*input, cap),
            LogicalOp::SetLabel { input, .. } => only_long_traversals_are_refused(*input, cap),
            LogicalOp::SetProperties { input, .. } => only_long_traversals_are_refused(*input, cap),
            LogicalOp::Remove { input, .. } => only_long_traversals_are_refused(*input, cap),
            LogicalOp::MatchMerge { input, .. } => only_long_traversals_are_refused(*input, cap),
            LogicalOp::MaterializePath { input, .. } => only_long_traversals_are_refused(*input, cap),
            LogicalOp::Unwind { input, .. } => only_long_traversals_are_refused(*input, cap),
            LogicalOp::Call { input, .. } => only_long_traversals_are_refused(*input, cap),
            LogicalOp::CrossProduct { left, right, .. } => if plan::depth_fault(*left, cap) is Some {
                only_long_traversals_are_refused(*left, cap)
            } else {
                only_long_traversals_are_refused(*right, cap)
            },
            LogicalOp::CorrelatedJoin { input, right, .. } => if plan::depth_fault(*input, cap) is Some {
                only_long_traversals_are_refused(*input, cap)
            } else {
                only_long_traversals_are_refused(*right, cap)
            },
            LogicalOp::LeftOuterJoin { input, right, .. } => if plan::depth_fault(*input, cap) is Some {
                only_long_traversals_are_refused(*input, cap)
            } else {
                only_long_traversals_are_refused(*right, cap)
            },
            LogicalOp::Union { inputs, .. } => {
                let i = lemma_some_faulty(inputs@, 0, cap);
                only_long_traversals_are_refused(inputs@[i], cap)
            },
            LogicalOp::CreateSequence { ops } => {
                let i = lemma_some_faulty(ops@, 0, cap);
                only_long_traversals_are_refused(ops@[i], cap)
            },
            _ => op,
        }
    }
}

/// Where plans of a list from a place on are faulty, some one of them is.
proof fn lemma_some_faulty(ops: Seq<LogicalOp>, n: int, cap: u32) -> (i: int)
    requires
        0 <= n <= ops.len(),
        plan::depth_fault_from(ops, n, cap) is Some,
    ensures
        n <= i < ops.len(),
        plan::depth_fault(ops[i], cap) is Some,
    decreases ops.len() - n,
{
    if plan::depth_fault(ops[n], cap) is Some {
        n
    } else {
        lemma_some_faulty(ops, n + 1, cap)
    }
}

/// The operator changes the graph or its indexes.
pub open spec fn changes_the_graph(op: LogicalOp) -> bool {
    op is CreateNode || op is CreateEdge || op is CreateSequence || op is MatchCreate
        || op is Delete || op is SetProperty || op is SetLabel || op is SetProperties
        || op is Remove || op is Merge || op is MatchMerge || op is CreateIndex || op is DropIndex
}

/// No part of a plan that only reads changes the graph, however deep it stands.
pub proof fn no_write_hides_in_a_reading_plan(op: LogicalOp, sub: LogicalOp)
    requires
        plan::reads_only(op),
        part_of(sub, op),
    ensures
        !changes_the_graph(sub),
    decreases op,
{
    if sub != op {
        match op {
            LogicalOp::Filter { input, .. } => no_write_hides_in_a_reading_plan(*input, sub),
            LogicalOp::Project { input, .. } => no_write_hides_in_a_reading_plan(*input, sub),
            LogicalOp::Distinct { input } => no_write_hides_in_a_reading_plan(*input, sub),
            LogicalOp::Sort { input, .. } => no_write_hides_in_a_reading_plan(*input, sub),
            LogicalOp::Skip { input, .. } => no_write_hides_in_a_reading_plan(*input, sub),
            LogicalOp::Limit { input, .. } => no_write_hides_in_a_reading_plan(*input, sub),
            LogicalOp::Unwind { input, .. } => no_write_hides_in_a_reading_plan(*input, sub),
            LogicalOp::Aggregate { input, .. } => no_write_hides_in_a_reading_plan(*input, sub),
            LogicalOp::ShortestPath { input, .. } => no_write_hides_in_a_reading_plan(*input, sub),
            LogicalOp::MaterializePath { input, .. } => no_write_hides_in_a_reading_plan(*input, sub),
            LogicalOp::Call { input, .. } => no_write_hides_in_a_reading_plan(*input, sub),
            LogicalOp::Expand { input, .. } => no_write_hides_in_a_reading_plan(*input, sub),
            LogicalOp::CrossProduct { left, right, .. } => {
                if part_of(sub, *left) {
                    no_write_hides_in_a_reading_plan(*left, sub);
                } else {
                    no_write_hides_in_a_reading_plan(*right, sub);
                }
            },
            LogicalOp::CorrelatedJoin { input, right, .. } => {
                if part_of(sub, *input) {
                    no_write_hides_in_a_reading_plan(*input, sub);
                } else {
                    no_write_hides_in_a_reading_plan(*right, sub);
                }
            },
            LogicalOp::LeftOuterJoin { input, right, .. } => {
                if part_of(sub, *input) {
                    no_write_hides_in_a_reading_plan(*input, sub);
                } else {
                    no_write_hides_in_a_reading_plan(*right, sub);
                }
            },
            LogicalOp::Union { inputs, .. } => {
                assert(plan::all_read_only(inputs@));
                let i = choose|i: int| 0 <= i < inputs@.len() && part_of(sub, inputs@[i]);
                no_write_hides_in_a_reading_plan(inputs@[i], sub);
            },
            _ => {},
        }
    }
}

/// A plan that does not only read has a part that changes the graph.
pub proof fn a_plan_that_writes_has_a_write(op: LogicalOp) -> (sub: LogicalOp)
    requires
        !plan::reads_only(op),
    ensures
        part_of(sub, op),
        changes_the_graph(sub),
    decreases op,
{
    match op {
        LogicalOp::Filter { input, .. } => a_plan_that_writes_has_a_write(*input),
        LogicalOp::Project { input, .. } => a_plan_that_writes_has_a_write(*input),
        LogicalOp::Distinct { input } => a_plan_that_writes_has_a_write(*input),
        LogicalOp::Sort { input, .. } => a_plan_that_writes_has_a_write(*input),
        LogicalOp::Skip { input, .. } => a_plan_that_writes_has_a_write(*input),
        LogicalOp::Limit { input, .. } => a_plan_that_writes_has_a_write(*input),
        LogicalOp::Unwind { input, .. } => a_plan_that_writes_has_a_write(*input),
        LogicalOp::Aggregate { input, .. } => a_plan_that_writes_has_a_write(*input),
        LogicalOp::ShortestPath { input, .. } => a_plan_that_writes_has_a_write(*input),
        LogicalOp::MaterializePath { input, .. } => a_plan_that_writes_has_a_write(*input),
        LogicalOp::Call { input, .. } => a_plan_that_writes_has_a_write(*input),
        LogicalOp::Expand { input, .. } => a_plan_that_writes_has_a_write(*input),
        LogicalOp::CrossProduct { left, right, .. } => if !plan::reads_only(*left) {
            a_plan_that_writes_has_a_write(*left)
        } else {
            a_plan_that_writes_has_a_write(*right)
        },
        LogicalOp::CorrelatedJoin { input, right, .. } => if !plan::reads_only(*input) {
            a_plan_that_writes_has_a_write(*input)
        } else {
            a_plan_that_writes_has_a_write(*right)
        },
        LogicalOp::LeftOuterJoin { input, right, .. } => if !plan::reads_only(*input) {
            a_plan_that_writes_has_a_write(*input)
        } else {
            a_plan_that_writes_has_a_write(*right)
        },
        LogicalOp::Union { inputs, .. } => {
            assert(!plan::all_read_only(inputs@));
            let i = choose|i: int| 0 <= i < inputs@.len() && !plan::reads_only(inputs@[i]);
            a_plan_that_writes_has_a_write(inputs@[i])
        },
        _ => op,
    }
}

/// An expression stands directly in another.
pub open spec fn stands_in(x: Expr, e: Expr) -> bool {
    match e.kind {
        ExprKind::BinaryOp { left, right, .. } => x == *left || x == *right,
        ExprKind::Not(y) => x == *y,
        ExprKind::IsNull(y) => x == *y,
        ExprKind::IsNotNull(y) => x == *y,
        ExprKind::FunctionCall { args, .. } => args@.contains(x),
        ExprKind::Case { operand, alternatives, default } => operand == Some(Box::new(x))
            || default == Some(Box::new(x)) || exists|i: int|
            0 <= i < alternatives@.len() && (*(#[trigger] alternatives@[i]).0 == x
                || *alternatives@[i].1 == x),
        ExprKind::List(xs) => xs@.contains(x),
        ExprKind::ListComprehension { list_expr, filter, map_expr, .. } => x == *list_expr
            || filter == Some(Box::new(x)) || map_expr == Some(Box::new(x)),
        ExprKind::MapLiteral(entries) => exists|i: int|
            0 <= i < entries@.len() && (#[trigger] entries@[i]).1 == x,
        ExprKind::Index { expr, index } => x == *expr || x == *index,
        ExprKind::DotAccess { expr, .. } => x == *expr,
        ExprKind::Slice { expr, start, end } => x == *expr || start == Some(Box::new(x)) || end
            == Some(Box::new(x)),
        ExprKind::Quantifier { list_expr, predicate, .. } => x == *list_expr || x == *predicate,
        _ => false,
    }
}

/// What an expression holds, every expression around it holds: a subquery over a pattern, or a
/// bare variable.
pub proof fn what_is_held_is_held_outside(x: Expr, e: Expr, vars: bool)
    requires
        stands_in(x, e),
        plan::opens(x, vars),
    ensures
        plan::opens(e, vars),
{
    match e.kind {
        ExprKind::FunctionCall { args, .. } => {
            assert(plan::any_opens(args@, vars));
        },
        ExprKind::List(xs) => {
            assert(plan::any_opens(xs@, vars));
        },
        ExprKind::Case { operand, alternatives, default } => {
            if operand == Some(Box::new(x)) {
                assert(plan::opt_opens(operand, vars));
            } else if default == Some(Box::new(x)) {
                assert(plan::opt_opens(default, vars));
            } else {
                assert(plan::branch_opens(alternatives@, vars));
            }
        },
        ExprKind::ListComprehension { list_expr, filter, map_expr, .. } => {
            if filter == Some(Box::new(x)) {
                assert(plan::opt_opens(filter, vars));
            } else if map_expr == Some(Box::new(x)) {
                assert(plan::opt_opens(map_expr, vars));
            }
        },
        ExprKind::MapLiteral(entries) => {
            assert(plan::entry_opens(entries@, vars));
        },
        ExprKind::Slice { expr, start, end } => {
            if start == Some(Box::new(x)) {
                assert(plan::opt_opens(start, vars));
            } else if end == Some(Box::new(x)) {
                assert(plan::opt_opens(end, vars));
            }
        },
        _ => {},
    }
}

/// A bare variable and a star count as such, and a subquery over a pattern counts in any case.
pub proof fn bare_variables_and_subqueries_are_seen(e: Expr, vars: bool)
    ensures
        e.kind is Variable || e.kind is Star ==> plan::opens(e, vars) == vars,
        e.kind is PatternComprehension || e.kind is Exists || e.kind is ExistsSubquery
            || e.kind is PatternPredicate ==> plan::opens(e, vars),
        e.kind is Literal || e.kind is Parameter || e.kind is HasLabel || e.kind is Property
            ==> !plan::opens(e, vars),
{
}

/// An expression that holds something holds it itself, or one that stands in it does.
pub proof fn what_is_held_stands_somewhere(e: Expr, vars: bool) -> (x: Expr)
    requires
        plan::opens(e, vars),
    ensures
        x == e && (e.kind is Variable || e.kind is Star || e.kind is PatternComprehension
            || e.kind is Exists || e.kind is ExistsSubquery || e.kind is PatternPredicate)
            || stands_in(x, e) && plan::opens(x, vars),
{
    match e.kind {
        ExprKind::BinaryOp { left, right, .. } => if plan::opens(*left, vars) {
            *left
        } else {
            *right
        },
        ExprKind::Not(y) => *y,
        ExprKind::IsNull(y) => *y,
        ExprKind::IsNotNull(y) => *y,
        ExprKind::FunctionCall { args, .. } => {
            assert(plan::any_opens(args@, vars));
            args@[choose|i: int| 0 <= i < args@.len() && plan::opens(#[trigger] args@[i], vars)]
        },
        ExprKind::Case { operand, alternatives, default } => if plan::opt_opens(operand, vars) {
            *operand->0
        } else if plan::opt_opens(default, vars) {
            *default->0
        } else {
            assert(plan::branch_opens(alternatives@, vars));
            let i = choose|i: int|
                0 <= i < alternatives@.len() && (plan::opens(*(#[trigger] alternatives@[i]).0, vars)
                    || plan::opens(*alternatives@[i].1, vars));
            if plan::opens(*alternatives@[i].0, vars) {
                *alternatives@[i].0
            } else {
                *alternatives@[i].1
            }
        },
        ExprKind::List(xs) => {
            assert(plan::any_opens(xs@, vars));
            xs@[choose|i: int| 0 <= i < xs@.len() && plan::opens(#[trigger] xs@[i], vars)]
        },
        ExprKind::ListComprehension { list_expr, filter, map_expr, .. } => if plan::opens(
            *list_expr,
            vars,
        ) {
            *list_expr
        } else if plan::opt_opens(filter, vars) {
            *filter->0
        } else {
            assert(plan::opt_opens(map_expr, vars));
            *map_expr->0
        },
        ExprKind::MapLiteral(entries) => {
            assert(plan::entry_opens(entries@, vars));
            entries@[choose|i: int|
                0 <= i < entries@.len() && plan::opens((#[trigger] entries@[i]).1, vars)].1
        },
        ExprKind::Index { expr, index } => if plan::opens(*expr, vars) {
            *expr
        } else {
            *index
        },
        ExprKind::DotAccess { expr, .. } => *expr,
        ExprKind::Slice { expr, start, end } => if plan::opens(*expr, vars) {
            *expr
        } else if plan::opt_opens(start, vars) {
            *start->0
        } else {
            assert(plan::opt_opens(end, vars));
            *end->0
        },
        ExprKind::Quantifier { list_expr, predicate, .. } => if plan::opens(*list_expr, vars) {
            *list_expr
        } else {
            *predicate
        },
        _ => e,
    }
}

} // verus!
