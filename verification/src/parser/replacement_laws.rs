//! Replacing parameters replaces nothing else.
use super::reference;
use crate::assoc;
use crate::ast_model::{
    AssignmentView, ClauseView, CreateStatementView, DeleteStatementView, ExprKindView,
    ExprView, FloatLiteralView, IntermediateClauseView, IntermediateMatchView, LiteralValueView, MatchCreateStatementView,
    MatchMergeStatementView, MatchStatementView, MergeStatementView, MultiClauseStatementView,
    NodePatternView, OptionalMatchView, PatternElementView, PatternView, RelPatternView,
    RemoveStatementView, ReturnClauseView, ReturnItemView, ReturnStatementView, SetItemView,
    SetStatementView, SortItemView, StatementView, UnwindBodyView, UnwindClauseView,
    UnwindStatementView, WithClauseView,
};
use crate::types::Span;
use crate::value::ValueView;
use vstd::prelude::*;

verus! {

/// Nothing changes in a [`ExprView`] without parameters.
proof fn kept_expr(x: ExprView, ps: Seq<(Seq<char>, ValueView)>, tail_first: bool)
    requires
        reference::names_expr(x, tail_first).len() == 0,
    ensures
        reference::bound_expr(x, ps) == x,
    decreases x, 0int,
{
    match x.kind {
        ExprKindView::Parameter(name) => {
            assert(reference::names_expr_kind(x.kind, tail_first) == seq![name]);
        },
        _ => {
            kept_expr_kind(x.kind, ps, tail_first);
        },
    }
}

/// Nothing changes in a [`ExprKindView`] without parameters.
proof fn kept_expr_kind(x: ExprKindView, ps: Seq<(Seq<char>, ValueView)>, tail_first: bool)
    requires
        !(x is Parameter),
        reference::names_expr_kind(x, tail_first).len() == 0,
    ensures
        reference::bound_expr_kind(x, ps) == x,
    decreases x, 0int,
{
    match x {
        ExprKindView::PatternPredicate(a) => {
            kept_pattern(a, ps, tail_first);
        },
        ExprKindView::BinaryOp { left, right, .. } => {
            kept_expr(*left, ps, tail_first);
            kept_expr(*right, ps, tail_first);
        },
        ExprKindView::Not(a) => {
            kept_expr(*a, ps, tail_first);
        },
        ExprKindView::IsNull(a) => {
            kept_expr(*a, ps, tail_first);
        },
        ExprKindView::IsNotNull(a) => {
            kept_expr(*a, ps, tail_first);
        },
        ExprKindView::FunctionCall { args, .. } => {
            kept_exprs(args, 0, ps, tail_first);
        },
        ExprKindView::Case { operand, alternatives, default } => {
            kept_opt_box(operand, ps, tail_first);
            kept_alternatives(alternatives, 0, ps, tail_first);
            kept_opt_box(default, ps, tail_first);
        },
        ExprKindView::List(a) => {
            kept_exprs(a, 0, ps, tail_first);
        },
        ExprKindView::ListComprehension { list_expr, filter, map_expr, .. } => {
            kept_expr(*list_expr, ps, tail_first);
            kept_opt_box(filter, ps, tail_first);
            kept_opt_box(map_expr, ps, tail_first);
        },
        ExprKindView::PatternComprehension { pattern, where_clause, map_expr, .. } => {
            kept_pattern(pattern, ps, tail_first);
            kept_opt_box(where_clause, ps, tail_first);
            kept_expr(*map_expr, ps, tail_first);
        },
        ExprKindView::Quantifier { list_expr, predicate, .. } => {
            kept_expr(*list_expr, ps, tail_first);
            kept_expr(*predicate, ps, tail_first);
        },
        ExprKindView::Exists { patterns, where_clause } => {
            kept_patterns(patterns, 0, ps, tail_first);
            kept_opt_box(where_clause, ps, tail_first);
        },
        ExprKindView::ExistsSubquery(a) => {
            nothing_else_is_replaced(*a, ps, tail_first);
        },
        ExprKindView::MapLiteral(a) => {
            kept_pairs(a, 0, ps, tail_first);
        },
        ExprKindView::Index { expr, index } => {
            kept_expr(*expr, ps, tail_first);
            kept_expr(*index, ps, tail_first);
        },
        ExprKindView::DotAccess { expr, .. } => {
            kept_expr(*expr, ps, tail_first);
        },
        ExprKindView::Slice { expr, start, end } => {
            kept_expr(*expr, ps, tail_first);
            kept_opt_box(start, ps, tail_first);
            kept_opt_box(end, ps, tail_first);
        },
        _ => {},
    }
}

/// Nothing changes in a [`PatternView`] without parameters.
proof fn kept_pattern(x: PatternView, ps: Seq<(Seq<char>, ValueView)>, tail_first: bool)
    requires
        reference::names_pattern(x, tail_first).len() == 0,
    ensures
        reference::bound_pattern(x, ps) == x,
    decreases x, 0int,
{
    kept_pattern_elements(x.elements, 0, ps, tail_first);
}

/// Nothing changes in a [`PatternElementView`] without parameters.
proof fn kept_pattern_element(x: PatternElementView, ps: Seq<(Seq<char>, ValueView)>, tail_first: bool)
    requires
        reference::names_pattern_element(x, tail_first).len() == 0,
    ensures
        reference::bound_pattern_element(x, ps) == x,
    decreases x, 0int,
{
    match x {
        PatternElementView::Node(a) => {
            kept_node_pattern(a, ps, tail_first);
        },
        PatternElementView::Relationship(a) => {
            kept_rel_pattern(a, ps, tail_first);
        },
    }
}

/// Nothing changes in a [`NodePatternView`] without parameters.
proof fn kept_node_pattern(x: NodePatternView, ps: Seq<(Seq<char>, ValueView)>, tail_first: bool)
    requires
        reference::names_node_pattern(x, tail_first).len() == 0,
    ensures
        reference::bound_node_pattern(x, ps) == x,
    decreases x, 0int,
{
    kept_pairs(x.properties, 0, ps, tail_first);
}

/// Nothing changes in a [`RelPatternView`] without parameters.
proof fn kept_rel_pattern(x: RelPatternView, ps: Seq<(Seq<char>, ValueView)>, tail_first: bool)
    requires
        reference::names_rel_pattern(x, tail_first).len() == 0,
    ensures
        reference::bound_rel_pattern(x, ps) == x,
    decreases x, 0int,
{
    kept_pairs(x.properties, 0, ps, tail_first);
}

/// Nothing changes in a [`ReturnItemView`] without parameters.
proof fn kept_return_item(x: ReturnItemView, ps: Seq<(Seq<char>, ValueView)>, tail_first: bool)
    requires
        reference::names_return_item(x, tail_first).len() == 0,
    ensures
        reference::bound_return_item(x, ps) == x,
    decreases x, 0int,
{
    kept_expr(x.expr, ps, tail_first);
}

/// Nothing changes in a [`ReturnClauseView`] without parameters.
proof fn kept_return_clause(x: ReturnClauseView, ps: Seq<(Seq<char>, ValueView)>, tail_first: bool)
    requires
        reference::names_return_clause(x, tail_first).len() == 0,
    ensures
        reference::bound_return_clause(x, ps) == x,
    decreases x, 0int,
{
    kept_return_items(x.items, 0, ps, tail_first);
}

/// Nothing changes in a [`SortItemView`] without parameters.
proof fn kept_sort_item(x: SortItemView, ps: Seq<(Seq<char>, ValueView)>, tail_first: bool)
    requires
        reference::names_sort_item(x, tail_first).len() == 0,
    ensures
        reference::bound_sort_item(x, ps) == x,
    decreases x, 0int,
{
    kept_expr(x.expr, ps, tail_first);
}

/// Nothing changes in a [`OptionalMatchView`] without parameters.
proof fn kept_optional_match(x: OptionalMatchView, ps: Seq<(Seq<char>, ValueView)>, tail_first: bool)
    requires
        reference::names_optional_match(x, tail_first).len() == 0,
    ensures
        reference::bound_optional_match(x, ps) == x,
    decreases x, 0int,
{
    kept_patterns(x.patterns, 0, ps, tail_first);
    kept_opt_expr(x.where_clause, ps, tail_first);
}

/// Nothing changes in a [`WithClauseView`] without parameters.
proof fn kept_with_clause(x: WithClauseView, ps: Seq<(Seq<char>, ValueView)>, tail_first: bool)
    requires
        reference::names_with_clause(x, tail_first).len() == 0,
    ensures
        reference::bound_with_clause(x, ps) == x,
    decreases x, 0int,
{
    kept_return_items(x.items, 0, ps, tail_first);
    kept_sort_items(x.order_by, 0, ps, tail_first);
    kept_opt_expr(x.skip, ps, tail_first);
    kept_opt_expr(x.limit, ps, tail_first);
    kept_opt_expr(x.where_clause, ps, tail_first);
}

/// Nothing changes in a [`UnwindClauseView`] without parameters.
proof fn kept_unwind_clause(x: UnwindClauseView, ps: Seq<(Seq<char>, ValueView)>, tail_first: bool)
    requires
        reference::names_unwind_clause(x, tail_first).len() == 0,
    ensures
        reference::bound_unwind_clause(x, ps) == x,
    decreases x, 0int,
{
    kept_expr(x.expr, ps, tail_first);
}

/// Nothing changes in a [`IntermediateMatchView`] without parameters.
proof fn kept_intermediate_match(x: IntermediateMatchView, ps: Seq<(Seq<char>, ValueView)>, tail_first: bool)
    requires
        reference::names_intermediate_match(x, tail_first).len() == 0,
    ensures
        reference::bound_intermediate_match(x, ps) == x,
    decreases x, 0int,
{
    kept_patterns(x.patterns, 0, ps, tail_first);
    kept_optional_matchs(x.optional_patterns, 0, ps, tail_first);
    kept_opt_expr(x.where_clause, ps, tail_first);
}

/// Nothing changes in a [`IntermediateClauseView`] without parameters.
proof fn kept_intermediate_clause(x: IntermediateClauseView, ps: Seq<(Seq<char>, ValueView)>, tail_first: bool)
    requires
        reference::names_intermediate_clause(x, tail_first).len() == 0,
    ensures
        reference::bound_intermediate_clause(x, ps) == x,
    decreases x, 0int,
{
    match x {
        IntermediateClauseView::With(a) => {
            kept_with_clause(a, ps, tail_first);
        },
        IntermediateClauseView::Unwind(a) => {
            kept_unwind_clause(a, ps, tail_first);
        },
        IntermediateClauseView::Match(a) => {
            kept_intermediate_match(a, ps, tail_first);
        },
    }
}

/// Nothing changes in a [`AssignmentView`] without parameters.
proof fn kept_assignment(x: AssignmentView, ps: Seq<(Seq<char>, ValueView)>, tail_first: bool)
    requires
        reference::names_assignment(x, tail_first).len() == 0,
    ensures
        reference::bound_assignment(x, ps) == x,
    decreases x, 0int,
{
    kept_expr(x.value, ps, tail_first);
}

/// Nothing changes in a [`SetItemView`] without parameters.
proof fn kept_set_item(x: SetItemView, ps: Seq<(Seq<char>, ValueView)>, tail_first: bool)
    requires
        reference::names_set_item(x, tail_first).len() == 0,
    ensures
        reference::bound_set_item(x, ps) == x,
    decreases x, 0int,
{
    match x {
        SetItemView::Property(a) => {
            kept_assignment(a, ps, tail_first);
        },
        SetItemView::MapOverwrite { value, .. } => {
            kept_expr(value, ps, tail_first);
        },
        SetItemView::MapMerge { value, .. } => {
            kept_expr(value, ps, tail_first);
        },
        _ => {},
    }
}

/// Nothing changes in a [`MatchStatementView`] without parameters.
proof fn kept_match_statement(x: MatchStatementView, ps: Seq<(Seq<char>, ValueView)>, tail_first: bool)
    requires
        reference::names_match_statement(x, tail_first).len() == 0,
    ensures
        reference::bound_match_statement(x, ps) == x,
    decreases x, 0int,
{
    kept_patterns(x.patterns, 0, ps, tail_first);
    kept_optional_matchs(x.optional_patterns, 0, ps, tail_first);
    kept_opt_expr(x.where_clause, ps, tail_first);
    kept_intermediate_clauses(x.intermediate_clauses, 0, ps, tail_first);
    kept_return_clause(x.return_clause, ps, tail_first);
    kept_sort_items(x.order_by, 0, ps, tail_first);
    kept_opt_expr(x.skip, ps, tail_first);
    kept_opt_expr(x.limit, ps, tail_first);
}

/// Nothing changes in a [`CreateStatementView`] without parameters.
proof fn kept_create_statement(x: CreateStatementView, ps: Seq<(Seq<char>, ValueView)>, tail_first: bool)
    requires
        reference::names_create_statement(x, tail_first).len() == 0,
    ensures
        reference::bound_create_statement(x, ps) == x,
    decreases x, 0int,
{
    kept_patterns(x.patterns, 0, ps, tail_first);
    kept_opt_return_clause(x.return_clause, ps, tail_first);
    kept_sort_items(x.order_by, 0, ps, tail_first);
    kept_opt_expr(x.skip, ps, tail_first);
    kept_opt_expr(x.limit, ps, tail_first);
}

/// Nothing changes in a [`MatchCreateStatementView`] without parameters.
proof fn kept_match_create_statement(x: MatchCreateStatementView, ps: Seq<(Seq<char>, ValueView)>, tail_first: bool)
    requires
        reference::names_match_create_statement(x, tail_first).len() == 0,
    ensures
        reference::bound_match_create_statement(x, ps) == x,
    decreases x, 0int,
{
    kept_patterns(x.patterns, 0, ps, tail_first);
    kept_opt_expr(x.where_clause, ps, tail_first);
    kept_patterns(x.create_patterns, 0, ps, tail_first);
    kept_opt_return_clause(x.return_clause, ps, tail_first);
    kept_sort_items(x.order_by, 0, ps, tail_first);
    kept_opt_expr(x.skip, ps, tail_first);
    kept_opt_expr(x.limit, ps, tail_first);
}

/// Nothing changes in a [`MatchMergeStatementView`] without parameters.
proof fn kept_match_merge_statement(x: MatchMergeStatementView, ps: Seq<(Seq<char>, ValueView)>, tail_first: bool)
    requires
        reference::names_match_merge_statement(x, tail_first).len() == 0,
    ensures
        reference::bound_match_merge_statement(x, ps) == x,
    decreases x, 0int,
{
    kept_patterns(x.patterns, 0, ps, tail_first);
    kept_opt_expr(x.where_clause, ps, tail_first);
    kept_pattern(x.merge_pattern, ps, tail_first);
    kept_set_items(x.on_create, 0, ps, tail_first);
    kept_set_items(x.on_match, 0, ps, tail_first);
    kept_opt_return_clause(x.return_clause, ps, tail_first);
    kept_sort_items(x.order_by, 0, ps, tail_first);
    kept_opt_expr(x.skip, ps, tail_first);
    kept_opt_expr(x.limit, ps, tail_first);
}

/// Nothing changes in a [`DeleteStatementView`] without parameters.
proof fn kept_delete_statement(x: DeleteStatementView, ps: Seq<(Seq<char>, ValueView)>, tail_first: bool)
    requires
        reference::names_delete_statement(x, tail_first).len() == 0,
    ensures
        reference::bound_delete_statement(x, ps) == x,
    decreases x, 0int,
{
    kept_patterns(x.patterns, 0, ps, tail_first);
    kept_optional_matchs(x.optional_patterns, 0, ps, tail_first);
    kept_opt_expr(x.where_clause, ps, tail_first);
    kept_exprs(x.exprs, 0, ps, tail_first);
    kept_opt_return_clause(x.return_clause, ps, tail_first);
    kept_sort_items(x.order_by, 0, ps, tail_first);
    kept_opt_expr(x.skip, ps, tail_first);
    kept_opt_expr(x.limit, ps, tail_first);
}

/// Nothing changes in a [`SetStatementView`] without parameters.
proof fn kept_set_statement(x: SetStatementView, ps: Seq<(Seq<char>, ValueView)>, tail_first: bool)
    requires
        reference::names_set_statement(x, tail_first).len() == 0,
    ensures
        reference::bound_set_statement(x, ps) == x,
    decreases x, 0int,
{
    kept_patterns(x.patterns, 0, ps, tail_first);
    kept_optional_matchs(x.optional_patterns, 0, ps, tail_first);
    kept_opt_expr(x.where_clause, ps, tail_first);
    kept_set_items(x.items, 0, ps, tail_first);
    kept_intermediate_clauses(x.intermediate_clauses, 0, ps, tail_first);
    kept_opt_return_clause(x.return_clause, ps, tail_first);
    kept_sort_items(x.order_by, 0, ps, tail_first);
    kept_opt_expr(x.skip, ps, tail_first);
    kept_opt_expr(x.limit, ps, tail_first);
}

/// Nothing changes in a [`RemoveStatementView`] without parameters.
proof fn kept_remove_statement(x: RemoveStatementView, ps: Seq<(Seq<char>, ValueView)>, tail_first: bool)
    requires
        reference::names_remove_statement(x, tail_first).len() == 0,
    ensures
        reference::bound_remove_statement(x, ps) == x,
    decreases x, 0int,
{
    kept_patterns(x.patterns, 0, ps, tail_first);
    kept_optional_matchs(x.optional_patterns, 0, ps, tail_first);
    kept_opt_expr(x.where_clause, ps, tail_first);
    kept_opt_return_clause(x.return_clause, ps, tail_first);
    kept_sort_items(x.order_by, 0, ps, tail_first);
    kept_opt_expr(x.skip, ps, tail_first);
    kept_opt_expr(x.limit, ps, tail_first);
}

/// Nothing changes in a [`MergeStatementView`] without parameters.
proof fn kept_merge_statement(x: MergeStatementView, ps: Seq<(Seq<char>, ValueView)>, tail_first: bool)
    requires
        reference::names_merge_statement(x, tail_first).len() == 0,
    ensures
        reference::bound_merge_statement(x, ps) == x,
    decreases x, 0int,
{
    kept_pattern(x.pattern, ps, tail_first);
    kept_set_items(x.on_create, 0, ps, tail_first);
    kept_set_items(x.on_match, 0, ps, tail_first);
    kept_opt_return_clause(x.return_clause, ps, tail_first);
    kept_sort_items(x.order_by, 0, ps, tail_first);
    kept_opt_expr(x.skip, ps, tail_first);
    kept_opt_expr(x.limit, ps, tail_first);
}

/// Nothing changes in a [`UnwindBodyView`] without parameters.
proof fn kept_unwind_body(x: UnwindBodyView, ps: Seq<(Seq<char>, ValueView)>, tail_first: bool)
    requires
        reference::names_unwind_body(x, tail_first).len() == 0,
    ensures
        reference::bound_unwind_body(x, ps) == x,
    decreases x, 0int,
{
    match x {
        UnwindBodyView::Return { where_clause, intermediate_clauses, return_clause, order_by, skip, limit } => {
            kept_opt_expr(where_clause, ps, tail_first);
            kept_intermediate_clauses(intermediate_clauses, 0, ps, tail_first);
            kept_return_clause(return_clause, ps, tail_first);
            kept_sort_items(order_by, 0, ps, tail_first);
            kept_opt_expr(skip, ps, tail_first);
            kept_opt_expr(limit, ps, tail_first);
        },
        UnwindBodyView::Create { patterns, intermediate_clauses, return_clause, order_by, skip, limit } => {
            kept_patterns(patterns, 0, ps, tail_first);
            kept_intermediate_clauses(intermediate_clauses, 0, ps, tail_first);
            kept_opt_return_clause(return_clause, ps, tail_first);
            kept_sort_items(order_by, 0, ps, tail_first);
            kept_opt_expr(skip, ps, tail_first);
            kept_opt_expr(limit, ps, tail_first);
        },
    }
}

/// Nothing changes in a [`UnwindStatementView`] without parameters.
proof fn kept_unwind_statement(x: UnwindStatementView, ps: Seq<(Seq<char>, ValueView)>, tail_first: bool)
    requires
        reference::names_unwind_statement(x, tail_first).len() == 0,
    ensures
        reference::bound_unwind_statement(x, ps) == x,
    decreases x, 0int,
{
    kept_expr(x.expr, ps, tail_first);
    kept_unwind_body(x.body, ps, tail_first);
}

/// Nothing changes in a [`ReturnStatementView`] without parameters.
proof fn kept_return_statement(x: ReturnStatementView, ps: Seq<(Seq<char>, ValueView)>, tail_first: bool)
    requires
        reference::names_return_statement(x, tail_first).len() == 0,
    ensures
        reference::bound_return_statement(x, ps) == x,
    decreases x, 0int,
{
    kept_return_clause(x.return_clause, ps, tail_first);
    kept_sort_items(x.order_by, 0, ps, tail_first);
    kept_opt_expr(x.skip, ps, tail_first);
    kept_opt_expr(x.limit, ps, tail_first);
}

/// Nothing changes in a [`ClauseView`] without parameters.
proof fn kept_clause(x: ClauseView, ps: Seq<(Seq<char>, ValueView)>, tail_first: bool)
    requires
        reference::names_clause(x, tail_first).len() == 0,
    ensures
        reference::bound_clause(x, ps) == x,
    decreases x, 0int,
{
    match x {
        ClauseView::Match { patterns, optional_patterns, where_clause } => {
            kept_patterns(patterns, 0, ps, tail_first);
            kept_optional_matchs(optional_patterns, 0, ps, tail_first);
            kept_opt_expr(where_clause, ps, tail_first);
        },
        ClauseView::Create { patterns } => {
            kept_patterns(patterns, 0, ps, tail_first);
        },
        ClauseView::Merge { pattern, on_create, on_match } => {
            kept_pattern(pattern, ps, tail_first);
            kept_set_items(on_create, 0, ps, tail_first);
            kept_set_items(on_match, 0, ps, tail_first);
        },
        ClauseView::With(a) => {
            kept_with_clause(a, ps, tail_first);
        },
        ClauseView::Unwind(a) => {
            kept_unwind_clause(a, ps, tail_first);
        },
        ClauseView::SetItems { items } => {
            kept_set_items(items, 0, ps, tail_first);
        },
        ClauseView::Call { args, .. } => {
            kept_exprs(args, 0, ps, tail_first);
        },
        ClauseView::Delete { exprs, .. } => {
            kept_exprs(exprs, 0, ps, tail_first);
        },
        _ => {},
    }
}

/// Nothing changes in a [`MultiClauseStatementView`] without parameters.
proof fn kept_multi_clause_statement(x: MultiClauseStatementView, ps: Seq<(Seq<char>, ValueView)>, tail_first: bool)
    requires
        reference::names_multi_clause_statement(x, tail_first).len() == 0,
    ensures
        reference::bound_multi_clause_statement(x, ps) == x,
    decreases x, 0int,
{
    kept_clauses(x.clauses, 0, ps, tail_first);
    kept_opt_return_clause(x.return_clause, ps, tail_first);
    kept_sort_items(x.order_by, 0, ps, tail_first);
    kept_opt_expr(x.skip, ps, tail_first);
    kept_opt_expr(x.limit, ps, tail_first);
}

/// A statement that refers to no parameter stays as it is, whatever parameters are given: where
/// parameters are replaced, nothing else is.
pub proof fn nothing_else_is_replaced(x: StatementView, ps: Seq<(Seq<char>, ValueView)>, tail_first: bool)
    requires
        reference::names_statement(x, tail_first).len() == 0,
    ensures
        reference::bound_statement(x, ps) == x,
    decreases x, 0int,
{
    match x {
        StatementView::Match(a) => {
            kept_match_statement(a, ps, tail_first);
        },
        StatementView::Create(a) => {
            kept_create_statement(a, ps, tail_first);
        },
        StatementView::MatchCreate(a) => {
            kept_match_create_statement(a, ps, tail_first);
        },
        StatementView::MatchMerge(a) => {
            kept_match_merge_statement(a, ps, tail_first);
        },
        StatementView::Delete(a) => {
            kept_delete_statement(a, ps, tail_first);
        },
        StatementView::SetProps(a) => {
            kept_set_statement(a, ps, tail_first);
        },
        StatementView::Remove(a) => {
            kept_remove_statement(a, ps, tail_first);
        },
        StatementView::Merge(a) => {
            kept_merge_statement(a, ps, tail_first);
        },
        StatementView::Unwind(a) => {
            kept_unwind_statement(a, ps, tail_first);
        },
        StatementView::Return(a) => {
            kept_return_statement(a, ps, tail_first);
        },
        StatementView::MultiClause(a) => {
            kept_multi_clause_statement(a, ps, tail_first);
        },
        StatementView::Explain(a) => {
            nothing_else_is_replaced(*a, ps, tail_first);
        },
        StatementView::Union { statements, .. } => {
            kept_statements(statements, 0, ps, tail_first);
        },
        StatementView::Call { args, return_clause, order_by, skip, limit, .. } => {
            kept_exprs(args, 0, ps, tail_first);
            kept_opt_return_clause(return_clause, ps, tail_first);
            kept_sort_items(order_by, 0, ps, tail_first);
            kept_opt_box(skip, ps, tail_first);
            kept_opt_box(limit, ps, tail_first);
        },
    }
}

proof fn kept_exprs(s: Seq<ExprView>, i: int, ps: Seq<(Seq<char>, ValueView)>, tail_first: bool)
    requires
        0 <= i <= s.len(),
        reference::names_exprs(s, i, tail_first).len() == 0,
    ensures
        forall|j: int| i <= j < s.len() ==> #[trigger] reference::bound_exprs(s, ps)[j] == s[j],
        i == 0 ==> reference::bound_exprs(s, ps) == s,
    decreases s, s.len() - i,
{
    if i < s.len() {
        kept_expr(s[i], ps, tail_first);
        kept_exprs(s, i + 1, ps, tail_first);
    }
    if i == 0 {
        assert(reference::bound_exprs(s, ps) =~= s);
    }
}

proof fn kept_alternatives(s: Seq<(ExprView, ExprView)>, i: int, ps: Seq<(Seq<char>, ValueView)>, tail_first: bool)
    requires
        0 <= i <= s.len(),
        reference::names_alternatives(s, i, tail_first).len() == 0,
    ensures
        forall|j: int| i <= j < s.len() ==> #[trigger] reference::bound_alternatives(s, ps)[j] == s[j],
        i == 0 ==> reference::bound_alternatives(s, ps) == s,
    decreases s, s.len() - i,
{
    if i < s.len() {
        kept_expr(s[i].0, ps, tail_first);
        kept_expr(s[i].1, ps, tail_first);
        kept_alternatives(s, i + 1, ps, tail_first);
    }
    if i == 0 {
        assert(reference::bound_alternatives(s, ps) =~= s);
    }
}

proof fn kept_patterns(s: Seq<PatternView>, i: int, ps: Seq<(Seq<char>, ValueView)>, tail_first: bool)
    requires
        0 <= i <= s.len(),
        reference::names_patterns(s, i, tail_first).len() == 0,
    ensures
        forall|j: int| i <= j < s.len() ==> #[trigger] reference::bound_patterns(s, ps)[j] == s[j],
        i == 0 ==> reference::bound_patterns(s, ps) == s,
    decreases s, s.len() - i,
{
    if i < s.len() {
        kept_pattern(s[i], ps, tail_first);
        kept_patterns(s, i + 1, ps, tail_first);
    }
    if i == 0 {
        assert(reference::bound_patterns(s, ps) =~= s);
    }
}

proof fn kept_pairs(s: Seq<(Seq<char>, ExprView)>, i: int, ps: Seq<(Seq<char>, ValueView)>, tail_first: bool)
    requires
        0 <= i <= s.len(),
        reference::names_pairs(s, i, tail_first).len() == 0,
    ensures
        forall|j: int| i <= j < s.len() ==> #[trigger] reference::bound_pairs(s, ps)[j] == s[j],
        i == 0 ==> reference::bound_pairs(s, ps) == s,
    decreases s, s.len() - i,
{
    if i < s.len() {
        kept_expr(s[i].1, ps, tail_first);
        kept_pairs(s, i + 1, ps, tail_first);
    }
    if i == 0 {
        assert(reference::bound_pairs(s, ps) =~= s);
    }
}

proof fn kept_pattern_elements(s: Seq<PatternElementView>, i: int, ps: Seq<(Seq<char>, ValueView)>, tail_first: bool)
    requires
        0 <= i <= s.len(),
        reference::names_pattern_elements(s, i, tail_first).len() == 0,
    ensures
        forall|j: int| i <= j < s.len() ==> #[trigger] reference::bound_pattern_elements(s, ps)[j] == s[j],
        i == 0 ==> reference::bound_pattern_elements(s, ps) == s,
    decreases s, s.len() - i,
{
    if i < s.len() {
        kept_pattern_element(s[i], ps, tail_first);
        kept_pattern_elements(s, i + 1, ps, tail_first);
    }
    if i == 0 {
        assert(reference::bound_pattern_elements(s, ps) =~= s);
    }
}

proof fn kept_return_items(s: Seq<ReturnItemView>, i: int, ps: Seq<(Seq<char>, ValueView)>, tail_first: bool)
    requires
        0 <= i <= s.len(),
        reference::names_return_items(s, i, tail_first).len() == 0,
    ensures
        forall|j: int| i <= j < s.len() ==> #[trigger] reference::bound_return_items(s, ps)[j] == s[j],
        i == 0 ==> reference::bound_return_items(s, ps) == s,
    decreases s, s.len() - i,
{
    if i < s.len() {
        kept_return_item(s[i], ps, tail_first);
        kept_return_items(s, i + 1, ps, tail_first);
    }
    if i == 0 {
        assert(reference::bound_return_items(s, ps) =~= s);
    }
}

proof fn kept_sort_items(s: Seq<SortItemView>, i: int, ps: Seq<(Seq<char>, ValueView)>, tail_first: bool)
    requires
        0 <= i <= s.len(),
        reference::names_sort_items(s, i, tail_first).len() == 0,
    ensures
        forall|j: int| i <= j < s.len() ==> #[trigger] reference::bound_sort_items(s, ps)[j] == s[j],
        i == 0 ==> reference::bound_sort_items(s, ps) == s,
    decreases s, s.len() - i,
{
    if i < s.len() {
        kept_sort_item(s[i], ps, tail_first);
        kept_sort_items(s, i + 1, ps, tail_first);
    }
    if i == 0 {
        assert(reference::bound_sort_items(s, ps) =~= s);
    }
}

proof fn kept_optional_matchs(s: Seq<OptionalMatchView>, i: int, ps: Seq<(Seq<char>, ValueView)>, tail_first: bool)
    requires
        0 <= i <= s.len(),
        reference::names_optional_matchs(s, i, tail_first).len() == 0,
    ensures
        forall|j: int| i <= j < s.len() ==> #[trigger] reference::bound_optional_matchs(s, ps)[j] == s[j],
        i == 0 ==> reference::bound_optional_matchs(s, ps) == s,
    decreases s, s.len() - i,
{
    if i < s.len() {
        kept_optional_match(s[i], ps, tail_first);
        kept_optional_matchs(s, i + 1, ps, tail_first);
    }
    if i == 0 {
        assert(reference::bound_optional_matchs(s, ps) =~= s);
    }
}

proof fn kept_intermediate_clauses(s: Seq<IntermediateClauseView>, i: int, ps: Seq<(Seq<char>, ValueView)>, tail_first: bool)
    requires
        0 <= i <= s.len(),
        reference::names_intermediate_clauses(s, i, tail_first).len() == 0,
    ensures
        forall|j: int| i <= j < s.len() ==> #[trigger] reference::bound_intermediate_clauses(s, ps)[j] == s[j],
        i == 0 ==> reference::bound_intermediate_clauses(s, ps) == s,
    decreases s, s.len() - i,
{
    if i < s.len() {
        kept_intermediate_clause(s[i], ps, tail_first);
        kept_intermediate_clauses(s, i + 1, ps, tail_first);
    }
    if i == 0 {
        assert(reference::bound_intermediate_clauses(s, ps) =~= s);
    }
}

proof fn kept_set_items(s: Seq<SetItemView>, i: int, ps: Seq<(Seq<char>, ValueView)>, tail_first: bool)
    requires
        0 <= i <= s.len(),
        reference::names_set_items(s, i, tail_first).len() == 0,
    ensures
        forall|j: int| i <= j < s.len() ==> #[trigger] reference::bound_set_items(s, ps)[j] == s[j],
        i == 0 ==> reference::bound_set_items(s, ps) == s,
    decreases s, s.len() - i,
{
    if i < s.len() {
        kept_set_item(s[i], ps, tail_first);
        kept_set_items(s, i + 1, ps, tail_first);
    }
    if i == 0 {
        assert(reference::bound_set_items(s, ps) =~= s);
    }
}

proof fn kept_clauses(s: Seq<ClauseView>, i: int, ps: Seq<(Seq<char>, ValueView)>, tail_first: bool)
    requires
        0 <= i <= s.len(),
        reference::names_clauses(s, i, tail_first).len() == 0,
    ensures
        forall|j: int| i <= j < s.len() ==> #[trigger] reference::bound_clauses(s, ps)[j] == s[j],
        i == 0 ==> reference::bound_clauses(s, ps) == s,
    decreases s, s.len() - i,
{
    if i < s.len() {
        kept_clause(s[i], ps, tail_first);
        kept_clauses(s, i + 1, ps, tail_first);
    }
    if i == 0 {
        assert(reference::bound_clauses(s, ps) =~= s);
    }
}

proof fn kept_statements(s: Seq<StatementView>, i: int, ps: Seq<(Seq<char>, ValueView)>, tail_first: bool)
    requires
        0 <= i <= s.len(),
        reference::names_statements(s, i, tail_first).len() == 0,
    ensures
        forall|j: int| i <= j < s.len() ==> #[trigger] reference::bound_statements(s, ps)[j] == s[j],
        i == 0 ==> reference::bound_statements(s, ps) == s,
    decreases s, s.len() - i,
{
    if i < s.len() {
        nothing_else_is_replaced(s[i], ps, tail_first);
        kept_statements(s, i + 1, ps, tail_first);
    }
    if i == 0 {
        assert(reference::bound_statements(s, ps) =~= s);
    }
}

proof fn kept_opt_box(o: Option<Box<ExprView>>, ps: Seq<(Seq<char>, ValueView)>, tail_first: bool)
    requires
        reference::names_opt_box(o, tail_first).len() == 0,
    ensures
        reference::bound_opt_box(o, ps) == o,
    decreases o, 0int,
{
    if let Some(y) = o {
        kept_expr(*y, ps, tail_first);
    }
}

proof fn kept_opt_expr(o: Option<ExprView>, ps: Seq<(Seq<char>, ValueView)>, tail_first: bool)
    requires
        reference::names_opt_expr(o, tail_first).len() == 0,
    ensures
        reference::bound_opt_expr(o, ps) == o,
    decreases o, 0int,
{
    if let Some(y) = o {
        kept_expr(y, ps, tail_first);
    }
}

proof fn kept_opt_return_clause(o: Option<ReturnClauseView>, ps: Seq<(Seq<char>, ValueView)>, tail_first: bool)
    requires
        reference::names_opt_return_clause(o, tail_first).len() == 0,
    ensures
        reference::bound_opt_return_clause(o, ps) == o,
    decreases o, 0int,
{
    if let Some(y) = o {
        kept_return_clause(y, ps, tail_first);
    }
}

/// A parameter is replaced by the literal of the value that it is bound to.
pub proof fn a_parameter_becomes_its_value(
    x: ExprView,
    ps: Seq<(Seq<char>, ValueView)>,
    v: ValueView,
)
    requires
        x.kind is Parameter,
        assoc::lookup(ps, x.kind->Parameter_0) == Some(v),
    ensures
        reference::bound_expr(x, ps).kind == reference::value_expr(v, x.span).kind,
{
}

/// The expression is the literal of the value, item by item.
pub open spec fn spells(e: ExprView, v: ValueView) -> bool
    decreases v,
{
    match v {
        ValueView::Null => e.kind == ExprKindView::Literal(LiteralValueView::Null),
        ValueView::Bool(b) => e.kind == ExprKindView::Literal(LiteralValueView::Bool(b)),
        ValueView::I64(n) => e.kind == ExprKindView::Literal(LiteralValueView::I64(n)),
        ValueView::F64(x) => e.kind == ExprKindView::Literal(
            LiteralValueView::F64(FloatLiteralView::Bits(x.bits)),
        ),
        ValueView::String(t) => e.kind == ExprKindView::Literal(LiteralValueView::String(t)),
        ValueView::List(vs) => e.kind is List && e.kind->List_0.len() == vs.len() && forall|i: int|
            0 <= i < vs.len() ==> spells(e.kind->List_0[i], #[trigger] vs[i]),
        ValueView::MapValue(kvs) => e.kind is MapLiteral && e.kind->MapLiteral_0.len() == kvs.len()
            && forall|i: int|
            0 <= i < kvs.len() ==> e.kind->MapLiteral_0[i].0 == (#[trigger] kvs[i]).0 && spells(
                e.kind->MapLiteral_0[i].1,
                kvs[i].1,
            ),
        _ => false,
    }
}

/// The literal that stands for a value spells the value.
pub proof fn literals_spell_their_values(v: ValueView, span: Span)
    requires
        reference::supported(v),
    ensures
        spells(reference::value_expr(v, span), v),
    decreases v,
{
    let e = reference::value_expr(v, span);
    match v {
        ValueView::List(vs) => {
            assert forall|i: int| 0 <= i < vs.len() implies spells(
                e.kind->List_0[i],
                #[trigger] vs[i],
            ) by {
                assert(reference::supported(vs[i]));
                literals_spell_their_values(vs[i], span);
            }
        },
        ValueView::MapValue(kvs) => {
            assert forall|i: int| 0 <= i < kvs.len() implies e.kind->MapLiteral_0[i].0 == (
            #[trigger] kvs[i]).0 && spells(e.kind->MapLiteral_0[i].1, kvs[i].1) by {
                assert(reference::supported(kvs[i].1));
                literals_spell_their_values(kvs[i].1, span);
            }
        },
        _ => {},
    }
}

} // verus!
