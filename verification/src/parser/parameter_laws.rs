//! What holds of parameters, whatever the statement.
use super::reference;
use crate::assoc;
use crate::ast_model::{
    AssignmentView, ClauseView, CreateStatementView, DeleteStatementView, ExprKindView,
    ExprView, IntermediateClauseView, IntermediateMatchView, MatchCreateStatementView,
    MatchMergeStatementView, MatchStatementView, MergeStatementView, MultiClauseStatementView,
    NodePatternView, OptionalMatchView, PatternElementView, PatternView, RelPatternView,
    RemoveStatementView, ReturnClauseView, ReturnItemView, ReturnStatementView, SetItemView,
    SetStatementView, SortItemView, StatementView, UnwindBodyView, UnwindClauseView,
    UnwindStatementView, WithClauseView,
};
use crate::types::Span;
use crate::value::ValueView;
use vstd::prelude::*;

verus! {

/// Two lists of names together hold what either does.
broadcast proof fn lemma_concat_contains(a: Seq<Seq<char>>, b: Seq<Seq<char>>, n: Seq<char>)
    ensures
        #[trigger] (a + b).contains(n) == (a.contains(n) || b.contains(n)),
{
    if a.contains(n) {
        let i = choose|i: int| 0 <= i < a.len() && a[i] == n;
        assert((a + b)[i] == n);
    }
    if b.contains(n) {
        let i = choose|i: int| 0 <= i < b.len() && b[i] == n;
        assert((a + b)[a.len() + i] == n);
    }
    if (a + b).contains(n) {
        let i = choose|i: int| 0 <= i < (a + b).len() && (a + b)[i] == n;
        if i < a.len() {
            assert(a[i] == n);
        } else {
            assert(b[i - a.len()] == n);
        }
    }
}

/// References are in order exactly when each of them is.
pub proof fn faultless_means_every_reference_is(
    names: Seq<Seq<char>>,
    ps: Seq<(Seq<char>, ValueView)>,
    values: bool,
)
    ensures
        reference::first_fault(names, ps, values) is None <==> forall|n: Seq<char>|
            names.contains(n) ==> reference::fault(n, ps, values) is None,
    decreases names.len(),
{
    if names.len() > 0 {
        let rest = names.drop_first();
        faultless_means_every_reference_is(rest, ps, values);
        assert(names.contains(names[0]));
        assert forall|n: Seq<char>| rest.contains(n) implies names.contains(n) by {
            let i = choose|i: int| 0 <= i < rest.len() && rest[i] == n;
            assert(names[i + 1] == n);
        }
        assert forall|n: Seq<char>| names.contains(n) implies n == names[0] || rest.contains(n) by {
            let i = choose|i: int| 0 <= i < names.len() && names[i] == n;
            if i > 0 {
                assert(rest[i - 1] == n);
            }
        }
    }
}

/// A statement passes the check exactly when every parameter that it refers to is bound.
pub proof fn valid_means_every_parameter_is_bound(
    x: StatementView,
    ps: Seq<(Seq<char>, ValueView)>,
)
    ensures
        reference::checked(reference::names_statement(x, false), ps) is Ok <==> forall|
            n: Seq<char>,
        |
            reference::names_statement(x, false).contains(n) ==> assoc::lookup(ps, n) is Some,
{
    let names = reference::names_statement(x, false);
    faultless_means_every_reference_is(names, ps, false);
    assert forall|n: Seq<char>|
        reference::fault(n, ps, false) is None == (assoc::lookup(ps, n) is Some) by {}
}

/// Parameters that can be replaced pass the check.
pub proof fn resolvable_means_valid(x: StatementView, ps: Seq<(Seq<char>, ValueView)>)
    requires
        reference::settled(
            reference::names_statement(x, true),
            reference::bound_statement(x, ps),
            ps,
        ) is Ok,
    ensures
        reference::checked(reference::names_statement(x, false), ps) is Ok,
{
    faultless_means_every_reference_is(reference::names_statement(x, true), ps, true);
    faultless_means_every_reference_is(reference::names_statement(x, false), ps, false);
    assert forall|n: Seq<char>|
        reference::names_statement(x, false).contains(n) implies reference::fault(
        n,
        ps,
        false,
    ) is None by {
        order_statement(x, n);
        assert(reference::fault(n, ps, true) is None);
    }
}

/// A literal that stands for a value refers to no parameter.
proof fn lemma_values_name_nothing(v: ValueView, span: Span, tail_first: bool)
    ensures
        reference::names_expr(reference::value_expr(v, span), tail_first).len() == 0,
    decreases v, 0int,
{
    let e = reference::value_expr(v, span);
    assert(reference::names_expr(e, tail_first) == reference::names_expr_kind(
        e.kind,
        tail_first,
    ));
    match v {
        ValueView::List(vs) => {
            lemma_lists_name_nothing(vs, 0, span, tail_first);
        },
        ValueView::MapValue(kvs) => {
            lemma_entries_name_nothing(kvs, 0, span, tail_first);
        },
        _ => {},
    }
}

/// Literals that stand for values refer to no parameter.
proof fn lemma_lists_name_nothing(vs: Seq<ValueView>, i: int, span: Span, tail_first: bool)
    requires
        0 <= i <= vs.len(),
    ensures
        reference::names_exprs(reference::value_exprs(vs, span), i, tail_first).len() == 0,
    decreases vs, vs.len() - i,
{
    if i < vs.len() {
        lemma_values_name_nothing(vs[i], span, tail_first);
        lemma_lists_name_nothing(vs, i + 1, span, tail_first);
    }
}

/// Entries that stand for entries refer to no parameter.
proof fn lemma_entries_name_nothing(
    kvs: Seq<(Seq<char>, ValueView)>,
    i: int,
    span: Span,
    tail_first: bool,
)
    requires
        0 <= i <= kvs.len(),
    ensures
        reference::names_pairs(reference::value_pairs(kvs, span), i, tail_first).len() == 0,
    decreases kvs, kvs.len() - i,
{
    if i < kvs.len() {
        lemma_values_name_nothing(kvs[i].1, span, tail_first);
        lemma_entries_name_nothing(kvs, i + 1, span, tail_first);
    }
}

/// No parameter is left in a [`ExprView`].
proof fn left_expr(x: ExprView, ps: Seq<(Seq<char>, ValueView)>, tail_first: bool)
    requires
        reference::first_fault(reference::names_expr(x, tail_first), ps, true) is None,
    ensures
        reference::names_expr(reference::bound_expr(x, ps), tail_first).len() == 0,
    decreases x, 0int,
{
    broadcast use reference::group_first_fault;

    match x.kind {
        ExprKindView::Parameter(name) => {
            assert(reference::names_expr_kind(x.kind, tail_first) == seq![name]);
            assert(reference::fault(name, ps, true) is None) by {
                reveal_with_fuel(reference::first_fault, 2);
            }
            if let Some(v) = assoc::lookup(ps, name) {
                lemma_values_name_nothing(v, x.span, tail_first);
            }
        },
        _ => {
            left_expr_kind(x.kind, ps, tail_first);
        },
    }
}

/// No parameter is left in a [`ExprKindView`].
proof fn left_expr_kind(x: ExprKindView, ps: Seq<(Seq<char>, ValueView)>, tail_first: bool)
    requires
        !(x is Parameter),
        reference::first_fault(reference::names_expr_kind(x, tail_first), ps, true) is None,
    ensures
        reference::names_expr_kind(reference::bound_expr_kind(x, ps), tail_first).len() == 0,
    decreases x, 0int,
{
    broadcast use reference::group_first_fault;

    match x {
        ExprKindView::PatternPredicate(a) => {
            left_pattern(a, ps, tail_first);
        },
        ExprKindView::BinaryOp { left, right, .. } => {
            left_expr(*left, ps, tail_first);
            left_expr(*right, ps, tail_first);
        },
        ExprKindView::Not(a) => {
            left_expr(*a, ps, tail_first);
        },
        ExprKindView::IsNull(a) => {
            left_expr(*a, ps, tail_first);
        },
        ExprKindView::IsNotNull(a) => {
            left_expr(*a, ps, tail_first);
        },
        ExprKindView::FunctionCall { args, .. } => {
            left_exprs(args, 0, ps, tail_first);
        },
        ExprKindView::Case { operand, alternatives, default } => {
            left_opt_box(operand, ps, tail_first);
            left_alternatives(alternatives, 0, ps, tail_first);
            left_opt_box(default, ps, tail_first);
        },
        ExprKindView::List(a) => {
            left_exprs(a, 0, ps, tail_first);
        },
        ExprKindView::ListComprehension { list_expr, filter, map_expr, .. } => {
            left_expr(*list_expr, ps, tail_first);
            left_opt_box(filter, ps, tail_first);
            left_opt_box(map_expr, ps, tail_first);
        },
        ExprKindView::PatternComprehension { pattern, where_clause, map_expr, .. } => {
            left_pattern(pattern, ps, tail_first);
            left_opt_box(where_clause, ps, tail_first);
            left_expr(*map_expr, ps, tail_first);
        },
        ExprKindView::Quantifier { list_expr, predicate, .. } => {
            left_expr(*list_expr, ps, tail_first);
            left_expr(*predicate, ps, tail_first);
        },
        ExprKindView::Exists { patterns, where_clause } => {
            left_patterns(patterns, 0, ps, tail_first);
            left_opt_box(where_clause, ps, tail_first);
        },
        ExprKindView::ExistsSubquery(a) => {
            no_parameter_is_left(*a, ps, tail_first);
        },
        ExprKindView::MapLiteral(a) => {
            left_pairs(a, 0, ps, tail_first);
        },
        ExprKindView::Index { expr, index } => {
            left_expr(*expr, ps, tail_first);
            left_expr(*index, ps, tail_first);
        },
        ExprKindView::DotAccess { expr, .. } => {
            left_expr(*expr, ps, tail_first);
        },
        ExprKindView::Slice { expr, start, end } => {
            left_expr(*expr, ps, tail_first);
            left_opt_box(start, ps, tail_first);
            left_opt_box(end, ps, tail_first);
        },
        _ => {},
    }
}

/// No parameter is left in a [`PatternView`].
proof fn left_pattern(x: PatternView, ps: Seq<(Seq<char>, ValueView)>, tail_first: bool)
    requires
        reference::first_fault(reference::names_pattern(x, tail_first), ps, true) is None,
    ensures
        reference::names_pattern(reference::bound_pattern(x, ps), tail_first).len() == 0,
    decreases x, 0int,
{
    broadcast use reference::group_first_fault;

    left_pattern_elements(x.elements, 0, ps, tail_first);
}

/// No parameter is left in a [`PatternElementView`].
proof fn left_pattern_element(x: PatternElementView, ps: Seq<(Seq<char>, ValueView)>, tail_first: bool)
    requires
        reference::first_fault(reference::names_pattern_element(x, tail_first), ps, true) is None,
    ensures
        reference::names_pattern_element(reference::bound_pattern_element(x, ps), tail_first).len() == 0,
    decreases x, 0int,
{
    broadcast use reference::group_first_fault;

    match x {
        PatternElementView::Node(a) => {
            left_node_pattern(a, ps, tail_first);
        },
        PatternElementView::Relationship(a) => {
            left_rel_pattern(a, ps, tail_first);
        },
    }
}

/// No parameter is left in a [`NodePatternView`].
proof fn left_node_pattern(x: NodePatternView, ps: Seq<(Seq<char>, ValueView)>, tail_first: bool)
    requires
        reference::first_fault(reference::names_node_pattern(x, tail_first), ps, true) is None,
    ensures
        reference::names_node_pattern(reference::bound_node_pattern(x, ps), tail_first).len() == 0,
    decreases x, 0int,
{
    broadcast use reference::group_first_fault;

    left_pairs(x.properties, 0, ps, tail_first);
}

/// No parameter is left in a [`RelPatternView`].
proof fn left_rel_pattern(x: RelPatternView, ps: Seq<(Seq<char>, ValueView)>, tail_first: bool)
    requires
        reference::first_fault(reference::names_rel_pattern(x, tail_first), ps, true) is None,
    ensures
        reference::names_rel_pattern(reference::bound_rel_pattern(x, ps), tail_first).len() == 0,
    decreases x, 0int,
{
    broadcast use reference::group_first_fault;

    left_pairs(x.properties, 0, ps, tail_first);
}

/// No parameter is left in a [`ReturnItemView`].
proof fn left_return_item(x: ReturnItemView, ps: Seq<(Seq<char>, ValueView)>, tail_first: bool)
    requires
        reference::first_fault(reference::names_return_item(x, tail_first), ps, true) is None,
    ensures
        reference::names_return_item(reference::bound_return_item(x, ps), tail_first).len() == 0,
    decreases x, 0int,
{
    broadcast use reference::group_first_fault;

    left_expr(x.expr, ps, tail_first);
}

/// No parameter is left in a [`ReturnClauseView`].
proof fn left_return_clause(x: ReturnClauseView, ps: Seq<(Seq<char>, ValueView)>, tail_first: bool)
    requires
        reference::first_fault(reference::names_return_clause(x, tail_first), ps, true) is None,
    ensures
        reference::names_return_clause(reference::bound_return_clause(x, ps), tail_first).len() == 0,
    decreases x, 0int,
{
    broadcast use reference::group_first_fault;

    left_return_items(x.items, 0, ps, tail_first);
}

/// No parameter is left in a [`SortItemView`].
proof fn left_sort_item(x: SortItemView, ps: Seq<(Seq<char>, ValueView)>, tail_first: bool)
    requires
        reference::first_fault(reference::names_sort_item(x, tail_first), ps, true) is None,
    ensures
        reference::names_sort_item(reference::bound_sort_item(x, ps), tail_first).len() == 0,
    decreases x, 0int,
{
    broadcast use reference::group_first_fault;

    left_expr(x.expr, ps, tail_first);
}

/// No parameter is left in a [`OptionalMatchView`].
proof fn left_optional_match(x: OptionalMatchView, ps: Seq<(Seq<char>, ValueView)>, tail_first: bool)
    requires
        reference::first_fault(reference::names_optional_match(x, tail_first), ps, true) is None,
    ensures
        reference::names_optional_match(reference::bound_optional_match(x, ps), tail_first).len() == 0,
    decreases x, 0int,
{
    broadcast use reference::group_first_fault;

    left_patterns(x.patterns, 0, ps, tail_first);
    left_opt_expr(x.where_clause, ps, tail_first);
}

/// No parameter is left in a [`WithClauseView`].
proof fn left_with_clause(x: WithClauseView, ps: Seq<(Seq<char>, ValueView)>, tail_first: bool)
    requires
        reference::first_fault(reference::names_with_clause(x, tail_first), ps, true) is None,
    ensures
        reference::names_with_clause(reference::bound_with_clause(x, ps), tail_first).len() == 0,
    decreases x, 0int,
{
    broadcast use reference::group_first_fault;

    left_return_items(x.items, 0, ps, tail_first);
    left_sort_items(x.order_by, 0, ps, tail_first);
    left_opt_expr(x.skip, ps, tail_first);
    left_opt_expr(x.limit, ps, tail_first);
    left_opt_expr(x.where_clause, ps, tail_first);
}

/// No parameter is left in a [`UnwindClauseView`].
proof fn left_unwind_clause(x: UnwindClauseView, ps: Seq<(Seq<char>, ValueView)>, tail_first: bool)
    requires
        reference::first_fault(reference::names_unwind_clause(x, tail_first), ps, true) is None,
    ensures
        reference::names_unwind_clause(reference::bound_unwind_clause(x, ps), tail_first).len() == 0,
    decreases x, 0int,
{
    broadcast use reference::group_first_fault;

    left_expr(x.expr, ps, tail_first);
}

/// No parameter is left in a [`IntermediateMatchView`].
proof fn left_intermediate_match(x: IntermediateMatchView, ps: Seq<(Seq<char>, ValueView)>, tail_first: bool)
    requires
        reference::first_fault(reference::names_intermediate_match(x, tail_first), ps, true) is None,
    ensures
        reference::names_intermediate_match(reference::bound_intermediate_match(x, ps), tail_first).len() == 0,
    decreases x, 0int,
{
    broadcast use reference::group_first_fault;

    left_patterns(x.patterns, 0, ps, tail_first);
    left_optional_matchs(x.optional_patterns, 0, ps, tail_first);
    left_opt_expr(x.where_clause, ps, tail_first);
}

/// No parameter is left in a [`IntermediateClauseView`].
proof fn left_intermediate_clause(x: IntermediateClauseView, ps: Seq<(Seq<char>, ValueView)>, tail_first: bool)
    requires
        reference::first_fault(reference::names_intermediate_clause(x, tail_first), ps, true) is None,
    ensures
        reference::names_intermediate_clause(reference::bound_intermediate_clause(x, ps), tail_first).len() == 0,
    decreases x, 0int,
{
    broadcast use reference::group_first_fault;

    match x {
        IntermediateClauseView::With(a) => {
            left_with_clause(a, ps, tail_first);
        },
        IntermediateClauseView::Unwind(a) => {
            left_unwind_clause(a, ps, tail_first);
        },
        IntermediateClauseView::Match(a) => {
            left_intermediate_match(a, ps, tail_first);
        },
    }
}

/// No parameter is left in a [`AssignmentView`].
proof fn left_assignment(x: AssignmentView, ps: Seq<(Seq<char>, ValueView)>, tail_first: bool)
    requires
        reference::first_fault(reference::names_assignment(x, tail_first), ps, true) is None,
    ensures
        reference::names_assignment(reference::bound_assignment(x, ps), tail_first).len() == 0,
    decreases x, 0int,
{
    broadcast use reference::group_first_fault;

    left_expr(x.value, ps, tail_first);
}

/// No parameter is left in a [`SetItemView`].
proof fn left_set_item(x: SetItemView, ps: Seq<(Seq<char>, ValueView)>, tail_first: bool)
    requires
        reference::first_fault(reference::names_set_item(x, tail_first), ps, true) is None,
    ensures
        reference::names_set_item(reference::bound_set_item(x, ps), tail_first).len() == 0,
    decreases x, 0int,
{
    broadcast use reference::group_first_fault;

    match x {
        SetItemView::Property(a) => {
            left_assignment(a, ps, tail_first);
        },
        SetItemView::MapOverwrite { value, .. } => {
            left_expr(value, ps, tail_first);
        },
        SetItemView::MapMerge { value, .. } => {
            left_expr(value, ps, tail_first);
        },
        _ => {},
    }
}

/// No parameter is left in a [`MatchStatementView`].
proof fn left_match_statement(x: MatchStatementView, ps: Seq<(Seq<char>, ValueView)>, tail_first: bool)
    requires
        reference::first_fault(reference::names_match_statement(x, tail_first), ps, true) is None,
    ensures
        reference::names_match_statement(reference::bound_match_statement(x, ps), tail_first).len() == 0,
    decreases x, 0int,
{
    broadcast use reference::group_first_fault;

    left_patterns(x.patterns, 0, ps, tail_first);
    left_optional_matchs(x.optional_patterns, 0, ps, tail_first);
    left_opt_expr(x.where_clause, ps, tail_first);
    left_intermediate_clauses(x.intermediate_clauses, 0, ps, tail_first);
    left_return_clause(x.return_clause, ps, tail_first);
    left_sort_items(x.order_by, 0, ps, tail_first);
    left_opt_expr(x.skip, ps, tail_first);
    left_opt_expr(x.limit, ps, tail_first);
}

/// No parameter is left in a [`CreateStatementView`].
proof fn left_create_statement(x: CreateStatementView, ps: Seq<(Seq<char>, ValueView)>, tail_first: bool)
    requires
        reference::first_fault(reference::names_create_statement(x, tail_first), ps, true) is None,
    ensures
        reference::names_create_statement(reference::bound_create_statement(x, ps), tail_first).len() == 0,
    decreases x, 0int,
{
    broadcast use reference::group_first_fault;

    left_patterns(x.patterns, 0, ps, tail_first);
    left_opt_return_clause(x.return_clause, ps, tail_first);
    left_sort_items(x.order_by, 0, ps, tail_first);
    left_opt_expr(x.skip, ps, tail_first);
    left_opt_expr(x.limit, ps, tail_first);
}

/// No parameter is left in a [`MatchCreateStatementView`].
proof fn left_match_create_statement(x: MatchCreateStatementView, ps: Seq<(Seq<char>, ValueView)>, tail_first: bool)
    requires
        reference::first_fault(reference::names_match_create_statement(x, tail_first), ps, true) is None,
    ensures
        reference::names_match_create_statement(reference::bound_match_create_statement(x, ps), tail_first).len() == 0,
    decreases x, 0int,
{
    broadcast use reference::group_first_fault;

    left_patterns(x.patterns, 0, ps, tail_first);
    left_opt_expr(x.where_clause, ps, tail_first);
    left_patterns(x.create_patterns, 0, ps, tail_first);
    left_opt_return_clause(x.return_clause, ps, tail_first);
    left_sort_items(x.order_by, 0, ps, tail_first);
    left_opt_expr(x.skip, ps, tail_first);
    left_opt_expr(x.limit, ps, tail_first);
}

/// No parameter is left in a [`MatchMergeStatementView`].
proof fn left_match_merge_statement(x: MatchMergeStatementView, ps: Seq<(Seq<char>, ValueView)>, tail_first: bool)
    requires
        reference::first_fault(reference::names_match_merge_statement(x, tail_first), ps, true) is None,
    ensures
        reference::names_match_merge_statement(reference::bound_match_merge_statement(x, ps), tail_first).len() == 0,
    decreases x, 0int,
{
    broadcast use reference::group_first_fault;

    left_patterns(x.patterns, 0, ps, tail_first);
    left_opt_expr(x.where_clause, ps, tail_first);
    left_pattern(x.merge_pattern, ps, tail_first);
    left_set_items(x.on_create, 0, ps, tail_first);
    left_set_items(x.on_match, 0, ps, tail_first);
    left_opt_return_clause(x.return_clause, ps, tail_first);
    left_sort_items(x.order_by, 0, ps, tail_first);
    left_opt_expr(x.skip, ps, tail_first);
    left_opt_expr(x.limit, ps, tail_first);
}

/// No parameter is left in a [`DeleteStatementView`].
proof fn left_delete_statement(x: DeleteStatementView, ps: Seq<(Seq<char>, ValueView)>, tail_first: bool)
    requires
        reference::first_fault(reference::names_delete_statement(x, tail_first), ps, true) is None,
    ensures
        reference::names_delete_statement(reference::bound_delete_statement(x, ps), tail_first).len() == 0,
    decreases x, 0int,
{
    broadcast use reference::group_first_fault;

    left_patterns(x.patterns, 0, ps, tail_first);
    left_optional_matchs(x.optional_patterns, 0, ps, tail_first);
    left_opt_expr(x.where_clause, ps, tail_first);
    left_exprs(x.exprs, 0, ps, tail_first);
    left_opt_return_clause(x.return_clause, ps, tail_first);
    left_sort_items(x.order_by, 0, ps, tail_first);
    left_opt_expr(x.skip, ps, tail_first);
    left_opt_expr(x.limit, ps, tail_first);
}

/// No parameter is left in a [`SetStatementView`].
proof fn left_set_statement(x: SetStatementView, ps: Seq<(Seq<char>, ValueView)>, tail_first: bool)
    requires
        reference::first_fault(reference::names_set_statement(x, tail_first), ps, true) is None,
    ensures
        reference::names_set_statement(reference::bound_set_statement(x, ps), tail_first).len() == 0,
    decreases x, 0int,
{
    broadcast use reference::group_first_fault;

    left_patterns(x.patterns, 0, ps, tail_first);
    left_optional_matchs(x.optional_patterns, 0, ps, tail_first);
    left_opt_expr(x.where_clause, ps, tail_first);
    left_set_items(x.items, 0, ps, tail_first);
    left_intermediate_clauses(x.intermediate_clauses, 0, ps, tail_first);
    left_opt_return_clause(x.return_clause, ps, tail_first);
    left_sort_items(x.order_by, 0, ps, tail_first);
    left_opt_expr(x.skip, ps, tail_first);
    left_opt_expr(x.limit, ps, tail_first);
}

/// No parameter is left in a [`RemoveStatementView`].
proof fn left_remove_statement(x: RemoveStatementView, ps: Seq<(Seq<char>, ValueView)>, tail_first: bool)
    requires
        reference::first_fault(reference::names_remove_statement(x, tail_first), ps, true) is None,
    ensures
        reference::names_remove_statement(reference::bound_remove_statement(x, ps), tail_first).len() == 0,
    decreases x, 0int,
{
    broadcast use reference::group_first_fault;

    left_patterns(x.patterns, 0, ps, tail_first);
    left_optional_matchs(x.optional_patterns, 0, ps, tail_first);
    left_opt_expr(x.where_clause, ps, tail_first);
    left_opt_return_clause(x.return_clause, ps, tail_first);
    left_sort_items(x.order_by, 0, ps, tail_first);
    left_opt_expr(x.skip, ps, tail_first);
    left_opt_expr(x.limit, ps, tail_first);
}

/// No parameter is left in a [`MergeStatementView`].
proof fn left_merge_statement(x: MergeStatementView, ps: Seq<(Seq<char>, ValueView)>, tail_first: bool)
    requires
        reference::first_fault(reference::names_merge_statement(x, tail_first), ps, true) is None,
    ensures
        reference::names_merge_statement(reference::bound_merge_statement(x, ps), tail_first).len() == 0,
    decreases x, 0int,
{
    broadcast use reference::group_first_fault;

    left_pattern(x.pattern, ps, tail_first);
    left_set_items(x.on_create, 0, ps, tail_first);
    left_set_items(x.on_match, 0, ps, tail_first);
    left_opt_return_clause(x.return_clause, ps, tail_first);
    left_sort_items(x.order_by, 0, ps, tail_first);
    left_opt_expr(x.skip, ps, tail_first);
    left_opt_expr(x.limit, ps, tail_first);
}

/// No parameter is left in a [`UnwindBodyView`].
proof fn left_unwind_body(x: UnwindBodyView, ps: Seq<(Seq<char>, ValueView)>, tail_first: bool)
    requires
        reference::first_fault(reference::names_unwind_body(x, tail_first), ps, true) is None,
    ensures
        reference::names_unwind_body(reference::bound_unwind_body(x, ps), tail_first).len() == 0,
    decreases x, 0int,
{
    broadcast use reference::group_first_fault;

    match x {
        UnwindBodyView::Return { where_clause, intermediate_clauses, return_clause, order_by, skip, limit } => {
            left_opt_expr(where_clause, ps, tail_first);
            left_intermediate_clauses(intermediate_clauses, 0, ps, tail_first);
            left_return_clause(return_clause, ps, tail_first);
            left_sort_items(order_by, 0, ps, tail_first);
            left_opt_expr(skip, ps, tail_first);
            left_opt_expr(limit, ps, tail_first);
        },
        UnwindBodyView::Create { patterns, intermediate_clauses, return_clause, order_by, skip, limit } => {
            left_patterns(patterns, 0, ps, tail_first);
            left_intermediate_clauses(intermediate_clauses, 0, ps, tail_first);
            left_opt_return_clause(return_clause, ps, tail_first);
            left_sort_items(order_by, 0, ps, tail_first);
            left_opt_expr(skip, ps, tail_first);
            left_opt_expr(limit, ps, tail_first);
        },
    }
}

/// No parameter is left in a [`UnwindStatementView`].
proof fn left_unwind_statement(x: UnwindStatementView, ps: Seq<(Seq<char>, ValueView)>, tail_first: bool)
    requires
        reference::first_fault(reference::names_unwind_statement(x, tail_first), ps, true) is None,
    ensures
        reference::names_unwind_statement(reference::bound_unwind_statement(x, ps), tail_first).len() == 0,
    decreases x, 0int,
{
    broadcast use reference::group_first_fault;

    left_expr(x.expr, ps, tail_first);
    left_unwind_body(x.body, ps, tail_first);
}

/// No parameter is left in a [`ReturnStatementView`].
proof fn left_return_statement(x: ReturnStatementView, ps: Seq<(Seq<char>, ValueView)>, tail_first: bool)
    requires
        reference::first_fault(reference::names_return_statement(x, tail_first), ps, true) is None,
    ensures
        reference::names_return_statement(reference::bound_return_statement(x, ps), tail_first).len() == 0,
    decreases x, 0int,
{
    broadcast use reference::group_first_fault;

    left_return_clause(x.return_clause, ps, tail_first);
    left_sort_items(x.order_by, 0, ps, tail_first);
    left_opt_expr(x.skip, ps, tail_first);
    left_opt_expr(x.limit, ps, tail_first);
}

/// No parameter is left in a [`ClauseView`].
proof fn left_clause(x: ClauseView, ps: Seq<(Seq<char>, ValueView)>, tail_first: bool)
    requires
        reference::first_fault(reference::names_clause(x, tail_first), ps, true) is None,
    ensures
        reference::names_clause(reference::bound_clause(x, ps), tail_first).len() == 0,
    decreases x, 0int,
{
    broadcast use reference::group_first_fault;

    match x {
        ClauseView::Match { patterns, optional_patterns, where_clause } => {
            left_patterns(patterns, 0, ps, tail_first);
            left_optional_matchs(optional_patterns, 0, ps, tail_first);
            left_opt_expr(where_clause, ps, tail_first);
        },
        ClauseView::Create { patterns } => {
            left_patterns(patterns, 0, ps, tail_first);
        },
        ClauseView::Merge { pattern, on_create, on_match } => {
            left_pattern(pattern, ps, tail_first);
            left_set_items(on_create, 0, ps, tail_first);
            left_set_items(on_match, 0, ps, tail_first);
        },
        ClauseView::With(a) => {
            left_with_clause(a, ps, tail_first);
        },
        ClauseView::Unwind(a) => {
            left_unwind_clause(a, ps, tail_first);
        },
        ClauseView::SetItems { items } => {
            left_set_items(items, 0, ps, tail_first);
        },
        ClauseView::Call { args, .. } => {
            left_exprs(args, 0, ps, tail_first);
        },
        ClauseView::Delete { exprs, .. } => {
            left_exprs(exprs, 0, ps, tail_first);
        },
        _ => {},
    }
}

/// No parameter is left in a [`MultiClauseStatementView`].
proof fn left_multi_clause_statement(x: MultiClauseStatementView, ps: Seq<(Seq<char>, ValueView)>, tail_first: bool)
    requires
        reference::first_fault(reference::names_multi_clause_statement(x, tail_first), ps, true) is None,
    ensures
        reference::names_multi_clause_statement(reference::bound_multi_clause_statement(x, ps), tail_first).len() == 0,
    decreases x, 0int,
{
    broadcast use reference::group_first_fault;

    left_clauses(x.clauses, 0, ps, tail_first);
    left_opt_return_clause(x.return_clause, ps, tail_first);
    left_sort_items(x.order_by, 0, ps, tail_first);
    left_opt_expr(x.skip, ps, tail_first);
    left_opt_expr(x.limit, ps, tail_first);
}

/// What is left when every parameter has been replaced: no parameter at all.
pub proof fn no_parameter_is_left(x: StatementView, ps: Seq<(Seq<char>, ValueView)>, tail_first: bool)
    requires
        reference::first_fault(reference::names_statement(x, tail_first), ps, true) is None,
    ensures
        reference::names_statement(reference::bound_statement(x, ps), tail_first).len() == 0,
    decreases x, 0int,
{
    broadcast use reference::group_first_fault;

    match x {
        StatementView::Match(a) => {
            left_match_statement(a, ps, tail_first);
        },
        StatementView::Create(a) => {
            left_create_statement(a, ps, tail_first);
        },
        StatementView::MatchCreate(a) => {
            left_match_create_statement(a, ps, tail_first);
        },
        StatementView::MatchMerge(a) => {
            left_match_merge_statement(a, ps, tail_first);
        },
        StatementView::Delete(a) => {
            left_delete_statement(a, ps, tail_first);
        },
        StatementView::SetProps(a) => {
            left_set_statement(a, ps, tail_first);
        },
        StatementView::Remove(a) => {
            left_remove_statement(a, ps, tail_first);
        },
        StatementView::Merge(a) => {
            left_merge_statement(a, ps, tail_first);
        },
        StatementView::Unwind(a) => {
            left_unwind_statement(a, ps, tail_first);
        },
        StatementView::Return(a) => {
            left_return_statement(a, ps, tail_first);
        },
        StatementView::MultiClause(a) => {
            left_multi_clause_statement(a, ps, tail_first);
        },
        StatementView::Explain(a) => {
            no_parameter_is_left(*a, ps, tail_first);
        },
        StatementView::Union { statements, .. } => {
            left_statements(statements, 0, ps, tail_first);
        },
        StatementView::Call { args, return_clause, order_by, skip, limit, .. } => {
            left_exprs(args, 0, ps, tail_first);
            left_opt_return_clause(return_clause, ps, tail_first);
            left_sort_items(order_by, 0, ps, tail_first);
            left_opt_box(skip, ps, tail_first);
            left_opt_box(limit, ps, tail_first);
        },
    }
}

proof fn left_exprs(s: Seq<ExprView>, i: int, ps: Seq<(Seq<char>, ValueView)>, tail_first: bool)
    requires
        0 <= i <= s.len(),
        reference::first_fault(reference::names_exprs(s, i, tail_first), ps, true) is None,
    ensures
        reference::names_exprs(reference::bound_exprs(s, ps), i, tail_first).len() == 0,
    decreases s, s.len() - i,
{
    broadcast use reference::group_first_fault;

    if i < s.len() {
        left_expr(s[i], ps, tail_first);
        left_exprs(s, i + 1, ps, tail_first);
    }
}

proof fn left_alternatives(s: Seq<(ExprView, ExprView)>, i: int, ps: Seq<(Seq<char>, ValueView)>, tail_first: bool)
    requires
        0 <= i <= s.len(),
        reference::first_fault(reference::names_alternatives(s, i, tail_first), ps, true) is None,
    ensures
        reference::names_alternatives(reference::bound_alternatives(s, ps), i, tail_first).len() == 0,
    decreases s, s.len() - i,
{
    broadcast use reference::group_first_fault;

    if i < s.len() {
        left_expr(s[i].0, ps, tail_first);
        left_expr(s[i].1, ps, tail_first);
        left_alternatives(s, i + 1, ps, tail_first);
    }
}

proof fn left_patterns(s: Seq<PatternView>, i: int, ps: Seq<(Seq<char>, ValueView)>, tail_first: bool)
    requires
        0 <= i <= s.len(),
        reference::first_fault(reference::names_patterns(s, i, tail_first), ps, true) is None,
    ensures
        reference::names_patterns(reference::bound_patterns(s, ps), i, tail_first).len() == 0,
    decreases s, s.len() - i,
{
    broadcast use reference::group_first_fault;

    if i < s.len() {
        left_pattern(s[i], ps, tail_first);
        left_patterns(s, i + 1, ps, tail_first);
    }
}

proof fn left_pairs(s: Seq<(Seq<char>, ExprView)>, i: int, ps: Seq<(Seq<char>, ValueView)>, tail_first: bool)
    requires
        0 <= i <= s.len(),
        reference::first_fault(reference::names_pairs(s, i, tail_first), ps, true) is None,
    ensures
        reference::names_pairs(reference::bound_pairs(s, ps), i, tail_first).len() == 0,
    decreases s, s.len() - i,
{
    broadcast use reference::group_first_fault;

    if i < s.len() {
        left_expr(s[i].1, ps, tail_first);
        left_pairs(s, i + 1, ps, tail_first);
    }
}

proof fn left_pattern_elements(s: Seq<PatternElementView>, i: int, ps: Seq<(Seq<char>, ValueView)>, tail_first: bool)
    requires
        0 <= i <= s.len(),
        reference::first_fault(reference::names_pattern_elements(s, i, tail_first), ps, true) is None,
    ensures
        reference::names_pattern_elements(reference::bound_pattern_elements(s, ps), i, tail_first).len() == 0,
    decreases s, s.len() - i,
{
    broadcast use reference::group_first_fault;

    if i < s.len() {
        left_pattern_element(s[i], ps, tail_first);
        left_pattern_elements(s, i + 1, ps, tail_first);
    }
}

proof fn left_return_items(s: Seq<ReturnItemView>, i: int, ps: Seq<(Seq<char>, ValueView)>, tail_first: bool)
    requires
        0 <= i <= s.len(),
        reference::first_fault(reference::names_return_items(s, i, tail_first), ps, true) is None,
    ensures
        reference::names_return_items(reference::bound_return_items(s, ps), i, tail_first).len() == 0,
    decreases s, s.len() - i,
{
    broadcast use reference::group_first_fault;

    if i < s.len() {
        left_return_item(s[i], ps, tail_first);
        left_return_items(s, i + 1, ps, tail_first);
    }
}

proof fn left_sort_items(s: Seq<SortItemView>, i: int, ps: Seq<(Seq<char>, ValueView)>, tail_first: bool)
    requires
        0 <= i <= s.len(),
        reference::first_fault(reference::names_sort_items(s, i, tail_first), ps, true) is None,
    ensures
        reference::names_sort_items(reference::bound_sort_items(s, ps), i, tail_first).len() == 0,
    decreases s, s.len() - i,
{
    broadcast use reference::group_first_fault;

    if i < s.len() {
        left_sort_item(s[i], ps, tail_first);
        left_sort_items(s, i + 1, ps, tail_first);
    }
}

proof fn left_optional_matchs(s: Seq<OptionalMatchView>, i: int, ps: Seq<(Seq<char>, ValueView)>, tail_first: bool)
    requires
        0 <= i <= s.len(),
        reference::first_fault(reference::names_optional_matchs(s, i, tail_first), ps, true) is None,
    ensures
        reference::names_optional_matchs(reference::bound_optional_matchs(s, ps), i, tail_first).len() == 0,
    decreases s, s.len() - i,
{
    broadcast use reference::group_first_fault;

    if i < s.len() {
        left_optional_match(s[i], ps, tail_first);
        left_optional_matchs(s, i + 1, ps, tail_first);
    }
}

proof fn left_intermediate_clauses(s: Seq<IntermediateClauseView>, i: int, ps: Seq<(Seq<char>, ValueView)>, tail_first: bool)
    requires
        0 <= i <= s.len(),
        reference::first_fault(reference::names_intermediate_clauses(s, i, tail_first), ps, true) is None,
    ensures
        reference::names_intermediate_clauses(reference::bound_intermediate_clauses(s, ps), i, tail_first).len() == 0,
    decreases s, s.len() - i,
{
    broadcast use reference::group_first_fault;

    if i < s.len() {
        left_intermediate_clause(s[i], ps, tail_first);
        left_intermediate_clauses(s, i + 1, ps, tail_first);
    }
}

proof fn left_set_items(s: Seq<SetItemView>, i: int, ps: Seq<(Seq<char>, ValueView)>, tail_first: bool)
    requires
        0 <= i <= s.len(),
        reference::first_fault(reference::names_set_items(s, i, tail_first), ps, true) is None,
    ensures
        reference::names_set_items(reference::bound_set_items(s, ps), i, tail_first).len() == 0,
    decreases s, s.len() - i,
{
    broadcast use reference::group_first_fault;

    if i < s.len() {
        left_set_item(s[i], ps, tail_first);
        left_set_items(s, i + 1, ps, tail_first);
    }
}

proof fn left_clauses(s: Seq<ClauseView>, i: int, ps: Seq<(Seq<char>, ValueView)>, tail_first: bool)
    requires
        0 <= i <= s.len(),
        reference::first_fault(reference::names_clauses(s, i, tail_first), ps, true) is None,
    ensures
        reference::names_clauses(reference::bound_clauses(s, ps), i, tail_first).len() == 0,
    decreases s, s.len() - i,
{
    broadcast use reference::group_first_fault;

    if i < s.len() {
        left_clause(s[i], ps, tail_first);
        left_clauses(s, i + 1, ps, tail_first);
    }
}

proof fn left_statements(s: Seq<StatementView>, i: int, ps: Seq<(Seq<char>, ValueView)>, tail_first: bool)
    requires
        0 <= i <= s.len(),
        reference::first_fault(reference::names_statements(s, i, tail_first), ps, true) is None,
    ensures
        reference::names_statements(reference::bound_statements(s, ps), i, tail_first).len() == 0,
    decreases s, s.len() - i,
{
    broadcast use reference::group_first_fault;

    if i < s.len() {
        no_parameter_is_left(s[i], ps, tail_first);
        left_statements(s, i + 1, ps, tail_first);
    }
}

proof fn left_opt_box(o: Option<Box<ExprView>>, ps: Seq<(Seq<char>, ValueView)>, tail_first: bool)
    requires
        reference::first_fault(reference::names_opt_box(o, tail_first), ps, true) is None,
    ensures
        reference::names_opt_box(reference::bound_opt_box(o, ps), tail_first).len() == 0,
    decreases o, 0int,
{
    if let Some(y) = o {
        left_expr(*y, ps, tail_first);
    }
}

proof fn left_opt_expr(o: Option<ExprView>, ps: Seq<(Seq<char>, ValueView)>, tail_first: bool)
    requires
        reference::first_fault(reference::names_opt_expr(o, tail_first), ps, true) is None,
    ensures
        reference::names_opt_expr(reference::bound_opt_expr(o, ps), tail_first).len() == 0,
    decreases o, 0int,
{
    if let Some(y) = o {
        left_expr(y, ps, tail_first);
    }
}

proof fn left_opt_return_clause(o: Option<ReturnClauseView>, ps: Seq<(Seq<char>, ValueView)>, tail_first: bool)
    requires
        reference::first_fault(reference::names_opt_return_clause(o, tail_first), ps, true) is None,
    ensures
        reference::names_opt_return_clause(reference::bound_opt_return_clause(o, ps), tail_first).len() == 0,
    decreases o, 0int,
{
    if let Some(y) = o {
        left_return_clause(y, ps, tail_first);
    }
}

/// The order of reading a [`ExprView`] does not change what it refers to.
proof fn order_expr(x: ExprView, n: Seq<char>)
    ensures
        reference::names_expr(x, true).contains(n) == reference::names_expr(x, false).contains(n),
    decreases x, 0int,
{
    broadcast use lemma_concat_contains;

    order_expr_kind(x.kind, n);
}

/// The order of reading a [`ExprKindView`] does not change what it refers to.
proof fn order_expr_kind(x: ExprKindView, n: Seq<char>)
    ensures
        reference::names_expr_kind(x, true).contains(n) == reference::names_expr_kind(x, false).contains(n),
    decreases x, 0int,
{
    broadcast use lemma_concat_contains;

    match x {
        ExprKindView::PatternPredicate(a) => {
            order_pattern(a, n);
        },
        ExprKindView::BinaryOp { left, right, .. } => {
            order_expr(*left, n);
            order_expr(*right, n);
        },
        ExprKindView::Not(a) => {
            order_expr(*a, n);
        },
        ExprKindView::IsNull(a) => {
            order_expr(*a, n);
        },
        ExprKindView::IsNotNull(a) => {
            order_expr(*a, n);
        },
        ExprKindView::FunctionCall { args, .. } => {
            order_exprs(args, 0, n);
        },
        ExprKindView::Case { operand, alternatives, default } => {
            order_opt_box(operand, n);
            order_alternatives(alternatives, 0, n);
            order_opt_box(default, n);
        },
        ExprKindView::List(a) => {
            order_exprs(a, 0, n);
        },
        ExprKindView::ListComprehension { list_expr, filter, map_expr, .. } => {
            order_expr(*list_expr, n);
            order_opt_box(filter, n);
            order_opt_box(map_expr, n);
        },
        ExprKindView::PatternComprehension { pattern, where_clause, map_expr, .. } => {
            order_pattern(pattern, n);
            order_opt_box(where_clause, n);
            order_expr(*map_expr, n);
        },
        ExprKindView::Quantifier { list_expr, predicate, .. } => {
            order_expr(*list_expr, n);
            order_expr(*predicate, n);
        },
        ExprKindView::Exists { patterns, where_clause } => {
            order_patterns(patterns, 0, n);
            order_opt_box(where_clause, n);
        },
        ExprKindView::ExistsSubquery(a) => {
            order_statement(*a, n);
        },
        ExprKindView::MapLiteral(a) => {
            order_pairs(a, 0, n);
        },
        ExprKindView::Index { expr, index } => {
            order_expr(*expr, n);
            order_expr(*index, n);
        },
        ExprKindView::DotAccess { expr, .. } => {
            order_expr(*expr, n);
        },
        ExprKindView::Slice { expr, start, end } => {
            order_expr(*expr, n);
            order_opt_box(start, n);
            order_opt_box(end, n);
        },
        _ => {},
    }
}

/// The order of reading a [`PatternView`] does not change what it refers to.
proof fn order_pattern(x: PatternView, n: Seq<char>)
    ensures
        reference::names_pattern(x, true).contains(n) == reference::names_pattern(x, false).contains(n),
    decreases x, 0int,
{
    broadcast use lemma_concat_contains;

    order_pattern_elements(x.elements, 0, n);
}

/// The order of reading a [`PatternElementView`] does not change what it refers to.
proof fn order_pattern_element(x: PatternElementView, n: Seq<char>)
    ensures
        reference::names_pattern_element(x, true).contains(n) == reference::names_pattern_element(x, false).contains(n),
    decreases x, 0int,
{
    broadcast use lemma_concat_contains;

    match x {
        PatternElementView::Node(a) => {
            order_node_pattern(a, n);
        },
        PatternElementView::Relationship(a) => {
            order_rel_pattern(a, n);
        },
    }
}

/// The order of reading a [`NodePatternView`] does not change what it refers to.
proof fn order_node_pattern(x: NodePatternView, n: Seq<char>)
    ensures
        reference::names_node_pattern(x, true).contains(n) == reference::names_node_pattern(x, false).contains(n),
    decreases x, 0int,
{
    broadcast use lemma_concat_contains;

    order_pairs(x.properties, 0, n);
}

/// The order of reading a [`RelPatternView`] does not change what it refers to.
proof fn order_rel_pattern(x: RelPatternView, n: Seq<char>)
    ensures
        reference::names_rel_pattern(x, true).contains(n) == reference::names_rel_pattern(x, false).contains(n),
    decreases x, 0int,
{
    broadcast use lemma_concat_contains;

    order_pairs(x.properties, 0, n);
}

/// The order of reading a [`ReturnItemView`] does not change what it refers to.
proof fn order_return_item(x: ReturnItemView, n: Seq<char>)
    ensures
        reference::names_return_item(x, true).contains(n) == reference::names_return_item(x, false).contains(n),
    decreases x, 0int,
{
    broadcast use lemma_concat_contains;

    order_expr(x.expr, n);
}

/// The order of reading a [`ReturnClauseView`] does not change what it refers to.
proof fn order_return_clause(x: ReturnClauseView, n: Seq<char>)
    ensures
        reference::names_return_clause(x, true).contains(n) == reference::names_return_clause(x, false).contains(n),
    decreases x, 0int,
{
    broadcast use lemma_concat_contains;

    order_return_items(x.items, 0, n);
}

/// The order of reading a [`SortItemView`] does not change what it refers to.
proof fn order_sort_item(x: SortItemView, n: Seq<char>)
    ensures
        reference::names_sort_item(x, true).contains(n) == reference::names_sort_item(x, false).contains(n),
    decreases x, 0int,
{
    broadcast use lemma_concat_contains;

    order_expr(x.expr, n);
}

/// The order of reading a [`OptionalMatchView`] does not change what it refers to.
proof fn order_optional_match(x: OptionalMatchView, n: Seq<char>)
    ensures
        reference::names_optional_match(x, true).contains(n) == reference::names_optional_match(x, false).contains(n),
    decreases x, 0int,
{
    broadcast use lemma_concat_contains;

    order_patterns(x.patterns, 0, n);
    order_opt_expr(x.where_clause, n);
}

/// The order of reading a [`WithClauseView`] does not change what it refers to.
proof fn order_with_clause(x: WithClauseView, n: Seq<char>)
    ensures
        reference::names_with_clause(x, true).contains(n) == reference::names_with_clause(x, false).contains(n),
    decreases x, 0int,
{
    broadcast use lemma_concat_contains;

    order_return_items(x.items, 0, n);
    order_sort_items(x.order_by, 0, n);
    order_opt_expr(x.skip, n);
    order_opt_expr(x.limit, n);
    order_opt_expr(x.where_clause, n);
}

/// The order of reading a [`UnwindClauseView`] does not change what it refers to.
proof fn order_unwind_clause(x: UnwindClauseView, n: Seq<char>)
    ensures
        reference::names_unwind_clause(x, true).contains(n) == reference::names_unwind_clause(x, false).contains(n),
    decreases x, 0int,
{
    broadcast use lemma_concat_contains;

    order_expr(x.expr, n);
}

/// The order of reading a [`IntermediateMatchView`] does not change what it refers to.
proof fn order_intermediate_match(x: IntermediateMatchView, n: Seq<char>)
    ensures
        reference::names_intermediate_match(x, true).contains(n) == reference::names_intermediate_match(x, false).contains(n),
    decreases x, 0int,
{
    broadcast use lemma_concat_contains;

    order_patterns(x.patterns, 0, n);
    order_optional_matchs(x.optional_patterns, 0, n);
    order_opt_expr(x.where_clause, n);
}

/// The order of reading a [`IntermediateClauseView`] does not change what it refers to.
proof fn order_intermediate_clause(x: IntermediateClauseView, n: Seq<char>)
    ensures
        reference::names_intermediate_clause(x, true).contains(n) == reference::names_intermediate_clause(x, false).contains(n),
    decreases x, 0int,
{
    broadcast use lemma_concat_contains;

    match x {
        IntermediateClauseView::With(a) => {
            order_with_clause(a, n);
        },
        IntermediateClauseView::Unwind(a) => {
            order_unwind_clause(a, n);
        },
        IntermediateClauseView::Match(a) => {
            order_intermediate_match(a, n);
        },
    }
}

/// The order of reading a [`AssignmentView`] does not change what it refers to.
proof fn order_assignment(x: AssignmentView, n: Seq<char>)
    ensures
        reference::names_assignment(x, true).contains(n) == reference::names_assignment(x, false).contains(n),
    decreases x, 0int,
{
    broadcast use lemma_concat_contains;

    order_expr(x.value, n);
}

/// The order of reading a [`SetItemView`] does not change what it refers to.
proof fn order_set_item(x: SetItemView, n: Seq<char>)
    ensures
        reference::names_set_item(x, true).contains(n) == reference::names_set_item(x, false).contains(n),
    decreases x, 0int,
{
    broadcast use lemma_concat_contains;

    match x {
        SetItemView::Property(a) => {
            order_assignment(a, n);
        },
        SetItemView::MapOverwrite { value, .. } => {
            order_expr(value, n);
        },
        SetItemView::MapMerge { value, .. } => {
            order_expr(value, n);
        },
        _ => {},
    }
}

/// The order of reading a [`MatchStatementView`] does not change what it refers to.
proof fn order_match_statement(x: MatchStatementView, n: Seq<char>)
    ensures
        reference::names_match_statement(x, true).contains(n) == reference::names_match_statement(x, false).contains(n),
    decreases x, 0int,
{
    broadcast use lemma_concat_contains;

    order_patterns(x.patterns, 0, n);
    order_optional_matchs(x.optional_patterns, 0, n);
    order_opt_expr(x.where_clause, n);
    order_intermediate_clauses(x.intermediate_clauses, 0, n);
    order_return_clause(x.return_clause, n);
    order_sort_items(x.order_by, 0, n);
    order_opt_expr(x.skip, n);
    order_opt_expr(x.limit, n);
}

/// The order of reading a [`CreateStatementView`] does not change what it refers to.
proof fn order_create_statement(x: CreateStatementView, n: Seq<char>)
    ensures
        reference::names_create_statement(x, true).contains(n) == reference::names_create_statement(x, false).contains(n),
    decreases x, 0int,
{
    broadcast use lemma_concat_contains;

    order_patterns(x.patterns, 0, n);
    order_opt_return_clause(x.return_clause, n);
    order_sort_items(x.order_by, 0, n);
    order_opt_expr(x.skip, n);
    order_opt_expr(x.limit, n);
}

/// The order of reading a [`MatchCreateStatementView`] does not change what it refers to.
proof fn order_match_create_statement(x: MatchCreateStatementView, n: Seq<char>)
    ensures
        reference::names_match_create_statement(x, true).contains(n) == reference::names_match_create_statement(x, false).contains(n),
    decreases x, 0int,
{
    broadcast use lemma_concat_contains;

    order_patterns(x.patterns, 0, n);
    order_opt_expr(x.where_clause, n);
    order_patterns(x.create_patterns, 0, n);
    order_opt_return_clause(x.return_clause, n);
    order_sort_items(x.order_by, 0, n);
    order_opt_expr(x.skip, n);
    order_opt_expr(x.limit, n);
}

/// The order of reading a [`MatchMergeStatementView`] does not change what it refers to.
proof fn order_match_merge_statement(x: MatchMergeStatementView, n: Seq<char>)
    ensures
        reference::names_match_merge_statement(x, true).contains(n) == reference::names_match_merge_statement(x, false).contains(n),
    decreases x, 0int,
{
    broadcast use lemma_concat_contains;

    order_patterns(x.patterns, 0, n);
    order_opt_expr(x.where_clause, n);
    order_pattern(x.merge_pattern, n);
    order_set_items(x.on_create, 0, n);
    order_set_items(x.on_match, 0, n);
    order_opt_return_clause(x.return_clause, n);
    order_sort_items(x.order_by, 0, n);
    order_opt_expr(x.skip, n);
    order_opt_expr(x.limit, n);
}

/// The order of reading a [`DeleteStatementView`] does not change what it refers to.
proof fn order_delete_statement(x: DeleteStatementView, n: Seq<char>)
    ensures
        reference::names_delete_statement(x, true).contains(n) == reference::names_delete_statement(x, false).contains(n),
    decreases x, 0int,
{
    broadcast use lemma_concat_contains;

    order_patterns(x.patterns, 0, n);
    order_optional_matchs(x.optional_patterns, 0, n);
    order_opt_expr(x.where_clause, n);
    order_exprs(x.exprs, 0, n);
    order_opt_return_clause(x.return_clause, n);
    order_sort_items(x.order_by, 0, n);
    order_opt_expr(x.skip, n);
    order_opt_expr(x.limit, n);
}

/// The order of reading a [`SetStatementView`] does not change what it refers to.
proof fn order_set_statement(x: SetStatementView, n: Seq<char>)
    ensures
        reference::names_set_statement(x, true).contains(n) == reference::names_set_statement(x, false).contains(n),
    decreases x, 0int,
{
    broadcast use lemma_concat_contains;

    order_patterns(x.patterns, 0, n);
    order_optional_matchs(x.optional_patterns, 0, n);
    order_opt_expr(x.where_clause, n);
    order_set_items(x.items, 0, n);
    order_intermediate_clauses(x.intermediate_clauses, 0, n);
    order_opt_return_clause(x.return_clause, n);
    order_sort_items(x.order_by, 0, n);
    order_opt_expr(x.skip, n);
    order_opt_expr(x.limit, n);
}

/// The order of reading a [`RemoveStatementView`] does not change what it refers to.
proof fn order_remove_statement(x: RemoveStatementView, n: Seq<char>)
    ensures
        reference::names_remove_statement(x, true).contains(n) == reference::names_remove_statement(x, false).contains(n),
    decreases x, 0int,
{
    broadcast use lemma_concat_contains;

    order_patterns(x.patterns, 0, n);
    order_optional_matchs(x.optional_patterns, 0, n);
    order_opt_expr(x.where_clause, n);
    order_opt_return_clause(x.return_clause, n);
    order_sort_items(x.order_by, 0, n);
    order_opt_expr(x.skip, n);
    order_opt_expr(x.limit, n);
}

/// The order of reading a [`MergeStatementView`] does not change what it refers to.
proof fn order_merge_statement(x: MergeStatementView, n: Seq<char>)
    ensures
        reference::names_merge_statement(x, true).contains(n) == reference::names_merge_statement(x, false).contains(n),
    decreases x, 0int,
{
    broadcast use lemma_concat_contains;

    order_pattern(x.pattern, n);
    order_set_items(x.on_create, 0, n);
    order_set_items(x.on_match, 0, n);
    order_opt_return_clause(x.return_clause, n);
    order_sort_items(x.order_by, 0, n);
    order_opt_expr(x.skip, n);
    order_opt_expr(x.limit, n);
}

/// The order of reading a [`UnwindBodyView`] does not change what it refers to.
proof fn order_unwind_body(x: UnwindBodyView, n: Seq<char>)
    ensures
        reference::names_unwind_body(x, true).contains(n) == reference::names_unwind_body(x, false).contains(n),
    decreases x, 0int,
{
    broadcast use lemma_concat_contains;

    match x {
        UnwindBodyView::Return { where_clause, intermediate_clauses, return_clause, order_by, skip, limit } => {
            order_opt_expr(where_clause, n);
            order_intermediate_clauses(intermediate_clauses, 0, n);
            order_return_clause(return_clause, n);
            order_sort_items(order_by, 0, n);
            order_opt_expr(skip, n);
            order_opt_expr(limit, n);
        },
        UnwindBodyView::Create { patterns, intermediate_clauses, return_clause, order_by, skip, limit } => {
            order_patterns(patterns, 0, n);
            order_intermediate_clauses(intermediate_clauses, 0, n);
            order_opt_return_clause(return_clause, n);
            order_sort_items(order_by, 0, n);
            order_opt_expr(skip, n);
            order_opt_expr(limit, n);
        },
    }
}

/// The order of reading a [`UnwindStatementView`] does not change what it refers to.
proof fn order_unwind_statement(x: UnwindStatementView, n: Seq<char>)
    ensures
        reference::names_unwind_statement(x, true).contains(n) == reference::names_unwind_statement(x, false).contains(n),
    decreases x, 0int,
{
    broadcast use lemma_concat_contains;

    order_expr(x.expr, n);
    order_unwind_body(x.body, n);
}

/// The order of reading a [`ReturnStatementView`] does not change what it refers to.
proof fn order_return_statement(x: ReturnStatementView, n: Seq<char>)
    ensures
        reference::names_return_statement(x, true).contains(n) == reference::names_return_statement(x, false).contains(n),
    decreases x, 0int,
{
    broadcast use lemma_concat_contains;

    order_return_clause(x.return_clause, n);
    order_sort_items(x.order_by, 0, n);
    order_opt_expr(x.skip, n);
    order_opt_expr(x.limit, n);
}

/// The order of reading a [`ClauseView`] does not change what it refers to.
proof fn order_clause(x: ClauseView, n: Seq<char>)
    ensures
        reference::names_clause(x, true).contains(n) == reference::names_clause(x, false).contains(n),
    decreases x, 0int,
{
    broadcast use lemma_concat_contains;

    match x {
        ClauseView::Match { patterns, optional_patterns, where_clause } => {
            order_patterns(patterns, 0, n);
            order_optional_matchs(optional_patterns, 0, n);
            order_opt_expr(where_clause, n);
        },
        ClauseView::Create { patterns } => {
            order_patterns(patterns, 0, n);
        },
        ClauseView::Merge { pattern, on_create, on_match } => {
            order_pattern(pattern, n);
            order_set_items(on_create, 0, n);
            order_set_items(on_match, 0, n);
        },
        ClauseView::With(a) => {
            order_with_clause(a, n);
        },
        ClauseView::Unwind(a) => {
            order_unwind_clause(a, n);
        },
        ClauseView::SetItems { items } => {
            order_set_items(items, 0, n);
        },
        ClauseView::Call { args, .. } => {
            order_exprs(args, 0, n);
        },
        ClauseView::Delete { exprs, .. } => {
            order_exprs(exprs, 0, n);
        },
        _ => {},
    }
}

/// The order of reading a [`MultiClauseStatementView`] does not change what it refers to.
proof fn order_multi_clause_statement(x: MultiClauseStatementView, n: Seq<char>)
    ensures
        reference::names_multi_clause_statement(x, true).contains(n) == reference::names_multi_clause_statement(x, false).contains(n),
    decreases x, 0int,
{
    broadcast use lemma_concat_contains;

    order_clauses(x.clauses, 0, n);
    order_opt_return_clause(x.return_clause, n);
    order_sort_items(x.order_by, 0, n);
    order_opt_expr(x.skip, n);
    order_opt_expr(x.limit, n);
}

/// The order in which parts are read does not change which parameters they refer to.
proof fn order_statement(x: StatementView, n: Seq<char>)
    ensures
        reference::names_statement(x, true).contains(n) == reference::names_statement(x, false).contains(n),
    decreases x, 0int,
{
    broadcast use lemma_concat_contains;

    match x {
        StatementView::Match(a) => {
            order_match_statement(a, n);
        },
        StatementView::Create(a) => {
            order_create_statement(a, n);
        },
        StatementView::MatchCreate(a) => {
            order_match_create_statement(a, n);
        },
        StatementView::MatchMerge(a) => {
            order_match_merge_statement(a, n);
        },
        StatementView::Delete(a) => {
            order_delete_statement(a, n);
        },
        StatementView::SetProps(a) => {
            order_set_statement(a, n);
        },
        StatementView::Remove(a) => {
            order_remove_statement(a, n);
        },
        StatementView::Merge(a) => {
            order_merge_statement(a, n);
        },
        StatementView::Unwind(a) => {
            order_unwind_statement(a, n);
        },
        StatementView::Return(a) => {
            order_return_statement(a, n);
        },
        StatementView::MultiClause(a) => {
            order_multi_clause_statement(a, n);
        },
        StatementView::Explain(a) => {
            order_statement(*a, n);
        },
        StatementView::Union { statements, .. } => {
            order_statements(statements, 0, n);
        },
        StatementView::Call { args, return_clause, order_by, skip, limit, .. } => {
            order_exprs(args, 0, n);
            order_opt_return_clause(return_clause, n);
            order_sort_items(order_by, 0, n);
            order_opt_box(skip, n);
            order_opt_box(limit, n);
        },
    }
}

proof fn order_exprs(s: Seq<ExprView>, i: int, n: Seq<char>)
    requires
        0 <= i <= s.len(),
    ensures
        reference::names_exprs(s, i, true).contains(n) == reference::names_exprs(s, i, false).contains(n),
    decreases s, s.len() - i,
{
    broadcast use lemma_concat_contains;

    if i < s.len() {
        order_expr(s[i], n);
        order_exprs(s, i + 1, n);
    }
}

proof fn order_alternatives(s: Seq<(ExprView, ExprView)>, i: int, n: Seq<char>)
    requires
        0 <= i <= s.len(),
    ensures
        reference::names_alternatives(s, i, true).contains(n) == reference::names_alternatives(s, i, false).contains(n),
    decreases s, s.len() - i,
{
    broadcast use lemma_concat_contains;

    if i < s.len() {
        order_expr(s[i].0, n);
        order_expr(s[i].1, n);
        order_alternatives(s, i + 1, n);
    }
}

proof fn order_patterns(s: Seq<PatternView>, i: int, n: Seq<char>)
    requires
        0 <= i <= s.len(),
    ensures
        reference::names_patterns(s, i, true).contains(n) == reference::names_patterns(s, i, false).contains(n),
    decreases s, s.len() - i,
{
    broadcast use lemma_concat_contains;

    if i < s.len() {
        order_pattern(s[i], n);
        order_patterns(s, i + 1, n);
    }
}

proof fn order_pairs(s: Seq<(Seq<char>, ExprView)>, i: int, n: Seq<char>)
    requires
        0 <= i <= s.len(),
    ensures
        reference::names_pairs(s, i, true).contains(n) == reference::names_pairs(s, i, false).contains(n),
    decreases s, s.len() - i,
{
    broadcast use lemma_concat_contains;

    if i < s.len() {
        order_expr(s[i].1, n);
        order_pairs(s, i + 1, n);
    }
}

proof fn order_pattern_elements(s: Seq<PatternElementView>, i: int, n: Seq<char>)
    requires
        0 <= i <= s.len(),
    ensures
        reference::names_pattern_elements(s, i, true).contains(n) == reference::names_pattern_elements(s, i, false).contains(n),
    decreases s, s.len() - i,
{
    broadcast use lemma_concat_contains;

    if i < s.len() {
        order_pattern_element(s[i], n);
        order_pattern_elements(s, i + 1, n);
    }
}

proof fn order_return_items(s: Seq<ReturnItemView>, i: int, n: Seq<char>)
    requires
        0 <= i <= s.len(),
    ensures
        reference::names_return_items(s, i, true).contains(n) == reference::names_return_items(s, i, false).contains(n),
    decreases s, s.len() - i,
{
    broadcast use lemma_concat_contains;

    if i < s.len() {
        order_return_item(s[i], n);
        order_return_items(s, i + 1, n);
    }
}

proof fn order_sort_items(s: Seq<SortItemView>, i: int, n: Seq<char>)
    requires
        0 <= i <= s.len(),
    ensures
        reference::names_sort_items(s, i, true).contains(n) == reference::names_sort_items(s, i, false).contains(n),
    decreases s, s.len() - i,
{
    broadcast use lemma_concat_contains;

    if i < s.len() {
        order_sort_item(s[i], n);
        order_sort_items(s, i + 1, n);
    }
}

proof fn order_optional_matchs(s: Seq<OptionalMatchView>, i: int, n: Seq<char>)
    requires
        0 <= i <= s.len(),
    ensures
        reference::names_optional_matchs(s, i, true).contains(n) == reference::names_optional_matchs(s, i, false).contains(n),
    decreases s, s.len() - i,
{
    broadcast use lemma_concat_contains;

    if i < s.len() {
        order_optional_match(s[i], n);
        order_optional_matchs(s, i + 1, n);
    }
}

proof fn order_intermediate_clauses(s: Seq<IntermediateClauseView>, i: int, n: Seq<char>)
    requires
        0 <= i <= s.len(),
    ensures
        reference::names_intermediate_clauses(s, i, true).contains(n) == reference::names_intermediate_clauses(s, i, false).contains(n),
    decreases s, s.len() - i,
{
    broadcast use lemma_concat_contains;

    if i < s.len() {
        order_intermediate_clause(s[i], n);
        order_intermediate_clauses(s, i + 1, n);
    }
}

proof fn order_set_items(s: Seq<SetItemView>, i: int, n: Seq<char>)
    requires
        0 <= i <= s.len(),
    ensures
        reference::names_set_items(s, i, true).contains(n) == reference::names_set_items(s, i, false).contains(n),
    decreases s, s.len() - i,
{
    broadcast use lemma_concat_contains;

    if i < s.len() {
        order_set_item(s[i], n);
        order_set_items(s, i + 1, n);
    }
}

proof fn order_clauses(s: Seq<ClauseView>, i: int, n: Seq<char>)
    requires
        0 <= i <= s.len(),
    ensures
        reference::names_clauses(s, i, true).contains(n) == reference::names_clauses(s, i, false).contains(n),
    decreases s, s.len() - i,
{
    broadcast use lemma_concat_contains;

    if i < s.len() {
        order_clause(s[i], n);
        order_clauses(s, i + 1, n);
    }
}

proof fn order_statements(s: Seq<StatementView>, i: int, n: Seq<char>)
    requires
        0 <= i <= s.len(),
    ensures
        reference::names_statements(s, i, true).contains(n) == reference::names_statements(s, i, false).contains(n),
    decreases s, s.len() - i,
{
    broadcast use lemma_concat_contains;

    if i < s.len() {
        order_statement(s[i], n);
        order_statements(s, i + 1, n);
    }
}

proof fn order_opt_box(o: Option<Box<ExprView>>, n: Seq<char>)
    ensures
        reference::names_opt_box(o, true).contains(n) == reference::names_opt_box(o, false).contains(n),
    decreases o, 0int,
{
    if let Some(y) = o {
        order_expr(*y, n);
    }
}

proof fn order_opt_expr(o: Option<ExprView>, n: Seq<char>)
    ensures
        reference::names_opt_expr(o, true).contains(n) == reference::names_opt_expr(o, false).contains(n),
    decreases o, 0int,
{
    if let Some(y) = o {
        order_expr(y, n);
    }
}

proof fn order_opt_return_clause(o: Option<ReturnClauseView>, n: Seq<char>)
    ensures
        reference::names_opt_return_clause(o, true).contains(n) == reference::names_opt_return_clause(o, false).contains(n),
    decreases o, 0int,
{
    if let Some(y) = o {
        order_return_clause(y, n);
    }
}

} // verus!
