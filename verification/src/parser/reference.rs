//! Parameters: the names that a statement refers to, and the statement with their values in
//! place.
use crate::assoc;
use crate::ast_model::{
    AssignmentView, ClauseView, CreateStatementView, DeleteStatementView, ExprKindView,
    ExprView, FloatLiteralView, IntermediateClauseView, IntermediateMatchView,
    LiteralValueView, MatchCreateStatementView, MatchMergeStatementView, MatchStatementView,
    MergeStatementView, MultiClauseStatementView, NodePatternView, OptionalMatchView,
    PatternElementView, PatternView, RelPatternView, RemoveStatementView, ReturnClauseView,
    ReturnItemView, ReturnStatementView, SetItemView, SetStatementView, SortItemView,
    StatementView, UnwindBodyView, UnwindClauseView, UnwindStatementView, WithClauseView,
};
use crate::types;
use crate::types::{ErrorView, QueryPhase, Span};
use crate::value::ValueView;
use vstd::prelude::*;

verus! {

/// The error for a name that is not bound.
pub open spec fn missing_error(name: Seq<char>) -> ErrorView {
    types::argument_error(QueryPhase::SemanticAnalysis, "missing parameter: $"@ + name)
}

/// The error for a value that no literal stands for.
pub open spec fn unsupported_error() -> ErrorView {
    types::argument_error(QueryPhase::SemanticAnalysis, "unsupported parameter type"@)
}

/// The value can be written as a literal.
pub open spec fn supported(v: ValueView) -> bool
    decreases v,
{
    match v {
        ValueView::Null => true,
        ValueView::Bool(_) => true,
        ValueView::I64(_) => true,
        ValueView::F64(_) => true,
        ValueView::String(_) => true,
        ValueView::List(vs) => forall|i: int| 0 <= i < vs.len() ==> supported(#[trigger] vs[i]),
        ValueView::MapValue(kvs) => forall|i: int|
            0 <= i < kvs.len() ==> supported((#[trigger] kvs[i]).1),
        _ => false,
    }
}

/// The literal that stands for a value.
pub open spec fn value_expr(v: ValueView, span: Span) -> ExprView
    decreases v,
{
    let kind = match v {
        ValueView::Bool(b) => ExprKindView::Literal(LiteralValueView::Bool(b)),
        ValueView::I64(n) => ExprKindView::Literal(LiteralValueView::I64(n)),
        ValueView::F64(x) => ExprKindView::Literal(
            LiteralValueView::F64(FloatLiteralView::Bits(x.bits)),
        ),
        ValueView::String(s) => ExprKindView::Literal(LiteralValueView::String(s)),
        ValueView::List(vs) => ExprKindView::List(value_exprs(vs, span)),
        ValueView::MapValue(kvs) => ExprKindView::MapLiteral(value_pairs(kvs, span)),
        _ => ExprKindView::Literal(LiteralValueView::Null),
    };
    ExprView { kind, span }
}

/// The literals that stand for values.
pub open spec fn value_exprs(vs: Seq<ValueView>, span: Span) -> Seq<ExprView>
    decreases vs,
{
    Seq::new(
        vs.len(),
        |i: int| if 0 <= i < vs.len() { value_expr(vs[i], span) } else { arbitrary() },
    )
}

/// The map entries that stand for entries.
pub open spec fn value_pairs(kvs: Seq<(Seq<char>, ValueView)>, span: Span) -> Seq<
    (Seq<char>, ExprView),
>
    decreases kvs,
{
    Seq::new(
        kvs.len(),
        |i: int|
            if 0 <= i < kvs.len() { (kvs[i].0, value_expr(kvs[i].1, span)) } else { arbitrary() },
    )
}

/// What is wrong with a reference, if anything: its name is not bound, or, where `values` are
/// asked for, its value is no literal.
pub open spec fn fault(name: Seq<char>, ps: Seq<(Seq<char>, ValueView)>, values: bool) -> Option<
    ErrorView,
> {
    match assoc::lookup(ps, name) {
        None => Some(missing_error(name)),
        Some(v) => if values && !supported(v) {
            Some(unsupported_error())
        } else {
            None
        },
    }
}

/// What is wrong with the first wrong reference, if any is wrong.
pub open spec fn first_fault(
    names: Seq<Seq<char>>,
    ps: Seq<(Seq<char>, ValueView)>,
    values: bool,
) -> Option<ErrorView>
    decreases names.len(),
{
    if names.len() == 0 {
        None
    } else {
        match fault(names[0], ps, values) {
            Some(e) => Some(e),
            None => first_fault(names.drop_first(), ps, values),
        }
    }
}

/// The verdict on references.
pub open spec fn checked(names: Seq<Seq<char>>, ps: Seq<(Seq<char>, ValueView)>) -> Result<
    (),
    ErrorView,
> {
    match first_fault(names, ps, false) {
        Some(e) => Err(e),
        None => Ok(()),
    }
}

/// What comes of replacing the references: the result, unless one of them is wrong.
pub open spec fn settled<T>(names: Seq<Seq<char>>, x: T, ps: Seq<(Seq<char>, ValueView)>) -> Result<
    T,
    ErrorView,
> {
    match first_fault(names, ps, true) {
        Some(e) => Err(e),
        None => Ok(x),
    }
}

/// The first fault among references in two parts.
pub broadcast proof fn lemma_first_fault_concat(
    a: Seq<Seq<char>>,
    b: Seq<Seq<char>>,
    ps: Seq<(Seq<char>, ValueView)>,
    values: bool,
)
    ensures
        #[trigger] first_fault(a + b, ps, values) == (match first_fault(a, ps, values) {
            Some(e) => Some(e),
            None => first_fault(b, ps, values),
        }),
    decreases a.len(),
{
    if a.len() == 0 {
        assert(a + b =~= b);
    } else {
        assert((a + b).drop_first() =~= a.drop_first() + b);
        lemma_first_fault_concat(a.drop_first(), b, ps, values);
    }
}

/// No references, no fault.
pub broadcast proof fn lemma_first_fault_empty(ps: Seq<(Seq<char>, ValueView)>, values: bool)
    ensures
        #[trigger] first_fault(Seq::empty(), ps, values) is None,
{
}

/// The first fault of references that come in parts.
pub broadcast group group_first_fault {
    lemma_first_fault_concat,
    lemma_first_fault_empty,
}

/// The parameters that a [`ExprView`] refers to.
pub open spec fn names_expr(x: ExprView, tail_first: bool) -> Seq<Seq<char>>
    decreases x, 0int,
{
    names_expr_kind(x.kind, tail_first)
}

/// The parameters that a [`ExprKindView`] refers to.
pub open spec fn names_expr_kind(x: ExprKindView, tail_first: bool) -> Seq<Seq<char>>
    decreases x, 0int,
{
    match x {
        ExprKindView::Literal(..) => Seq::empty(),
        ExprKindView::Property(..) => Seq::empty(),
        ExprKindView::Variable(..) => Seq::empty(),
        ExprKindView::HasLabel(..) => Seq::empty(),
        ExprKindView::PatternPredicate(a) => names_pattern(a, tail_first),
        ExprKindView::Star => Seq::empty(),
        ExprKindView::Parameter(a) => seq![a],
        ExprKindView::BinaryOp { left, right, .. } => {
            names_expr(*left, tail_first) + names_expr(*right, tail_first)
        },
        ExprKindView::Not(a) => names_expr(*a, tail_first),
        ExprKindView::IsNull(a) => names_expr(*a, tail_first),
        ExprKindView::IsNotNull(a) => names_expr(*a, tail_first),
        ExprKindView::FunctionCall { args, .. } => {
            names_exprs(args, 0, tail_first)
        },
        ExprKindView::Case { operand, alternatives, default } => {
            names_opt_box(operand, tail_first) + names_alternatives(alternatives, 0, tail_first) + names_opt_box(default, tail_first)
        },
        ExprKindView::List(a) => names_exprs(a, 0, tail_first),
        ExprKindView::ListComprehension { list_expr, filter, map_expr, .. } => {
            names_expr(*list_expr, tail_first) + names_opt_box(filter, tail_first) + names_opt_box(map_expr, tail_first)
        },
        ExprKindView::PatternComprehension { pattern, where_clause, map_expr, .. } => {
            names_pattern(pattern, tail_first) + names_opt_box(where_clause, tail_first) + names_expr(*map_expr, tail_first)
        },
        ExprKindView::Quantifier { list_expr, predicate, .. } => {
            names_expr(*list_expr, tail_first) + names_expr(*predicate, tail_first)
        },
        ExprKindView::Exists { patterns, where_clause } => {
            names_patterns(patterns, 0, tail_first) + names_opt_box(where_clause, tail_first)
        },
        ExprKindView::ExistsSubquery(a) => names_statement(*a, tail_first),
        ExprKindView::MapLiteral(a) => names_pairs(a, 0, tail_first),
        ExprKindView::Index { expr, index } => {
            names_expr(*expr, tail_first) + names_expr(*index, tail_first)
        },
        ExprKindView::DotAccess { expr, .. } => {
            names_expr(*expr, tail_first)
        },
        ExprKindView::Slice { expr, start, end } => {
            names_expr(*expr, tail_first) + names_opt_box(start, tail_first) + names_opt_box(end, tail_first)
        },
    }
}

/// The parameters that a [`PatternView`] refers to.
pub open spec fn names_pattern(x: PatternView, tail_first: bool) -> Seq<Seq<char>>
    decreases x, 0int,
{
    names_pattern_elements(x.elements, 0, tail_first)
}

/// The parameters that a [`PatternElementView`] refers to.
pub open spec fn names_pattern_element(x: PatternElementView, tail_first: bool) -> Seq<Seq<char>>
    decreases x, 0int,
{
    match x {
        PatternElementView::Node(a) => names_node_pattern(a, tail_first),
        PatternElementView::Relationship(a) => names_rel_pattern(a, tail_first),
    }
}

/// The parameters that a [`NodePatternView`] refers to.
pub open spec fn names_node_pattern(x: NodePatternView, tail_first: bool) -> Seq<Seq<char>>
    decreases x, 0int,
{
    names_pairs(x.properties, 0, tail_first)
}

/// The parameters that a [`RelPatternView`] refers to.
pub open spec fn names_rel_pattern(x: RelPatternView, tail_first: bool) -> Seq<Seq<char>>
    decreases x, 0int,
{
    names_pairs(x.properties, 0, tail_first)
}

/// The parameters that a [`ReturnItemView`] refers to.
pub open spec fn names_return_item(x: ReturnItemView, tail_first: bool) -> Seq<Seq<char>>
    decreases x, 0int,
{
    names_expr(x.expr, tail_first)
}

/// The parameters that a [`ReturnClauseView`] refers to.
pub open spec fn names_return_clause(x: ReturnClauseView, tail_first: bool) -> Seq<Seq<char>>
    decreases x, 0int,
{
    names_return_items(x.items, 0, tail_first)
}

/// The parameters that a [`SortItemView`] refers to.
pub open spec fn names_sort_item(x: SortItemView, tail_first: bool) -> Seq<Seq<char>>
    decreases x, 0int,
{
    names_expr(x.expr, tail_first)
}

/// The parameters that a [`OptionalMatchView`] refers to.
pub open spec fn names_optional_match(x: OptionalMatchView, tail_first: bool) -> Seq<Seq<char>>
    decreases x, 0int,
{
    names_patterns(x.patterns, 0, tail_first) + names_opt_expr(x.where_clause, tail_first)
}

/// The parameters that a [`WithClauseView`] refers to.
pub open spec fn names_with_clause(x: WithClauseView, tail_first: bool) -> Seq<Seq<char>>
    decreases x, 0int,
{
    names_return_items(x.items, 0, tail_first) + names_sort_items(x.order_by, 0, tail_first) + names_opt_expr(x.skip, tail_first) + names_opt_expr(x.limit, tail_first) + names_opt_expr(x.where_clause, tail_first)
}

/// The parameters that a [`UnwindClauseView`] refers to.
pub open spec fn names_unwind_clause(x: UnwindClauseView, tail_first: bool) -> Seq<Seq<char>>
    decreases x, 0int,
{
    names_expr(x.expr, tail_first)
}

/// The parameters that a [`IntermediateMatchView`] refers to.
pub open spec fn names_intermediate_match(x: IntermediateMatchView, tail_first: bool) -> Seq<Seq<char>>
    decreases x, 0int,
{
    names_patterns(x.patterns, 0, tail_first) + names_optional_matchs(x.optional_patterns, 0, tail_first) + names_opt_expr(x.where_clause, tail_first)
}

/// The parameters that a [`IntermediateClauseView`] refers to.
pub open spec fn names_intermediate_clause(x: IntermediateClauseView, tail_first: bool) -> Seq<Seq<char>>
    decreases x, 0int,
{
    match x {
        IntermediateClauseView::With(a) => names_with_clause(a, tail_first),
        IntermediateClauseView::Unwind(a) => names_unwind_clause(a, tail_first),
        IntermediateClauseView::Match(a) => names_intermediate_match(a, tail_first),
    }
}

/// The parameters that a [`AssignmentView`] refers to.
pub open spec fn names_assignment(x: AssignmentView, tail_first: bool) -> Seq<Seq<char>>
    decreases x, 0int,
{
    names_expr(x.value, tail_first)
}

/// The parameters that a [`SetItemView`] refers to.
pub open spec fn names_set_item(x: SetItemView, tail_first: bool) -> Seq<Seq<char>>
    decreases x, 0int,
{
    match x {
        SetItemView::Property(a) => names_assignment(a, tail_first),
        SetItemView::Label { .. } => Seq::empty(),
        SetItemView::MapOverwrite { value, .. } => {
            names_expr(value, tail_first)
        },
        SetItemView::MapMerge { value, .. } => {
            names_expr(value, tail_first)
        },
    }
}

/// The parameters that a [`MatchStatementView`] refers to.
pub open spec fn names_match_statement(x: MatchStatementView, tail_first: bool) -> Seq<Seq<char>>
    decreases x, 0int,
{
    names_patterns(x.patterns, 0, tail_first) + names_optional_matchs(x.optional_patterns, 0, tail_first) + names_opt_expr(x.where_clause, tail_first) + names_intermediate_clauses(x.intermediate_clauses, 0, tail_first) + names_return_clause(x.return_clause, tail_first) + names_sort_items(x.order_by, 0, tail_first) + names_opt_expr(x.skip, tail_first) + names_opt_expr(x.limit, tail_first)
}

/// The parameters that a [`CreateStatementView`] refers to.
pub open spec fn names_create_statement(x: CreateStatementView, tail_first: bool) -> Seq<Seq<char>>
    decreases x, 0int,
{
    if tail_first {
        names_opt_return_clause(x.return_clause, tail_first) + names_sort_items(x.order_by, 0, tail_first) + names_opt_expr(x.skip, tail_first) + names_opt_expr(x.limit, tail_first) + (names_patterns(x.patterns, 0, tail_first))
    } else {
        names_patterns(x.patterns, 0, tail_first) + (names_opt_return_clause(x.return_clause, tail_first) + names_sort_items(x.order_by, 0, tail_first) + names_opt_expr(x.skip, tail_first) + names_opt_expr(x.limit, tail_first))
    }
}

/// The parameters that a [`MatchCreateStatementView`] refers to.
pub open spec fn names_match_create_statement(x: MatchCreateStatementView, tail_first: bool) -> Seq<Seq<char>>
    decreases x, 0int,
{
    if tail_first {
        names_opt_return_clause(x.return_clause, tail_first) + names_sort_items(x.order_by, 0, tail_first) + names_opt_expr(x.skip, tail_first) + names_opt_expr(x.limit, tail_first) + (names_patterns(x.patterns, 0, tail_first) + names_opt_expr(x.where_clause, tail_first) + names_patterns(x.create_patterns, 0, tail_first))
    } else {
        names_patterns(x.patterns, 0, tail_first) + names_opt_expr(x.where_clause, tail_first) + names_patterns(x.create_patterns, 0, tail_first) + (names_opt_return_clause(x.return_clause, tail_first) + names_sort_items(x.order_by, 0, tail_first) + names_opt_expr(x.skip, tail_first) + names_opt_expr(x.limit, tail_first))
    }
}

/// The parameters that a [`MatchMergeStatementView`] refers to.
pub open spec fn names_match_merge_statement(x: MatchMergeStatementView, tail_first: bool) -> Seq<Seq<char>>
    decreases x, 0int,
{
    if tail_first {
        names_opt_return_clause(x.return_clause, tail_first) + names_sort_items(x.order_by, 0, tail_first) + names_opt_expr(x.skip, tail_first) + names_opt_expr(x.limit, tail_first) + (names_patterns(x.patterns, 0, tail_first) + names_opt_expr(x.where_clause, tail_first) + names_pattern(x.merge_pattern, tail_first) + names_set_items(x.on_create, 0, tail_first) + names_set_items(x.on_match, 0, tail_first))
    } else {
        names_patterns(x.patterns, 0, tail_first) + names_opt_expr(x.where_clause, tail_first) + names_pattern(x.merge_pattern, tail_first) + names_set_items(x.on_create, 0, tail_first) + names_set_items(x.on_match, 0, tail_first) + (names_opt_return_clause(x.return_clause, tail_first) + names_sort_items(x.order_by, 0, tail_first) + names_opt_expr(x.skip, tail_first) + names_opt_expr(x.limit, tail_first))
    }
}

/// The parameters that a [`DeleteStatementView`] refers to.
pub open spec fn names_delete_statement(x: DeleteStatementView, tail_first: bool) -> Seq<Seq<char>>
    decreases x, 0int,
{
    if tail_first {
        names_opt_return_clause(x.return_clause, tail_first) + names_sort_items(x.order_by, 0, tail_first) + names_opt_expr(x.skip, tail_first) + names_opt_expr(x.limit, tail_first) + (names_patterns(x.patterns, 0, tail_first) + names_optional_matchs(x.optional_patterns, 0, tail_first) + names_opt_expr(x.where_clause, tail_first) + names_exprs(x.exprs, 0, tail_first))
    } else {
        names_patterns(x.patterns, 0, tail_first) + names_optional_matchs(x.optional_patterns, 0, tail_first) + names_opt_expr(x.where_clause, tail_first) + names_exprs(x.exprs, 0, tail_first) + (names_opt_return_clause(x.return_clause, tail_first) + names_sort_items(x.order_by, 0, tail_first) + names_opt_expr(x.skip, tail_first) + names_opt_expr(x.limit, tail_first))
    }
}

/// The parameters that a [`SetStatementView`] refers to.
pub open spec fn names_set_statement(x: SetStatementView, tail_first: bool) -> Seq<Seq<char>>
    decreases x, 0int,
{
    if tail_first {
        names_opt_return_clause(x.return_clause, tail_first) + names_sort_items(x.order_by, 0, tail_first) + names_opt_expr(x.skip, tail_first) + names_opt_expr(x.limit, tail_first) + (names_patterns(x.patterns, 0, tail_first) + names_optional_matchs(x.optional_patterns, 0, tail_first) + names_opt_expr(x.where_clause, tail_first) + names_set_items(x.items, 0, tail_first) + names_intermediate_clauses(x.intermediate_clauses, 0, tail_first))
    } else {
        names_patterns(x.patterns, 0, tail_first) + names_optional_matchs(x.optional_patterns, 0, tail_first) + names_opt_expr(x.where_clause, tail_first) + names_set_items(x.items, 0, tail_first) + names_intermediate_clauses(x.intermediate_clauses, 0, tail_first) + (names_opt_return_clause(x.return_clause, tail_first) + names_sort_items(x.order_by, 0, tail_first) + names_opt_expr(x.skip, tail_first) + names_opt_expr(x.limit, tail_first))
    }
}

/// The parameters that a [`RemoveStatementView`] refers to.
pub open spec fn names_remove_statement(x: RemoveStatementView, tail_first: bool) -> Seq<Seq<char>>
    decreases x, 0int,
{
    if tail_first {
        names_opt_return_clause(x.return_clause, tail_first) + names_sort_items(x.order_by, 0, tail_first) + names_opt_expr(x.skip, tail_first) + names_opt_expr(x.limit, tail_first) + (names_patterns(x.patterns, 0, tail_first) + names_optional_matchs(x.optional_patterns, 0, tail_first) + names_opt_expr(x.where_clause, tail_first))
    } else {
        names_patterns(x.patterns, 0, tail_first) + names_optional_matchs(x.optional_patterns, 0, tail_first) + names_opt_expr(x.where_clause, tail_first) + (names_opt_return_clause(x.return_clause, tail_first) + names_sort_items(x.order_by, 0, tail_first) + names_opt_expr(x.skip, tail_first) + names_opt_expr(x.limit, tail_first))
    }
}

/// The parameters that a [`MergeStatementView`] refers to.
pub open spec fn names_merge_statement(x: MergeStatementView, tail_first: bool) -> Seq<Seq<char>>
    decreases x, 0int,
{
    if tail_first {
        names_opt_return_clause(x.return_clause, tail_first) + names_sort_items(x.order_by, 0, tail_first) + names_opt_expr(x.skip, tail_first) + names_opt_expr(x.limit, tail_first) + (names_pattern(x.pattern, tail_first) + names_set_items(x.on_create, 0, tail_first) + names_set_items(x.on_match, 0, tail_first))
    } else {
        names_pattern(x.pattern, tail_first) + names_set_items(x.on_create, 0, tail_first) + names_set_items(x.on_match, 0, tail_first) + (names_opt_return_clause(x.return_clause, tail_first) + names_sort_items(x.order_by, 0, tail_first) + names_opt_expr(x.skip, tail_first) + names_opt_expr(x.limit, tail_first))
    }
}

/// The parameters that a [`UnwindBodyView`] refers to.
pub open spec fn names_unwind_body(x: UnwindBodyView, tail_first: bool) -> Seq<Seq<char>>
    decreases x, 0int,
{
    match x {
        UnwindBodyView::Return { where_clause, intermediate_clauses, return_clause, order_by, skip, limit } => {
            names_opt_expr(where_clause, tail_first) + names_intermediate_clauses(intermediate_clauses, 0, tail_first) + names_return_clause(return_clause, tail_first) + names_sort_items(order_by, 0, tail_first) + names_opt_expr(skip, tail_first) + names_opt_expr(limit, tail_first)
        },
        UnwindBodyView::Create { patterns, intermediate_clauses, return_clause, order_by, skip, limit } => {
            if tail_first {
                names_opt_return_clause(return_clause, tail_first) + names_sort_items(order_by, 0, tail_first) + names_opt_expr(skip, tail_first) + names_opt_expr(limit, tail_first) + (names_patterns(patterns, 0, tail_first) + names_intermediate_clauses(intermediate_clauses, 0, tail_first))
            } else {
                names_patterns(patterns, 0, tail_first) + names_intermediate_clauses(intermediate_clauses, 0, tail_first) + (names_opt_return_clause(return_clause, tail_first) + names_sort_items(order_by, 0, tail_first) + names_opt_expr(skip, tail_first) + names_opt_expr(limit, tail_first))
            }
        },
    }
}

/// The parameters that a [`UnwindStatementView`] refers to.
pub open spec fn names_unwind_statement(x: UnwindStatementView, tail_first: bool) -> Seq<Seq<char>>
    decreases x, 0int,
{
    if tail_first {
        names_unwind_body(x.body, tail_first) + (names_expr(x.expr, tail_first))
    } else {
        names_expr(x.expr, tail_first) + (names_unwind_body(x.body, tail_first))
    }
}

/// The parameters that a [`ReturnStatementView`] refers to.
pub open spec fn names_return_statement(x: ReturnStatementView, tail_first: bool) -> Seq<Seq<char>>
    decreases x, 0int,
{
    names_return_clause(x.return_clause, tail_first) + names_sort_items(x.order_by, 0, tail_first) + names_opt_expr(x.skip, tail_first) + names_opt_expr(x.limit, tail_first)
}

/// The parameters that a [`ClauseView`] refers to.
pub open spec fn names_clause(x: ClauseView, tail_first: bool) -> Seq<Seq<char>>
    decreases x, 0int,
{
    match x {
        ClauseView::Match { patterns, optional_patterns, where_clause } => {
            names_patterns(patterns, 0, tail_first) + names_optional_matchs(optional_patterns, 0, tail_first) + names_opt_expr(where_clause, tail_first)
        },
        ClauseView::Create { patterns } => {
            names_patterns(patterns, 0, tail_first)
        },
        ClauseView::Merge { pattern, on_create, on_match } => {
            names_pattern(pattern, tail_first) + names_set_items(on_create, 0, tail_first) + names_set_items(on_match, 0, tail_first)
        },
        ClauseView::With(a) => names_with_clause(a, tail_first),
        ClauseView::Unwind(a) => names_unwind_clause(a, tail_first),
        ClauseView::SetItems { items } => {
            names_set_items(items, 0, tail_first)
        },
        ClauseView::Remove { .. } => Seq::empty(),
        ClauseView::Call { args, .. } => {
            names_exprs(args, 0, tail_first)
        },
        ClauseView::Delete { exprs, .. } => {
            names_exprs(exprs, 0, tail_first)
        },
    }
}

/// The parameters that a [`MultiClauseStatementView`] refers to.
pub open spec fn names_multi_clause_statement(x: MultiClauseStatementView, tail_first: bool) -> Seq<Seq<char>>
    decreases x, 0int,
{
    names_clauses(x.clauses, 0, tail_first) + names_opt_return_clause(x.return_clause, tail_first) + names_sort_items(x.order_by, 0, tail_first) + names_opt_expr(x.skip, tail_first) + names_opt_expr(x.limit, tail_first)
}

/// The parameters that a [`StatementView`] refers to.
pub open spec fn names_statement(x: StatementView, tail_first: bool) -> Seq<Seq<char>>
    decreases x, 0int,
{
    match x {
        StatementView::Match(a) => names_match_statement(a, tail_first),
        StatementView::Create(a) => names_create_statement(a, tail_first),
        StatementView::MatchCreate(a) => names_match_create_statement(a, tail_first),
        StatementView::MatchMerge(a) => names_match_merge_statement(a, tail_first),
        StatementView::Delete(a) => names_delete_statement(a, tail_first),
        StatementView::SetProps(a) => names_set_statement(a, tail_first),
        StatementView::Remove(a) => names_remove_statement(a, tail_first),
        StatementView::Merge(a) => names_merge_statement(a, tail_first),
        StatementView::Unwind(a) => names_unwind_statement(a, tail_first),
        StatementView::Return(a) => names_return_statement(a, tail_first),
        StatementView::MultiClause(a) => names_multi_clause_statement(a, tail_first),
        StatementView::Explain(a) => names_statement(*a, tail_first),
        StatementView::Union { statements, .. } => {
            names_statements(statements, 0, tail_first)
        },
        StatementView::Call { args, return_clause, order_by, skip, limit, .. } => {
            names_exprs(args, 0, tail_first) + names_opt_return_clause(return_clause, tail_first) + names_sort_items(order_by, 0, tail_first) + names_opt_box(skip, tail_first) + names_opt_box(limit, tail_first)
        },
    }
}

/// The parameters that a list refers to, from `i` on.
pub open spec fn names_exprs(s: Seq<ExprView>, i: int, tail_first: bool) -> Seq<Seq<char>>
    decreases s, s.len() - i,
{
    if 0 <= i < s.len() {
        names_expr(s[i], tail_first) + names_exprs(s, i + 1, tail_first)
    } else {
        Seq::empty()
    }
}

/// The parameters that a list refers to, from `i` on.
pub open spec fn names_alternatives(s: Seq<(ExprView, ExprView)>, i: int, tail_first: bool) -> Seq<Seq<char>>
    decreases s, s.len() - i,
{
    if 0 <= i < s.len() {
        (names_expr(s[i].0, tail_first) + names_expr(s[i].1, tail_first)) + names_alternatives(s, i + 1, tail_first)
    } else {
        Seq::empty()
    }
}

/// The parameters that a list refers to, from `i` on.
pub open spec fn names_patterns(s: Seq<PatternView>, i: int, tail_first: bool) -> Seq<Seq<char>>
    decreases s, s.len() - i,
{
    if 0 <= i < s.len() {
        names_pattern(s[i], tail_first) + names_patterns(s, i + 1, tail_first)
    } else {
        Seq::empty()
    }
}

/// The parameters that a list refers to, from `i` on.
pub open spec fn names_pairs(s: Seq<(Seq<char>, ExprView)>, i: int, tail_first: bool) -> Seq<Seq<char>>
    decreases s, s.len() - i,
{
    if 0 <= i < s.len() {
        names_expr(s[i].1, tail_first) + names_pairs(s, i + 1, tail_first)
    } else {
        Seq::empty()
    }
}

/// The parameters that a list refers to, from `i` on.
pub open spec fn names_pattern_elements(s: Seq<PatternElementView>, i: int, tail_first: bool) -> Seq<Seq<char>>
    decreases s, s.len() - i,
{
    if 0 <= i < s.len() {
        names_pattern_element(s[i], tail_first) + names_pattern_elements(s, i + 1, tail_first)
    } else {
        Seq::empty()
    }
}

/// The parameters that a list refers to, from `i` on.
pub open spec fn names_return_items(s: Seq<ReturnItemView>, i: int, tail_first: bool) -> Seq<Seq<char>>
    decreases s, s.len() - i,
{
    if 0 <= i < s.len() {
        names_return_item(s[i], tail_first) + names_return_items(s, i + 1, tail_first)
    } else {
        Seq::empty()
    }
}

/// The parameters that a list refers to, from `i` on.
pub open spec fn names_sort_items(s: Seq<SortItemView>, i: int, tail_first: bool) -> Seq<Seq<char>>
    decreases s, s.len() - i,
{
    if 0 <= i < s.len() {
        names_sort_item(s[i], tail_first) + names_sort_items(s, i + 1, tail_first)
    } else {
        Seq::empty()
    }
}

/// The parameters that a list refers to, from `i` on.
pub open spec fn names_optional_matchs(s: Seq<OptionalMatchView>, i: int, tail_first: bool) -> Seq<Seq<char>>
    decreases s, s.len() - i,
{
    if 0 <= i < s.len() {
        names_optional_match(s[i], tail_first) + names_optional_matchs(s, i + 1, tail_first)
    } else {
        Seq::empty()
    }
}

/// The parameters that a list refers to, from `i` on.
pub open spec fn names_intermediate_clauses(s: Seq<IntermediateClauseView>, i: int, tail_first: bool) -> Seq<Seq<char>>
    decreases s, s.len() - i,
{
    if 0 <= i < s.len() {
        names_intermediate_clause(s[i], tail_first) + names_intermediate_clauses(s, i + 1, tail_first)
    } else {
        Seq::empty()
    }
}

/// The parameters that a list refers to, from `i` on.
pub open spec fn names_set_items(s: Seq<SetItemView>, i: int, tail_first: bool) -> Seq<Seq<char>>
    decreases s, s.len() - i,
{
    if 0 <= i < s.len() {
        names_set_item(s[i], tail_first) + names_set_items(s, i + 1, tail_first)
    } else {
        Seq::empty()
    }
}

/// The parameters that a list refers to, from `i` on.
pub open spec fn names_clauses(s: Seq<ClauseView>, i: int, tail_first: bool) -> Seq<Seq<char>>
    decreases s, s.len() - i,
{
    if 0 <= i < s.len() {
        names_clause(s[i], tail_first) + names_clauses(s, i + 1, tail_first)
    } else {
        Seq::empty()
    }
}

/// The parameters that a list refers to, from `i` on.
pub open spec fn names_statements(s: Seq<StatementView>, i: int, tail_first: bool) -> Seq<Seq<char>>
    decreases s, s.len() - i,
{
    if 0 <= i < s.len() {
        names_statement(s[i], tail_first) + names_statements(s, i + 1, tail_first)
    } else {
        Seq::empty()
    }
}

/// The parameters that an optional part refers to.
pub open spec fn names_opt_box(o: Option<Box<ExprView>>, tail_first: bool) -> Seq<Seq<char>>
    decreases o, 0int,
{
    match o {
        Some(y) => names_expr(*y, tail_first),
        None => Seq::empty(),
    }
}

/// The parameters that an optional part refers to.
pub open spec fn names_opt_expr(o: Option<ExprView>, tail_first: bool) -> Seq<Seq<char>>
    decreases o, 0int,
{
    match o {
        Some(y) => names_expr(y, tail_first),
        None => Seq::empty(),
    }
}

/// The parameters that an optional part refers to.
pub open spec fn names_opt_return_clause(o: Option<ReturnClauseView>, tail_first: bool) -> Seq<Seq<char>>
    decreases o, 0int,
{
    match o {
        Some(y) => names_return_clause(y, tail_first),
        None => Seq::empty(),
    }
}

/// The same [`ExprView`] with each parameter replaced by its value.
pub open spec fn bound_expr(x: ExprView, ps: Seq<(Seq<char>, ValueView)>) -> ExprView
    decreases x,
{
    match x.kind {
        ExprKindView::Parameter(name) => match assoc::lookup(ps, name) {
            Some(v) => value_expr(v, x.span),
            None => x,
        },
        kind => ExprView { kind: bound_expr_kind(kind, ps), span: x.span },
    }
}

/// The same [`ExprKindView`] with each parameter replaced by its value.
pub open spec fn bound_expr_kind(x: ExprKindView, ps: Seq<(Seq<char>, ValueView)>) -> ExprKindView
    decreases x,
{
    match x {
        ExprKindView::Literal(..) => x,
        ExprKindView::Property(..) => x,
        ExprKindView::Variable(..) => x,
        ExprKindView::HasLabel(..) => x,
        ExprKindView::PatternPredicate(a) => ExprKindView::PatternPredicate(bound_pattern(a, ps)),
        ExprKindView::Star => x,
        ExprKindView::Parameter(..) => x,
        ExprKindView::BinaryOp { left, op, right } => ExprKindView::BinaryOp {
            left: Box::new(bound_expr(*left, ps)),
            op,
            right: Box::new(bound_expr(*right, ps)),
        },
        ExprKindView::Not(a) => ExprKindView::Not(Box::new(bound_expr(*a, ps))),
        ExprKindView::IsNull(a) => ExprKindView::IsNull(Box::new(bound_expr(*a, ps))),
        ExprKindView::IsNotNull(a) => ExprKindView::IsNotNull(Box::new(bound_expr(*a, ps))),
        ExprKindView::FunctionCall { name, args, distinct, original_text } => ExprKindView::FunctionCall {
            name,
            args: bound_exprs(args, ps),
            distinct,
            original_text,
        },
        ExprKindView::Case { operand, alternatives, default } => ExprKindView::Case {
            operand: bound_opt_box(operand, ps),
            alternatives: bound_alternatives(alternatives, ps),
            default: bound_opt_box(default, ps),
        },
        ExprKindView::List(a) => ExprKindView::List(bound_exprs(a, ps)),
        ExprKindView::ListComprehension { variable, list_expr, filter, map_expr } => ExprKindView::ListComprehension {
            variable,
            list_expr: Box::new(bound_expr(*list_expr, ps)),
            filter: bound_opt_box(filter, ps),
            map_expr: bound_opt_box(map_expr, ps),
        },
        ExprKindView::PatternComprehension { path_variable, pattern, where_clause, map_expr } => ExprKindView::PatternComprehension {
            path_variable,
            pattern: bound_pattern(pattern, ps),
            where_clause: bound_opt_box(where_clause, ps),
            map_expr: Box::new(bound_expr(*map_expr, ps)),
        },
        ExprKindView::Quantifier { kind, variable, list_expr, predicate } => ExprKindView::Quantifier {
            kind,
            variable,
            list_expr: Box::new(bound_expr(*list_expr, ps)),
            predicate: Box::new(bound_expr(*predicate, ps)),
        },
        ExprKindView::Exists { patterns, where_clause } => ExprKindView::Exists {
            patterns: bound_patterns(patterns, ps),
            where_clause: bound_opt_box(where_clause, ps),
        },
        ExprKindView::ExistsSubquery(a) => ExprKindView::ExistsSubquery(Box::new(bound_statement(*a, ps))),
        ExprKindView::MapLiteral(a) => ExprKindView::MapLiteral(bound_pairs(a, ps)),
        ExprKindView::Index { expr, index } => ExprKindView::Index {
            expr: Box::new(bound_expr(*expr, ps)),
            index: Box::new(bound_expr(*index, ps)),
        },
        ExprKindView::DotAccess { expr, key } => ExprKindView::DotAccess {
            expr: Box::new(bound_expr(*expr, ps)),
            key,
        },
        ExprKindView::Slice { expr, start, end } => ExprKindView::Slice {
            expr: Box::new(bound_expr(*expr, ps)),
            start: bound_opt_box(start, ps),
            end: bound_opt_box(end, ps),
        },
    }
}

/// The same [`PatternView`] with each parameter replaced by its value.
pub open spec fn bound_pattern(x: PatternView, ps: Seq<(Seq<char>, ValueView)>) -> PatternView
    decreases x,
{
    PatternView {
        elements: bound_pattern_elements(x.elements, ps),
        ..x
    }
}

/// The same [`PatternElementView`] with each parameter replaced by its value.
pub open spec fn bound_pattern_element(x: PatternElementView, ps: Seq<(Seq<char>, ValueView)>) -> PatternElementView
    decreases x,
{
    match x {
        PatternElementView::Node(a) => PatternElementView::Node(bound_node_pattern(a, ps)),
        PatternElementView::Relationship(a) => PatternElementView::Relationship(bound_rel_pattern(a, ps)),
    }
}

/// The same [`NodePatternView`] with each parameter replaced by its value.
pub open spec fn bound_node_pattern(x: NodePatternView, ps: Seq<(Seq<char>, ValueView)>) -> NodePatternView
    decreases x,
{
    NodePatternView {
        properties: bound_pairs(x.properties, ps),
        ..x
    }
}

/// The same [`RelPatternView`] with each parameter replaced by its value.
pub open spec fn bound_rel_pattern(x: RelPatternView, ps: Seq<(Seq<char>, ValueView)>) -> RelPatternView
    decreases x,
{
    RelPatternView {
        properties: bound_pairs(x.properties, ps),
        ..x
    }
}

/// The same [`ReturnItemView`] with each parameter replaced by its value.
pub open spec fn bound_return_item(x: ReturnItemView, ps: Seq<(Seq<char>, ValueView)>) -> ReturnItemView
    decreases x,
{
    ReturnItemView {
        expr: bound_expr(x.expr, ps),
        ..x
    }
}

/// The same [`ReturnClauseView`] with each parameter replaced by its value.
pub open spec fn bound_return_clause(x: ReturnClauseView, ps: Seq<(Seq<char>, ValueView)>) -> ReturnClauseView
    decreases x,
{
    ReturnClauseView {
        items: bound_return_items(x.items, ps),
        ..x
    }
}

/// The same [`SortItemView`] with each parameter replaced by its value.
pub open spec fn bound_sort_item(x: SortItemView, ps: Seq<(Seq<char>, ValueView)>) -> SortItemView
    decreases x,
{
    SortItemView {
        expr: bound_expr(x.expr, ps),
        ..x
    }
}

/// The same [`OptionalMatchView`] with each parameter replaced by its value.
pub open spec fn bound_optional_match(x: OptionalMatchView, ps: Seq<(Seq<char>, ValueView)>) -> OptionalMatchView
    decreases x,
{
    OptionalMatchView {
        patterns: bound_patterns(x.patterns, ps),
        where_clause: bound_opt_expr(x.where_clause, ps),
    }
}

/// The same [`WithClauseView`] with each parameter replaced by its value.
pub open spec fn bound_with_clause(x: WithClauseView, ps: Seq<(Seq<char>, ValueView)>) -> WithClauseView
    decreases x,
{
    WithClauseView {
        items: bound_return_items(x.items, ps),
        order_by: bound_sort_items(x.order_by, ps),
        skip: bound_opt_expr(x.skip, ps),
        limit: bound_opt_expr(x.limit, ps),
        where_clause: bound_opt_expr(x.where_clause, ps),
        ..x
    }
}

/// The same [`UnwindClauseView`] with each parameter replaced by its value.
pub open spec fn bound_unwind_clause(x: UnwindClauseView, ps: Seq<(Seq<char>, ValueView)>) -> UnwindClauseView
    decreases x,
{
    UnwindClauseView {
        expr: bound_expr(x.expr, ps),
        ..x
    }
}

/// The same [`IntermediateMatchView`] with each parameter replaced by its value.
pub open spec fn bound_intermediate_match(x: IntermediateMatchView, ps: Seq<(Seq<char>, ValueView)>) -> IntermediateMatchView
    decreases x,
{
    IntermediateMatchView {
        patterns: bound_patterns(x.patterns, ps),
        optional_patterns: bound_optional_matchs(x.optional_patterns, ps),
        where_clause: bound_opt_expr(x.where_clause, ps),
    }
}

/// The same [`IntermediateClauseView`] with each parameter replaced by its value.
pub open spec fn bound_intermediate_clause(x: IntermediateClauseView, ps: Seq<(Seq<char>, ValueView)>) -> IntermediateClauseView
    decreases x,
{
    match x {
        IntermediateClauseView::With(a) => IntermediateClauseView::With(bound_with_clause(a, ps)),
        IntermediateClauseView::Unwind(a) => IntermediateClauseView::Unwind(bound_unwind_clause(a, ps)),
        IntermediateClauseView::Match(a) => IntermediateClauseView::Match(bound_intermediate_match(a, ps)),
    }
}

/// The same [`AssignmentView`] with each parameter replaced by its value.
pub open spec fn bound_assignment(x: AssignmentView, ps: Seq<(Seq<char>, ValueView)>) -> AssignmentView
    decreases x,
{
    AssignmentView {
        value: bound_expr(x.value, ps),
        ..x
    }
}

/// The same [`SetItemView`] with each parameter replaced by its value.
pub open spec fn bound_set_item(x: SetItemView, ps: Seq<(Seq<char>, ValueView)>) -> SetItemView
    decreases x,
{
    match x {
        SetItemView::Property(a) => SetItemView::Property(bound_assignment(a, ps)),
        SetItemView::Label { .. } => x,
        SetItemView::MapOverwrite { variable, value } => SetItemView::MapOverwrite {
            variable,
            value: bound_expr(value, ps),
        },
        SetItemView::MapMerge { variable, value } => SetItemView::MapMerge {
            variable,
            value: bound_expr(value, ps),
        },
    }
}

/// The same [`MatchStatementView`] with each parameter replaced by its value.
pub open spec fn bound_match_statement(x: MatchStatementView, ps: Seq<(Seq<char>, ValueView)>) -> MatchStatementView
    decreases x,
{
    MatchStatementView {
        patterns: bound_patterns(x.patterns, ps),
        optional_patterns: bound_optional_matchs(x.optional_patterns, ps),
        where_clause: bound_opt_expr(x.where_clause, ps),
        intermediate_clauses: bound_intermediate_clauses(x.intermediate_clauses, ps),
        return_clause: bound_return_clause(x.return_clause, ps),
        order_by: bound_sort_items(x.order_by, ps),
        skip: bound_opt_expr(x.skip, ps),
        limit: bound_opt_expr(x.limit, ps),
    }
}

/// The same [`CreateStatementView`] with each parameter replaced by its value.
pub open spec fn bound_create_statement(x: CreateStatementView, ps: Seq<(Seq<char>, ValueView)>) -> CreateStatementView
    decreases x,
{
    CreateStatementView {
        patterns: bound_patterns(x.patterns, ps),
        return_clause: bound_opt_return_clause(x.return_clause, ps),
        order_by: bound_sort_items(x.order_by, ps),
        skip: bound_opt_expr(x.skip, ps),
        limit: bound_opt_expr(x.limit, ps),
    }
}

/// The same [`MatchCreateStatementView`] with each parameter replaced by its value.
pub open spec fn bound_match_create_statement(x: MatchCreateStatementView, ps: Seq<(Seq<char>, ValueView)>) -> MatchCreateStatementView
    decreases x,
{
    MatchCreateStatementView {
        patterns: bound_patterns(x.patterns, ps),
        where_clause: bound_opt_expr(x.where_clause, ps),
        create_patterns: bound_patterns(x.create_patterns, ps),
        return_clause: bound_opt_return_clause(x.return_clause, ps),
        order_by: bound_sort_items(x.order_by, ps),
        skip: bound_opt_expr(x.skip, ps),
        limit: bound_opt_expr(x.limit, ps),
    }
}

/// The same [`MatchMergeStatementView`] with each parameter replaced by its value.
pub open spec fn bound_match_merge_statement(x: MatchMergeStatementView, ps: Seq<(Seq<char>, ValueView)>) -> MatchMergeStatementView
    decreases x,
{
    MatchMergeStatementView {
        patterns: bound_patterns(x.patterns, ps),
        where_clause: bound_opt_expr(x.where_clause, ps),
        merge_pattern: bound_pattern(x.merge_pattern, ps),
        on_create: bound_set_items(x.on_create, ps),
        on_match: bound_set_items(x.on_match, ps),
        return_clause: bound_opt_return_clause(x.return_clause, ps),
        order_by: bound_sort_items(x.order_by, ps),
        skip: bound_opt_expr(x.skip, ps),
        limit: bound_opt_expr(x.limit, ps),
    }
}

/// The same [`DeleteStatementView`] with each parameter replaced by its value.
pub open spec fn bound_delete_statement(x: DeleteStatementView, ps: Seq<(Seq<char>, ValueView)>) -> DeleteStatementView
    decreases x,
{
    DeleteStatementView {
        patterns: bound_patterns(x.patterns, ps),
        optional_patterns: bound_optional_matchs(x.optional_patterns, ps),
        where_clause: bound_opt_expr(x.where_clause, ps),
        exprs: bound_exprs(x.exprs, ps),
        return_clause: bound_opt_return_clause(x.return_clause, ps),
        order_by: bound_sort_items(x.order_by, ps),
        skip: bound_opt_expr(x.skip, ps),
        limit: bound_opt_expr(x.limit, ps),
        ..x
    }
}

/// The same [`SetStatementView`] with each parameter replaced by its value.
pub open spec fn bound_set_statement(x: SetStatementView, ps: Seq<(Seq<char>, ValueView)>) -> SetStatementView
    decreases x,
{
    SetStatementView {
        patterns: bound_patterns(x.patterns, ps),
        optional_patterns: bound_optional_matchs(x.optional_patterns, ps),
        where_clause: bound_opt_expr(x.where_clause, ps),
        items: bound_set_items(x.items, ps),
        intermediate_clauses: bound_intermediate_clauses(x.intermediate_clauses, ps),
        return_clause: bound_opt_return_clause(x.return_clause, ps),
        order_by: bound_sort_items(x.order_by, ps),
        skip: bound_opt_expr(x.skip, ps),
        limit: bound_opt_expr(x.limit, ps),
    }
}

/// The same [`RemoveStatementView`] with each parameter replaced by its value.
pub open spec fn bound_remove_statement(x: RemoveStatementView, ps: Seq<(Seq<char>, ValueView)>) -> RemoveStatementView
    decreases x,
{
    RemoveStatementView {
        patterns: bound_patterns(x.patterns, ps),
        optional_patterns: bound_optional_matchs(x.optional_patterns, ps),
        where_clause: bound_opt_expr(x.where_clause, ps),
        return_clause: bound_opt_return_clause(x.return_clause, ps),
        order_by: bound_sort_items(x.order_by, ps),
        skip: bound_opt_expr(x.skip, ps),
        limit: bound_opt_expr(x.limit, ps),
        ..x
    }
}

/// The same [`MergeStatementView`] with each parameter replaced by its value.
pub open spec fn bound_merge_statement(x: MergeStatementView, ps: Seq<(Seq<char>, ValueView)>) -> MergeStatementView
    decreases x,
{
    MergeStatementView {
        pattern: bound_pattern(x.pattern, ps),
        on_create: bound_set_items(x.on_create, ps),
        on_match: bound_set_items(x.on_match, ps),
        return_clause: bound_opt_return_clause(x.return_clause, ps),
        order_by: bound_sort_items(x.order_by, ps),
        skip: bound_opt_expr(x.skip, ps),
        limit: bound_opt_expr(x.limit, ps),
    }
}

/// The same [`UnwindBodyView`] with each parameter replaced by its value.
pub open spec fn bound_unwind_body(x: UnwindBodyView, ps: Seq<(Seq<char>, ValueView)>) -> UnwindBodyView
    decreases x,
{
    match x {
        UnwindBodyView::Return { where_clause, intermediate_clauses, return_clause, order_by, skip, limit } => UnwindBodyView::Return {
            where_clause: bound_opt_expr(where_clause, ps),
            intermediate_clauses: bound_intermediate_clauses(intermediate_clauses, ps),
            return_clause: bound_return_clause(return_clause, ps),
            order_by: bound_sort_items(order_by, ps),
            skip: bound_opt_expr(skip, ps),
            limit: bound_opt_expr(limit, ps),
        },
        UnwindBodyView::Create { patterns, intermediate_clauses, return_clause, order_by, skip, limit } => UnwindBodyView::Create {
            patterns: bound_patterns(patterns, ps),
            intermediate_clauses: bound_intermediate_clauses(intermediate_clauses, ps),
            return_clause: bound_opt_return_clause(return_clause, ps),
            order_by: bound_sort_items(order_by, ps),
            skip: bound_opt_expr(skip, ps),
            limit: bound_opt_expr(limit, ps),
        },
    }
}

/// The same [`UnwindStatementView`] with each parameter replaced by its value.
pub open spec fn bound_unwind_statement(x: UnwindStatementView, ps: Seq<(Seq<char>, ValueView)>) -> UnwindStatementView
    decreases x,
{
    UnwindStatementView {
        expr: bound_expr(x.expr, ps),
        body: bound_unwind_body(x.body, ps),
        ..x
    }
}

/// The same [`ReturnStatementView`] with each parameter replaced by its value.
pub open spec fn bound_return_statement(x: ReturnStatementView, ps: Seq<(Seq<char>, ValueView)>) -> ReturnStatementView
    decreases x,
{
    ReturnStatementView {
        return_clause: bound_return_clause(x.return_clause, ps),
        order_by: bound_sort_items(x.order_by, ps),
        skip: bound_opt_expr(x.skip, ps),
        limit: bound_opt_expr(x.limit, ps),
    }
}

/// The same [`ClauseView`] with each parameter replaced by its value.
pub open spec fn bound_clause(x: ClauseView, ps: Seq<(Seq<char>, ValueView)>) -> ClauseView
    decreases x,
{
    match x {
        ClauseView::Match { patterns, optional_patterns, where_clause } => ClauseView::Match {
            patterns: bound_patterns(patterns, ps),
            optional_patterns: bound_optional_matchs(optional_patterns, ps),
            where_clause: bound_opt_expr(where_clause, ps),
        },
        ClauseView::Create { patterns } => ClauseView::Create {
            patterns: bound_patterns(patterns, ps),
        },
        ClauseView::Merge { pattern, on_create, on_match } => ClauseView::Merge {
            pattern: bound_pattern(pattern, ps),
            on_create: bound_set_items(on_create, ps),
            on_match: bound_set_items(on_match, ps),
        },
        ClauseView::With(a) => ClauseView::With(bound_with_clause(a, ps)),
        ClauseView::Unwind(a) => ClauseView::Unwind(bound_unwind_clause(a, ps)),
        ClauseView::SetItems { items } => ClauseView::SetItems {
            items: bound_set_items(items, ps),
        },
        ClauseView::Remove { .. } => x,
        ClauseView::Call { procedure_name, args, implicit_args, yield_items, yield_star } => ClauseView::Call {
            procedure_name,
            args: bound_exprs(args, ps),
            implicit_args,
            yield_items,
            yield_star,
        },
        ClauseView::Delete { exprs, detach } => ClauseView::Delete {
            exprs: bound_exprs(exprs, ps),
            detach,
        },
    }
}

/// The same [`MultiClauseStatementView`] with each parameter replaced by its value.
pub open spec fn bound_multi_clause_statement(x: MultiClauseStatementView, ps: Seq<(Seq<char>, ValueView)>) -> MultiClauseStatementView
    decreases x,
{
    MultiClauseStatementView {
        clauses: bound_clauses(x.clauses, ps),
        return_clause: bound_opt_return_clause(x.return_clause, ps),
        order_by: bound_sort_items(x.order_by, ps),
        skip: bound_opt_expr(x.skip, ps),
        limit: bound_opt_expr(x.limit, ps),
    }
}

/// The same [`StatementView`] with each parameter replaced by its value.
pub open spec fn bound_statement(x: StatementView, ps: Seq<(Seq<char>, ValueView)>) -> StatementView
    decreases x,
{
    match x {
        StatementView::Match(a) => StatementView::Match(bound_match_statement(a, ps)),
        StatementView::Create(a) => StatementView::Create(bound_create_statement(a, ps)),
        StatementView::MatchCreate(a) => StatementView::MatchCreate(bound_match_create_statement(a, ps)),
        StatementView::MatchMerge(a) => StatementView::MatchMerge(bound_match_merge_statement(a, ps)),
        StatementView::Delete(a) => StatementView::Delete(bound_delete_statement(a, ps)),
        StatementView::SetProps(a) => StatementView::SetProps(bound_set_statement(a, ps)),
        StatementView::Remove(a) => StatementView::Remove(bound_remove_statement(a, ps)),
        StatementView::Merge(a) => StatementView::Merge(bound_merge_statement(a, ps)),
        StatementView::Unwind(a) => StatementView::Unwind(bound_unwind_statement(a, ps)),
        StatementView::Return(a) => StatementView::Return(bound_return_statement(a, ps)),
        StatementView::MultiClause(a) => StatementView::MultiClause(bound_multi_clause_statement(a, ps)),
        StatementView::Explain(a) => StatementView::Explain(Box::new(bound_statement(*a, ps))),
        StatementView::Union { statements, all } => StatementView::Union {
            statements: bound_statements(statements, ps),
            all,
        },
        StatementView::Call { procedure_name, args, implicit_args, yield_items, yield_star, return_clause, order_by, skip, limit } => StatementView::Call {
            procedure_name,
            args: bound_exprs(args, ps),
            implicit_args,
            yield_items,
            yield_star,
            return_clause: bound_opt_return_clause(return_clause, ps),
            order_by: bound_sort_items(order_by, ps),
            skip: bound_opt_box(skip, ps),
            limit: bound_opt_box(limit, ps),
        },
    }
}

/// The same list with each parameter replaced by its value.
pub open spec fn bound_exprs(s: Seq<ExprView>, ps: Seq<(Seq<char>, ValueView)>) -> Seq<
    ExprView,
>
    decreases s,
{
    Seq::new(
        s.len(),
        |i: int| if 0 <= i < s.len() { bound_expr(s[i], ps) } else { arbitrary() },
    )
}

/// The same list with each parameter replaced by its value.
pub open spec fn bound_alternatives(s: Seq<(ExprView, ExprView)>, ps: Seq<(Seq<char>, ValueView)>) -> Seq<
    (ExprView, ExprView),
>
    decreases s,
{
    Seq::new(
        s.len(),
        |i: int| if 0 <= i < s.len() { (bound_expr(s[i].0, ps), bound_expr(s[i].1, ps)) } else { arbitrary() },
    )
}

/// The same list with each parameter replaced by its value.
pub open spec fn bound_patterns(s: Seq<PatternView>, ps: Seq<(Seq<char>, ValueView)>) -> Seq<
    PatternView,
>
    decreases s,
{
    Seq::new(
        s.len(),
        |i: int| if 0 <= i < s.len() { bound_pattern(s[i], ps) } else { arbitrary() },
    )
}

/// The same list with each parameter replaced by its value.
pub open spec fn bound_pairs(s: Seq<(Seq<char>, ExprView)>, ps: Seq<(Seq<char>, ValueView)>) -> Seq<
    (Seq<char>, ExprView),
>
    decreases s,
{
    Seq::new(
        s.len(),
        |i: int| if 0 <= i < s.len() { (s[i].0, bound_expr(s[i].1, ps)) } else { arbitrary() },
    )
}

/// The same list with each parameter replaced by its value.
pub open spec fn bound_pattern_elements(s: Seq<PatternElementView>, ps: Seq<(Seq<char>, ValueView)>) -> Seq<
    PatternElementView,
>
    decreases s,
{
    Seq::new(
        s.len(),
        |i: int| if 0 <= i < s.len() { bound_pattern_element(s[i], ps) } else { arbitrary() },
    )
}

/// The same list with each parameter replaced by its value.
pub open spec fn bound_return_items(s: Seq<ReturnItemView>, ps: Seq<(Seq<char>, ValueView)>) -> Seq<
    ReturnItemView,
>
    decreases s,
{
    Seq::new(
        s.len(),
        |i: int| if 0 <= i < s.len() { bound_return_item(s[i], ps) } else { arbitrary() },
    )
}

/// The same list with each parameter replaced by its value.
pub open spec fn bound_sort_items(s: Seq<SortItemView>, ps: Seq<(Seq<char>, ValueView)>) -> Seq<
    SortItemView,
>
    decreases s,
{
    Seq::new(
        s.len(),
        |i: int| if 0 <= i < s.len() { bound_sort_item(s[i], ps) } else { arbitrary() },
    )
}

/// The same list with each parameter replaced by its value.
pub open spec fn bound_optional_matchs(s: Seq<OptionalMatchView>, ps: Seq<(Seq<char>, ValueView)>) -> Seq<
    OptionalMatchView,
>
    decreases s,
{
    Seq::new(
        s.len(),
        |i: int| if 0 <= i < s.len() { bound_optional_match(s[i], ps) } else { arbitrary() },
    )
}

/// The same list with each parameter replaced by its value.
pub open spec fn bound_intermediate_clauses(s: Seq<IntermediateClauseView>, ps: Seq<(Seq<char>, ValueView)>) -> Seq<
    IntermediateClauseView,
>
    decreases s,
{
    Seq::new(
        s.len(),
        |i: int| if 0 <= i < s.len() { bound_intermediate_clause(s[i], ps) } else { arbitrary() },
    )
}

/// The same list with each parameter replaced by its value.
pub open spec fn bound_set_items(s: Seq<SetItemView>, ps: Seq<(Seq<char>, ValueView)>) -> Seq<
    SetItemView,
>
    decreases s,
{
    Seq::new(
        s.len(),
        |i: int| if 0 <= i < s.len() { bound_set_item(s[i], ps) } else { arbitrary() },
    )
}

/// The same list with each parameter replaced by its value.
pub open spec fn bound_clauses(s: Seq<ClauseView>, ps: Seq<(Seq<char>, ValueView)>) -> Seq<
    ClauseView,
>
    decreases s,
{
    Seq::new(
        s.len(),
        |i: int| if 0 <= i < s.len() { bound_clause(s[i], ps) } else { arbitrary() },
    )
}

/// The same list with each parameter replaced by its value.
pub open spec fn bound_statements(s: Seq<StatementView>, ps: Seq<(Seq<char>, ValueView)>) -> Seq<
    StatementView,
>
    decreases s,
{
    Seq::new(
        s.len(),
        |i: int| if 0 <= i < s.len() { bound_statement(s[i], ps) } else { arbitrary() },
    )
}

/// The same part, if there is one, with each parameter replaced by its value.
pub open spec fn bound_opt_box(o: Option<Box<ExprView>>, ps: Seq<(Seq<char>, ValueView)>) -> Option<
    Box<ExprView>,
>
    decreases o,
{
    match o {
        Some(y) => Some(Box::new(bound_expr(*y, ps))),
        None => None,
    }
}

/// The same part, if there is one, with each parameter replaced by its value.
pub open spec fn bound_opt_expr(o: Option<ExprView>, ps: Seq<(Seq<char>, ValueView)>) -> Option<
    ExprView,
>
    decreases o,
{
    match o {
        Some(y) => Some(bound_expr(y, ps)),
        None => None,
    }
}

/// The same part, if there is one, with each parameter replaced by its value.
pub open spec fn bound_opt_return_clause(o: Option<ReturnClauseView>, ps: Seq<(Seq<char>, ValueView)>) -> Option<
    ReturnClauseView,
>
    decreases o,
{
    match o {
        Some(y) => Some(bound_return_clause(y, ps)),
        None => None,
    }
}

} // verus!
