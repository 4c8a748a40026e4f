//! Checking that every parameter of a statement is bound.
use super::reference;
use crate::assoc;
use crate::assoc::AssocList;
use crate::ast::{
    Assignment, Clause, CreateStatement, DeleteStatement, Expr, ExprKind, IntermediateClause,
    IntermediateMatch, MatchCreateStatement, MatchMergeStatement, MatchStatement,
    MergeStatement, MultiClauseStatement, NodePattern, OptionalMatch, Pattern, PatternElement,
    RelPattern, RemoveStatement, ReturnClause, ReturnItem, ReturnStatement, SetItem,
    SetStatement, SortItem, Statement, UnwindBody, UnwindClause, UnwindStatement, WithClause,
};
use crate::ast_model;
use crate::text;
use crate::types;
use crate::types::{GraphError, QueryPhase};
use crate::value;
use crate::value::Value;
use vstd::prelude::*;

verus! {

/// Looking up a name among parameters looks it up in what they say.
pub proof fn lemma_params_view(ps: Seq<(String, Value)>, name: Seq<char>)
    ensures
        assoc::place(assoc::keys_of(ps), name) < ps.len() <==> assoc::lookup(
            value::props_view(ps),
            name,
        ) is Some,
        assoc::place(assoc::keys_of(ps), name) < ps.len() ==> assoc::lookup(
            value::props_view(ps),
            name,
        ) == Some(ps[assoc::place(assoc::keys_of(ps), name) as int].1@),
{
    assoc::lemma_same_keys(ps, value::props_view(ps));
}

/// Checks one parameter.
fn check_param(name: &String, params: &AssocList<Value>) -> (r: Result<(), GraphError>)
    ensures
        types::verdict(r) == reference::checked(
            seq![name@],
            value::props_view(params.entries@),
        ),
{
    proof {
        lemma_params_view(params.entries@, name@);
        assert(seq![name@].drop_first() =~= Seq::<Seq<char>>::empty());
        reveal_with_fuel(reference::first_fault, 2);
    }
    if params.contains_key(name.as_str()) {
        Ok(())
    } else {
        Err(
            GraphError::argument(
                QueryPhase::SemanticAnalysis,
                text::cat("missing parameter: $", name.as_str()),
            ),
        )
    }
}

/// Checks the parameters that a [`Expr`] refers to.
fn validate_expr(x: &Expr, params: &AssocList<Value>) -> (r: Result<(), GraphError>)
    ensures
        types::verdict(r) == reference::checked(
            reference::names_expr(x@, false),
            value::props_view(params.entries@),
        ),
    decreases x, 1int,
{
    validate_expr_kind(&x.kind, params)
}

/// Checks the parameters that a [`ExprKind`] refers to.
fn validate_expr_kind(x: &ExprKind, params: &AssocList<Value>) -> (r: Result<(), GraphError>)
    ensures
        types::verdict(r) == reference::checked(
            reference::names_expr_kind(x@, false),
            value::props_view(params.entries@),
        ),
    decreases x, 1int,
{
    match x {
        ExprKind::Literal(..) => Ok(()),
        ExprKind::Property(..) => Ok(()),
        ExprKind::Variable(..) => Ok(()),
        ExprKind::HasLabel(..) => Ok(()),
        ExprKind::PatternPredicate(..) => validate_expr_kind_pattern_predicate(x, params),
        ExprKind::Star => Ok(()),
        ExprKind::Parameter(name) => check_param(name, params),
        ExprKind::BinaryOp { .. } => validate_expr_kind_binary_op(x, params),
        ExprKind::Not(..) => validate_expr_kind_not(x, params),
        ExprKind::IsNull(..) => validate_expr_kind_is_null(x, params),
        ExprKind::IsNotNull(..) => validate_expr_kind_is_not_null(x, params),
        ExprKind::FunctionCall { .. } => validate_expr_kind_function_call(x, params),
        ExprKind::Case { .. } => validate_expr_kind_case(x, params),
        ExprKind::List(..) => validate_expr_kind_list(x, params),
        ExprKind::ListComprehension { .. } => validate_expr_kind_list_comprehension(x, params),
        ExprKind::PatternComprehension { .. } => validate_expr_kind_pattern_comprehension(x, params),
        ExprKind::Quantifier { .. } => validate_expr_kind_quantifier(x, params),
        ExprKind::Exists { .. } => validate_expr_kind_exists(x, params),
        ExprKind::ExistsSubquery(..) => validate_expr_kind_exists_subquery(x, params),
        ExprKind::MapLiteral(..) => validate_expr_kind_map_literal(x, params),
        ExprKind::Index { .. } => validate_expr_kind_index(x, params),
        ExprKind::DotAccess { .. } => validate_expr_kind_dot_access(x, params),
        ExprKind::Slice { .. } => validate_expr_kind_slice(x, params),
    }
}

/// Checks the parameters that a [`Pattern`] refers to.
fn validate_pattern(x: &Pattern, params: &AssocList<Value>) -> (r: Result<(), GraphError>)
    ensures
        types::verdict(r) == reference::checked(
            reference::names_pattern(x@, false),
            value::props_view(params.entries@),
        ),
    decreases x, 1int,
{
    validate_pattern_elements(&x.elements, params)
}

/// Checks the parameters that a [`PatternElement`] refers to.
fn validate_pattern_element(x: &PatternElement, params: &AssocList<Value>) -> (r: Result<(), GraphError>)
    ensures
        types::verdict(r) == reference::checked(
            reference::names_pattern_element(x@, false),
            value::props_view(params.entries@),
        ),
    decreases x, 1int,
{
    match x {
        PatternElement::Node(a) => validate_node_pattern(a, params),
        PatternElement::Relationship(a) => validate_rel_pattern(a, params),
    }
}

/// Checks the parameters that a [`NodePattern`] refers to.
fn validate_node_pattern(x: &NodePattern, params: &AssocList<Value>) -> (r: Result<(), GraphError>)
    ensures
        types::verdict(r) == reference::checked(
            reference::names_node_pattern(x@, false),
            value::props_view(params.entries@),
        ),
    decreases x, 1int,
{
    validate_pairs(&x.properties.entries, params)
}

/// Checks the parameters that a [`RelPattern`] refers to.
fn validate_rel_pattern(x: &RelPattern, params: &AssocList<Value>) -> (r: Result<(), GraphError>)
    ensures
        types::verdict(r) == reference::checked(
            reference::names_rel_pattern(x@, false),
            value::props_view(params.entries@),
        ),
    decreases x, 1int,
{
    validate_pairs(&x.properties.entries, params)
}

/// Checks the parameters that a [`ReturnItem`] refers to.
fn validate_return_item(x: &ReturnItem, params: &AssocList<Value>) -> (r: Result<(), GraphError>)
    ensures
        types::verdict(r) == reference::checked(
            reference::names_return_item(x@, false),
            value::props_view(params.entries@),
        ),
    decreases x, 1int,
{
    validate_expr(&x.expr, params)
}

/// Checks the parameters that a [`ReturnClause`] refers to.
fn validate_return_clause(x: &ReturnClause, params: &AssocList<Value>) -> (r: Result<(), GraphError>)
    ensures
        types::verdict(r) == reference::checked(
            reference::names_return_clause(x@, false),
            value::props_view(params.entries@),
        ),
    decreases x, 1int,
{
    validate_return_items(&x.items, params)
}

/// Checks the parameters that a [`SortItem`] refers to.
fn validate_sort_item(x: &SortItem, params: &AssocList<Value>) -> (r: Result<(), GraphError>)
    ensures
        types::verdict(r) == reference::checked(
            reference::names_sort_item(x@, false),
            value::props_view(params.entries@),
        ),
    decreases x, 1int,
{
    validate_expr(&x.expr, params)
}

/// Checks the parameters that a [`OptionalMatch`] refers to.
fn validate_optional_match(x: &OptionalMatch, params: &AssocList<Value>) -> (r: Result<(), GraphError>)
    ensures
        types::verdict(r) == reference::checked(
            reference::names_optional_match(x@, false),
            value::props_view(params.entries@),
        ),
    decreases x, 1int,
{
    broadcast use reference::group_first_fault;

    match validate_patterns(&x.patterns, params) {
        Err(e) => {
            return Err(e);
        },
        Ok(()) => {},
    }
    validate_opt_expr(&x.where_clause, params)
}

/// Checks the parameters that a [`WithClause`] refers to.
fn validate_with_clause(x: &WithClause, params: &AssocList<Value>) -> (r: Result<(), GraphError>)
    ensures
        types::verdict(r) == reference::checked(
            reference::names_with_clause(x@, false),
            value::props_view(params.entries@),
        ),
    decreases x, 1int,
{
    broadcast use reference::group_first_fault;

    match validate_return_items(&x.items, params) {
        Err(e) => {
            return Err(e);
        },
        Ok(()) => {},
    }
    match validate_sort_items(&x.order_by, params) {
        Err(e) => {
            return Err(e);
        },
        Ok(()) => {},
    }
    match validate_opt_expr(&x.skip, params) {
        Err(e) => {
            return Err(e);
        },
        Ok(()) => {},
    }
    match validate_opt_expr(&x.limit, params) {
        Err(e) => {
            return Err(e);
        },
        Ok(()) => {},
    }
    validate_opt_expr(&x.where_clause, params)
}

/// Checks the parameters that a [`UnwindClause`] refers to.
fn validate_unwind_clause(x: &UnwindClause, params: &AssocList<Value>) -> (r: Result<(), GraphError>)
    ensures
        types::verdict(r) == reference::checked(
            reference::names_unwind_clause(x@, false),
            value::props_view(params.entries@),
        ),
    decreases x, 1int,
{
    validate_expr(&x.expr, params)
}

/// Checks the parameters that a [`IntermediateMatch`] refers to.
fn validate_intermediate_match(x: &IntermediateMatch, params: &AssocList<Value>) -> (r: Result<(), GraphError>)
    ensures
        types::verdict(r) == reference::checked(
            reference::names_intermediate_match(x@, false),
            value::props_view(params.entries@),
        ),
    decreases x, 1int,
{
    broadcast use reference::group_first_fault;

    match validate_patterns(&x.patterns, params) {
        Err(e) => {
            return Err(e);
        },
        Ok(()) => {},
    }
    match validate_optional_matchs(&x.optional_patterns, params) {
        Err(e) => {
            return Err(e);
        },
        Ok(()) => {},
    }
    validate_opt_expr(&x.where_clause, params)
}

/// Checks the parameters that a [`IntermediateClause`] refers to.
fn validate_intermediate_clause(x: &IntermediateClause, params: &AssocList<Value>) -> (r: Result<(), GraphError>)
    ensures
        types::verdict(r) == reference::checked(
            reference::names_intermediate_clause(x@, false),
            value::props_view(params.entries@),
        ),
    decreases x, 1int,
{
    match x {
        IntermediateClause::With(..) => validate_intermediate_clause_with(x, params),
        IntermediateClause::Unwind(..) => validate_intermediate_clause_unwind(x, params),
        IntermediateClause::Match(..) => validate_intermediate_clause_match(x, params),
    }
}

/// Checks the parameters that a [`Assignment`] refers to.
fn validate_assignment(x: &Assignment, params: &AssocList<Value>) -> (r: Result<(), GraphError>)
    ensures
        types::verdict(r) == reference::checked(
            reference::names_assignment(x@, false),
            value::props_view(params.entries@),
        ),
    decreases x, 1int,
{
    validate_expr(&x.value, params)
}

/// Checks the parameters that a [`SetItem`] refers to.
fn validate_set_item(x: &SetItem, params: &AssocList<Value>) -> (r: Result<(), GraphError>)
    ensures
        types::verdict(r) == reference::checked(
            reference::names_set_item(x@, false),
            value::props_view(params.entries@),
        ),
    decreases x, 1int,
{
    match x {
        SetItem::Property(a) => validate_assignment(a, params),
        SetItem::Label { .. } => Ok(()),
        SetItem::MapOverwrite { value, .. } => validate_expr(value, params),
        SetItem::MapMerge { value, .. } => validate_expr(value, params),
    }
}

/// Checks the parameters that a [`MatchStatement`] refers to.
fn validate_match_statement(x: &MatchStatement, params: &AssocList<Value>) -> (r: Result<(), GraphError>)
    ensures
        types::verdict(r) == reference::checked(
            reference::names_match_statement(x@, false),
            value::props_view(params.entries@),
        ),
    decreases x, 1int,
{
    broadcast use reference::group_first_fault;

    match validate_patterns(&x.patterns, params) {
        Err(e) => {
            return Err(e);
        },
        Ok(()) => {},
    }
    match validate_optional_matchs(&x.optional_patterns, params) {
        Err(e) => {
            return Err(e);
        },
        Ok(()) => {},
    }
    match validate_opt_expr(&x.where_clause, params) {
        Err(e) => {
            return Err(e);
        },
        Ok(()) => {},
    }
    match validate_intermediate_clauses(&x.intermediate_clauses, params) {
        Err(e) => {
            return Err(e);
        },
        Ok(()) => {},
    }
    match validate_return_clause(&x.return_clause, params) {
        Err(e) => {
            return Err(e);
        },
        Ok(()) => {},
    }
    match validate_sort_items(&x.order_by, params) {
        Err(e) => {
            return Err(e);
        },
        Ok(()) => {},
    }
    match validate_opt_expr(&x.skip, params) {
        Err(e) => {
            return Err(e);
        },
        Ok(()) => {},
    }
    validate_opt_expr(&x.limit, params)
}

/// Checks the parameters that a [`CreateStatement`] refers to.
fn validate_create_statement(x: &CreateStatement, params: &AssocList<Value>) -> (r: Result<(), GraphError>)
    ensures
        types::verdict(r) == reference::checked(
            reference::names_create_statement(x@, false),
            value::props_view(params.entries@),
        ),
    decreases x, 1int,
{
    broadcast use reference::group_first_fault;

    match validate_patterns(&x.patterns, params) {
        Err(e) => {
            return Err(e);
        },
        Ok(()) => {},
    }
    match validate_opt_return_clause(&x.return_clause, params) {
        Err(e) => {
            return Err(e);
        },
        Ok(()) => {},
    }
    match validate_sort_items(&x.order_by, params) {
        Err(e) => {
            return Err(e);
        },
        Ok(()) => {},
    }
    match validate_opt_expr(&x.skip, params) {
        Err(e) => {
            return Err(e);
        },
        Ok(()) => {},
    }
    validate_opt_expr(&x.limit, params)
}

/// Checks the parameters that a [`MatchCreateStatement`] refers to.
fn validate_match_create_statement(x: &MatchCreateStatement, params: &AssocList<Value>) -> (r: Result<(), GraphError>)
    ensures
        types::verdict(r) == reference::checked(
            reference::names_match_create_statement(x@, false),
            value::props_view(params.entries@),
        ),
    decreases x, 1int,
{
    broadcast use reference::group_first_fault;

    match validate_patterns(&x.patterns, params) {
        Err(e) => {
            return Err(e);
        },
        Ok(()) => {},
    }
    match validate_opt_expr(&x.where_clause, params) {
        Err(e) => {
            return Err(e);
        },
        Ok(()) => {},
    }
    match validate_patterns(&x.create_patterns, params) {
        Err(e) => {
            return Err(e);
        },
        Ok(()) => {},
    }
    match validate_opt_return_clause(&x.return_clause, params) {
        Err(e) => {
            return Err(e);
        },
        Ok(()) => {},
    }
    match validate_sort_items(&x.order_by, params) {
        Err(e) => {
            return Err(e);
        },
        Ok(()) => {},
    }
    match validate_opt_expr(&x.skip, params) {
        Err(e) => {
            return Err(e);
        },
        Ok(()) => {},
    }
    validate_opt_expr(&x.limit, params)
}

/// Checks the parameters that a [`MatchMergeStatement`] refers to.
fn validate_match_merge_statement(x: &MatchMergeStatement, params: &AssocList<Value>) -> (r: Result<(), GraphError>)
    ensures
        types::verdict(r) == reference::checked(
            reference::names_match_merge_statement(x@, false),
            value::props_view(params.entries@),
        ),
    decreases x, 1int,
{
    broadcast use reference::group_first_fault;

    match validate_patterns(&x.patterns, params) {
        Err(e) => {
            return Err(e);
        },
        Ok(()) => {},
    }
    match validate_opt_expr(&x.where_clause, params) {
        Err(e) => {
            return Err(e);
        },
        Ok(()) => {},
    }
    match validate_pattern(&x.merge_pattern, params) {
        Err(e) => {
            return Err(e);
        },
        Ok(()) => {},
    }
    match validate_set_items(&x.on_create, params) {
        Err(e) => {
            return Err(e);
        },
        Ok(()) => {},
    }
    match validate_set_items(&x.on_match, params) {
        Err(e) => {
            return Err(e);
        },
        Ok(()) => {},
    }
    match validate_opt_return_clause(&x.return_clause, params) {
        Err(e) => {
            return Err(e);
        },
        Ok(()) => {},
    }
    match validate_sort_items(&x.order_by, params) {
        Err(e) => {
            return Err(e);
        },
        Ok(()) => {},
    }
    match validate_opt_expr(&x.skip, params) {
        Err(e) => {
            return Err(e);
        },
        Ok(()) => {},
    }
    validate_opt_expr(&x.limit, params)
}

/// Checks the parameters that a [`DeleteStatement`] refers to.
fn validate_delete_statement(x: &DeleteStatement, params: &AssocList<Value>) -> (r: Result<(), GraphError>)
    ensures
        types::verdict(r) == reference::checked(
            reference::names_delete_statement(x@, false),
            value::props_view(params.entries@),
        ),
    decreases x, 1int,
{
    broadcast use reference::group_first_fault;

    match validate_patterns(&x.patterns, params) {
        Err(e) => {
            return Err(e);
        },
        Ok(()) => {},
    }
    match validate_optional_matchs(&x.optional_patterns, params) {
        Err(e) => {
            return Err(e);
        },
        Ok(()) => {},
    }
    match validate_opt_expr(&x.where_clause, params) {
        Err(e) => {
            return Err(e);
        },
        Ok(()) => {},
    }
    match validate_exprs(&x.exprs, params) {
        Err(e) => {
            return Err(e);
        },
        Ok(()) => {},
    }
    match validate_opt_return_clause(&x.return_clause, params) {
        Err(e) => {
            return Err(e);
        },
        Ok(()) => {},
    }
    match validate_sort_items(&x.order_by, params) {
        Err(e) => {
            return Err(e);
        },
        Ok(()) => {},
    }
    match validate_opt_expr(&x.skip, params) {
        Err(e) => {
            return Err(e);
        },
        Ok(()) => {},
    }
    validate_opt_expr(&x.limit, params)
}

/// Checks the parameters that a [`SetStatement`] refers to.
fn validate_set_statement(x: &SetStatement, params: &AssocList<Value>) -> (r: Result<(), GraphError>)
    ensures
        types::verdict(r) == reference::checked(
            reference::names_set_statement(x@, false),
            value::props_view(params.entries@),
        ),
    decreases x, 1int,
{
    broadcast use reference::group_first_fault;

    match validate_patterns(&x.patterns, params) {
        Err(e) => {
            return Err(e);
        },
        Ok(()) => {},
    }
    match validate_optional_matchs(&x.optional_patterns, params) {
        Err(e) => {
            return Err(e);
        },
        Ok(()) => {},
    }
    match validate_opt_expr(&x.where_clause, params) {
        Err(e) => {
            return Err(e);
        },
        Ok(()) => {},
    }
    match validate_set_items(&x.items, params) {
        Err(e) => {
            return Err(e);
        },
        Ok(()) => {},
    }
    match validate_intermediate_clauses(&x.intermediate_clauses, params) {
        Err(e) => {
            return Err(e);
        },
        Ok(()) => {},
    }
    match validate_opt_return_clause(&x.return_clause, params) {
        Err(e) => {
            return Err(e);
        },
        Ok(()) => {},
    }
    match validate_sort_items(&x.order_by, params) {
        Err(e) => {
            return Err(e);
        },
        Ok(()) => {},
    }
    match validate_opt_expr(&x.skip, params) {
        Err(e) => {
            return Err(e);
        },
        Ok(()) => {},
    }
    validate_opt_expr(&x.limit, params)
}

/// Checks the parameters that a [`RemoveStatement`] refers to.
fn validate_remove_statement(x: &RemoveStatement, params: &AssocList<Value>) -> (r: Result<(), GraphError>)
    ensures
        types::verdict(r) == reference::checked(
            reference::names_remove_statement(x@, false),
            value::props_view(params.entries@),
        ),
    decreases x, 1int,
{
    broadcast use reference::group_first_fault;

    match validate_patterns(&x.patterns, params) {
        Err(e) => {
            return Err(e);
        },
        Ok(()) => {},
    }
    match validate_optional_matchs(&x.optional_patterns, params) {
        Err(e) => {
            return Err(e);
        },
        Ok(()) => {},
    }
    match validate_opt_expr(&x.where_clause, params) {
        Err(e) => {
            return Err(e);
        },
        Ok(()) => {},
    }
    match validate_opt_return_clause(&x.return_clause, params) {
        Err(e) => {
            return Err(e);
        },
        Ok(()) => {},
    }
    match validate_sort_items(&x.order_by, params) {
        Err(e) => {
            return Err(e);
        },
        Ok(()) => {},
    }
    match validate_opt_expr(&x.skip, params) {
        Err(e) => {
            return Err(e);
        },
        Ok(()) => {},
    }
    validate_opt_expr(&x.limit, params)
}

/// Checks the parameters that a [`MergeStatement`] refers to.
fn validate_merge_statement(x: &MergeStatement, params: &AssocList<Value>) -> (r: Result<(), GraphError>)
    ensures
        types::verdict(r) == reference::checked(
            reference::names_merge_statement(x@, false),
            value::props_view(params.entries@),
        ),
    decreases x, 1int,
{
    broadcast use reference::group_first_fault;

    match validate_pattern(&x.pattern, params) {
        Err(e) => {
            return Err(e);
        },
        Ok(()) => {},
    }
    match validate_set_items(&x.on_create, params) {
        Err(e) => {
            return Err(e);
        },
        Ok(()) => {},
    }
    match validate_set_items(&x.on_match, params) {
        Err(e) => {
            return Err(e);
        },
        Ok(()) => {},
    }
    match validate_opt_return_clause(&x.return_clause, params) {
        Err(e) => {
            return Err(e);
        },
        Ok(()) => {},
    }
    match validate_sort_items(&x.order_by, params) {
        Err(e) => {
            return Err(e);
        },
        Ok(()) => {},
    }
    match validate_opt_expr(&x.skip, params) {
        Err(e) => {
            return Err(e);
        },
        Ok(()) => {},
    }
    validate_opt_expr(&x.limit, params)
}

/// Checks the parameters that a [`UnwindBody`] refers to.
fn validate_unwind_body(x: &UnwindBody, params: &AssocList<Value>) -> (r: Result<(), GraphError>)
    ensures
        types::verdict(r) == reference::checked(
            reference::names_unwind_body(x@, false),
            value::props_view(params.entries@),
        ),
    decreases x, 1int,
{
    match x {
        UnwindBody::Return { .. } => validate_unwind_body_return(x, params),
        UnwindBody::Create { .. } => validate_unwind_body_create(x, params),
    }
}

/// Checks the parameters that a [`UnwindStatement`] refers to.
fn validate_unwind_statement(x: &UnwindStatement, params: &AssocList<Value>) -> (r: Result<(), GraphError>)
    ensures
        types::verdict(r) == reference::checked(
            reference::names_unwind_statement(x@, false),
            value::props_view(params.entries@),
        ),
    decreases x, 1int,
{
    broadcast use reference::group_first_fault;

    match validate_expr(&x.expr, params) {
        Err(e) => {
            return Err(e);
        },
        Ok(()) => {},
    }
    validate_unwind_body(&x.body, params)
}

/// Checks the parameters that a [`ReturnStatement`] refers to.
fn validate_return_statement(x: &ReturnStatement, params: &AssocList<Value>) -> (r: Result<(), GraphError>)
    ensures
        types::verdict(r) == reference::checked(
            reference::names_return_statement(x@, false),
            value::props_view(params.entries@),
        ),
    decreases x, 1int,
{
    broadcast use reference::group_first_fault;

    match validate_return_clause(&x.return_clause, params) {
        Err(e) => {
            return Err(e);
        },
        Ok(()) => {},
    }
    match validate_sort_items(&x.order_by, params) {
        Err(e) => {
            return Err(e);
        },
        Ok(()) => {},
    }
    match validate_opt_expr(&x.skip, params) {
        Err(e) => {
            return Err(e);
        },
        Ok(()) => {},
    }
    validate_opt_expr(&x.limit, params)
}

/// Checks the parameters that a [`Clause`] refers to.
fn validate_clause(x: &Clause, params: &AssocList<Value>) -> (r: Result<(), GraphError>)
    ensures
        types::verdict(r) == reference::checked(
            reference::names_clause(x@, false),
            value::props_view(params.entries@),
        ),
    decreases x, 1int,
{
    match x {
        Clause::Match { .. } => validate_clause_match(x, params),
        Clause::Create { .. } => validate_clause_create(x, params),
        Clause::Merge { .. } => validate_clause_merge(x, params),
        Clause::With(..) => validate_clause_with(x, params),
        Clause::Unwind(..) => validate_clause_unwind(x, params),
        Clause::SetItems { .. } => validate_clause_set_items(x, params),
        Clause::Remove { .. } => Ok(()),
        Clause::Call { .. } => validate_clause_call(x, params),
        Clause::Delete { .. } => validate_clause_delete(x, params),
    }
}

/// Checks the parameters that a [`MultiClauseStatement`] refers to.
fn validate_multi_clause_statement(x: &MultiClauseStatement, params: &AssocList<Value>) -> (r: Result<(), GraphError>)
    ensures
        types::verdict(r) == reference::checked(
            reference::names_multi_clause_statement(x@, false),
            value::props_view(params.entries@),
        ),
    decreases x, 1int,
{
    broadcast use reference::group_first_fault;

    match validate_clauses(&x.clauses, params) {
        Err(e) => {
            return Err(e);
        },
        Ok(()) => {},
    }
    match validate_opt_return_clause(&x.return_clause, params) {
        Err(e) => {
            return Err(e);
        },
        Ok(()) => {},
    }
    match validate_sort_items(&x.order_by, params) {
        Err(e) => {
            return Err(e);
        },
        Ok(()) => {},
    }
    match validate_opt_expr(&x.skip, params) {
        Err(e) => {
            return Err(e);
        },
        Ok(()) => {},
    }
    validate_opt_expr(&x.limit, params)
}

/// Checks the parameters that a statement refers to.
pub fn validate_params(x: &Statement, params: &AssocList<Value>) -> (r: Result<(), GraphError>)
    ensures
        types::verdict(r) == reference::checked(
            reference::names_statement(x@, false),
            value::props_view(params.entries@),
        ),
    decreases x, 1int,
{
    match x {
        Statement::Match(..) => validate_statement_match(x, params),
        Statement::Create(..) => validate_statement_create(x, params),
        Statement::MatchCreate(..) => validate_statement_match_create(x, params),
        Statement::MatchMerge(..) => validate_statement_match_merge(x, params),
        Statement::Delete(..) => validate_statement_delete(x, params),
        Statement::SetProps(..) => validate_statement_set_props(x, params),
        Statement::Remove(..) => validate_statement_remove(x, params),
        Statement::Merge(..) => validate_statement_merge(x, params),
        Statement::Unwind(..) => validate_statement_unwind(x, params),
        Statement::Return(..) => validate_statement_return(x, params),
        Statement::MultiClause(..) => validate_statement_multi_clause(x, params),
        Statement::Explain(..) => validate_statement_explain(x, params),
        Statement::Union { .. } => validate_statement_union(x, params),
        Statement::Call { .. } => validate_statement_call(x, params),
    }
}

/// Checks the parameters that a list refers to.
fn validate_exprs(v: &Vec<Expr>, params: &AssocList<Value>) -> (r: Result<(), GraphError>)
    ensures
        types::verdict(r) == reference::checked(
            reference::names_exprs(ast_model::exprs_view(v@), 0, false),
            value::props_view(params.entries@),
        ),
    decreases v, 0int,
{
    let ghost vs = ast_model::exprs_view(v@);
    let ghost ps = value::props_view(params.entries@);
    let mut i: usize = 0;
    assert(decreases_to!(v => v@));
    while i < v.len()
        invariant
            vs == ast_model::exprs_view(v@),
            ps == value::props_view(params.entries@),
            decreases_to!(v => v@),
            reference::checked(reference::names_exprs(vs, 0, false), ps) == reference::checked(
                reference::names_exprs(vs, i as int, false),
                ps,
            ),
        decreases v.len() - i,
    {
        broadcast use reference::group_first_fault;

        match validate_expr(&v[i], params) {
            Err(e) => {
                return Err(e);
            },
            Ok(()) => {},
        }
        i = i + 1;
    }
    Ok(())
}

/// Checks the parameters that a list refers to.
fn validate_alternatives(v: &Vec<(Box<Expr>, Box<Expr>)>, params: &AssocList<Value>) -> (r: Result<(), GraphError>)
    ensures
        types::verdict(r) == reference::checked(
            reference::names_alternatives(ast_model::alternatives_view(v@), 0, false),
            value::props_view(params.entries@),
        ),
    decreases v, 0int,
{
    let ghost vs = ast_model::alternatives_view(v@);
    let ghost ps = value::props_view(params.entries@);
    let mut i: usize = 0;
    assert(decreases_to!(v => v@));
    while i < v.len()
        invariant
            vs == ast_model::alternatives_view(v@),
            ps == value::props_view(params.entries@),
            decreases_to!(v => v@),
            reference::checked(reference::names_alternatives(vs, 0, false), ps) == reference::checked(
                reference::names_alternatives(vs, i as int, false),
                ps,
            ),
        decreases v.len() - i,
    {
        broadcast use reference::group_first_fault;

        assert(decreases_to!(v@[i as int] => v@[i as int].0));
        assert(decreases_to!(v@[i as int] => v@[i as int].1));
        match validate_expr(&v[i].0, params) {
            Err(e) => {
                return Err(e);
            },
            Ok(()) => {},
        }
        match validate_expr(&v[i].1, params) {
            Err(e) => {
                return Err(e);
            },
            Ok(()) => {},
        }
        i = i + 1;
    }
    Ok(())
}

/// Checks the parameters that a list refers to.
fn validate_patterns(v: &Vec<Pattern>, params: &AssocList<Value>) -> (r: Result<(), GraphError>)
    ensures
        types::verdict(r) == reference::checked(
            reference::names_patterns(ast_model::patterns_view(v@), 0, false),
            value::props_view(params.entries@),
        ),
    decreases v, 0int,
{
    let ghost vs = ast_model::patterns_view(v@);
    let ghost ps = value::props_view(params.entries@);
    let mut i: usize = 0;
    assert(decreases_to!(v => v@));
    while i < v.len()
        invariant
            vs == ast_model::patterns_view(v@),
            ps == value::props_view(params.entries@),
            decreases_to!(v => v@),
            reference::checked(reference::names_patterns(vs, 0, false), ps) == reference::checked(
                reference::names_patterns(vs, i as int, false),
                ps,
            ),
        decreases v.len() - i,
    {
        broadcast use reference::group_first_fault;

        match validate_pattern(&v[i], params) {
            Err(e) => {
                return Err(e);
            },
            Ok(()) => {},
        }
        i = i + 1;
    }
    Ok(())
}

/// Checks the parameters that a list refers to.
fn validate_pairs(v: &Vec<(String, Expr)>, params: &AssocList<Value>) -> (r: Result<(), GraphError>)
    ensures
        types::verdict(r) == reference::checked(
            reference::names_pairs(ast_model::pairs_view(v@), 0, false),
            value::props_view(params.entries@),
        ),
    decreases v, 0int,
{
    let ghost vs = ast_model::pairs_view(v@);
    let ghost ps = value::props_view(params.entries@);
    let mut i: usize = 0;
    assert(decreases_to!(v => v@));
    while i < v.len()
        invariant
            vs == ast_model::pairs_view(v@),
            ps == value::props_view(params.entries@),
            decreases_to!(v => v@),
            reference::checked(reference::names_pairs(vs, 0, false), ps) == reference::checked(
                reference::names_pairs(vs, i as int, false),
                ps,
            ),
        decreases v.len() - i,
    {
        broadcast use reference::group_first_fault;

        assert(decreases_to!(v@[i as int] => v@[i as int].1));
        match validate_expr(&v[i].1, params) {
            Err(e) => {
                return Err(e);
            },
            Ok(()) => {},
        }
        i = i + 1;
    }
    Ok(())
}

/// Checks the parameters that a list refers to.
fn validate_pattern_elements(v: &Vec<PatternElement>, params: &AssocList<Value>) -> (r: Result<(), GraphError>)
    ensures
        types::verdict(r) == reference::checked(
            reference::names_pattern_elements(ast_model::pattern_elements_view(v@), 0, false),
            value::props_view(params.entries@),
        ),
    decreases v, 0int,
{
    let ghost vs = ast_model::pattern_elements_view(v@);
    let ghost ps = value::props_view(params.entries@);
    let mut i: usize = 0;
    assert(decreases_to!(v => v@));
    while i < v.len()
        invariant
            vs == ast_model::pattern_elements_view(v@),
            ps == value::props_view(params.entries@),
            decreases_to!(v => v@),
            reference::checked(reference::names_pattern_elements(vs, 0, false), ps) == reference::checked(
                reference::names_pattern_elements(vs, i as int, false),
                ps,
            ),
        decreases v.len() - i,
    {
        broadcast use reference::group_first_fault;

        match validate_pattern_element(&v[i], params) {
            Err(e) => {
                return Err(e);
            },
            Ok(()) => {},
        }
        i = i + 1;
    }
    Ok(())
}

/// Checks the parameters that a list refers to.
fn validate_return_items(v: &Vec<ReturnItem>, params: &AssocList<Value>) -> (r: Result<(), GraphError>)
    ensures
        types::verdict(r) == reference::checked(
            reference::names_return_items(ast_model::return_items_view(v@), 0, false),
            value::props_view(params.entries@),
        ),
    decreases v, 0int,
{
    let ghost vs = ast_model::return_items_view(v@);
    let ghost ps = value::props_view(params.entries@);
    let mut i: usize = 0;
    assert(decreases_to!(v => v@));
    while i < v.len()
        invariant
            vs == ast_model::return_items_view(v@),
            ps == value::props_view(params.entries@),
            decreases_to!(v => v@),
            reference::checked(reference::names_return_items(vs, 0, false), ps) == reference::checked(
                reference::names_return_items(vs, i as int, false),
                ps,
            ),
        decreases v.len() - i,
    {
        broadcast use reference::group_first_fault;

        match validate_return_item(&v[i], params) {
            Err(e) => {
                return Err(e);
            },
            Ok(()) => {},
        }
        i = i + 1;
    }
    Ok(())
}

/// Checks the parameters that a list refers to.
fn validate_sort_items(v: &Vec<SortItem>, params: &AssocList<Value>) -> (r: Result<(), GraphError>)
    ensures
        types::verdict(r) == reference::checked(
            reference::names_sort_items(ast_model::sort_items_view(v@), 0, false),
            value::props_view(params.entries@),
        ),
    decreases v, 0int,
{
    let ghost vs = ast_model::sort_items_view(v@);
    let ghost ps = value::props_view(params.entries@);
    let mut i: usize = 0;
    assert(decreases_to!(v => v@));
    while i < v.len()
        invariant
            vs == ast_model::sort_items_view(v@),
            ps == value::props_view(params.entries@),
            decreases_to!(v => v@),
            reference::checked(reference::names_sort_items(vs, 0, false), ps) == reference::checked(
                reference::names_sort_items(vs, i as int, false),
                ps,
            ),
        decreases v.len() - i,
    {
        broadcast use reference::group_first_fault;

        match validate_sort_item(&v[i], params) {
            Err(e) => {
                return Err(e);
            },
            Ok(()) => {},
        }
        i = i + 1;
    }
    Ok(())
}

/// Checks the parameters that a list refers to.
fn validate_optional_matchs(v: &Vec<OptionalMatch>, params: &AssocList<Value>) -> (r: Result<(), GraphError>)
    ensures
        types::verdict(r) == reference::checked(
            reference::names_optional_matchs(ast_model::optional_matchs_view(v@), 0, false),
            value::props_view(params.entries@),
        ),
    decreases v, 0int,
{
    let ghost vs = ast_model::optional_matchs_view(v@);
    let ghost ps = value::props_view(params.entries@);
    let mut i: usize = 0;
    assert(decreases_to!(v => v@));
    while i < v.len()
        invariant
            vs == ast_model::optional_matchs_view(v@),
            ps == value::props_view(params.entries@),
            decreases_to!(v => v@),
            reference::checked(reference::names_optional_matchs(vs, 0, false), ps) == reference::checked(
                reference::names_optional_matchs(vs, i as int, false),
                ps,
            ),
        decreases v.len() - i,
    {
        broadcast use reference::group_first_fault;

        match validate_optional_match(&v[i], params) {
            Err(e) => {
                return Err(e);
            },
            Ok(()) => {},
        }
        i = i + 1;
    }
    Ok(())
}

/// Checks the parameters that a list refers to.
fn validate_intermediate_clauses(v: &Vec<IntermediateClause>, params: &AssocList<Value>) -> (r: Result<(), GraphError>)
    ensures
        types::verdict(r) == reference::checked(
            reference::names_intermediate_clauses(ast_model::intermediate_clauses_view(v@), 0, false),
            value::props_view(params.entries@),
        ),
    decreases v, 0int,
{
    let ghost vs = ast_model::intermediate_clauses_view(v@);
    let ghost ps = value::props_view(params.entries@);
    let mut i: usize = 0;
    assert(decreases_to!(v => v@));
    while i < v.len()
        invariant
            vs == ast_model::intermediate_clauses_view(v@),
            ps == value::props_view(params.entries@),
            decreases_to!(v => v@),
            reference::checked(reference::names_intermediate_clauses(vs, 0, false), ps) == reference::checked(
                reference::names_intermediate_clauses(vs, i as int, false),
                ps,
            ),
        decreases v.len() - i,
    {
        broadcast use reference::group_first_fault;

        match validate_intermediate_clause(&v[i], params) {
            Err(e) => {
                return Err(e);
            },
            Ok(()) => {},
        }
        i = i + 1;
    }
    Ok(())
}

/// Checks the parameters that a list refers to.
fn validate_set_items(v: &Vec<SetItem>, params: &AssocList<Value>) -> (r: Result<(), GraphError>)
    ensures
        types::verdict(r) == reference::checked(
            reference::names_set_items(ast_model::set_items_view(v@), 0, false),
            value::props_view(params.entries@),
        ),
    decreases v, 0int,
{
    let ghost vs = ast_model::set_items_view(v@);
    let ghost ps = value::props_view(params.entries@);
    let mut i: usize = 0;
    assert(decreases_to!(v => v@));
    while i < v.len()
        invariant
            vs == ast_model::set_items_view(v@),
            ps == value::props_view(params.entries@),
            decreases_to!(v => v@),
            reference::checked(reference::names_set_items(vs, 0, false), ps) == reference::checked(
                reference::names_set_items(vs, i as int, false),
                ps,
            ),
        decreases v.len() - i,
    {
        broadcast use reference::group_first_fault;

        match validate_set_item(&v[i], params) {
            Err(e) => {
                return Err(e);
            },
            Ok(()) => {},
        }
        i = i + 1;
    }
    Ok(())
}

/// Checks the parameters that a list refers to.
fn validate_clauses(v: &Vec<Clause>, params: &AssocList<Value>) -> (r: Result<(), GraphError>)
    ensures
        types::verdict(r) == reference::checked(
            reference::names_clauses(ast_model::clauses_view(v@), 0, false),
            value::props_view(params.entries@),
        ),
    decreases v, 0int,
{
    let ghost vs = ast_model::clauses_view(v@);
    let ghost ps = value::props_view(params.entries@);
    let mut i: usize = 0;
    assert(decreases_to!(v => v@));
    while i < v.len()
        invariant
            vs == ast_model::clauses_view(v@),
            ps == value::props_view(params.entries@),
            decreases_to!(v => v@),
            reference::checked(reference::names_clauses(vs, 0, false), ps) == reference::checked(
                reference::names_clauses(vs, i as int, false),
                ps,
            ),
        decreases v.len() - i,
    {
        broadcast use reference::group_first_fault;

        match validate_clause(&v[i], params) {
            Err(e) => {
                return Err(e);
            },
            Ok(()) => {},
        }
        i = i + 1;
    }
    Ok(())
}

/// Checks the parameters that a list refers to.
fn validate_statements(v: &Vec<Statement>, params: &AssocList<Value>) -> (r: Result<(), GraphError>)
    ensures
        types::verdict(r) == reference::checked(
            reference::names_statements(ast_model::statements_view(v@), 0, false),
            value::props_view(params.entries@),
        ),
    decreases v, 0int,
{
    let ghost vs = ast_model::statements_view(v@);
    let ghost ps = value::props_view(params.entries@);
    let mut i: usize = 0;
    assert(decreases_to!(v => v@));
    while i < v.len()
        invariant
            vs == ast_model::statements_view(v@),
            ps == value::props_view(params.entries@),
            decreases_to!(v => v@),
            reference::checked(reference::names_statements(vs, 0, false), ps) == reference::checked(
                reference::names_statements(vs, i as int, false),
                ps,
            ),
        decreases v.len() - i,
    {
        broadcast use reference::group_first_fault;

        match validate_params(&v[i], params) {
            Err(e) => {
                return Err(e);
            },
            Ok(()) => {},
        }
        i = i + 1;
    }
    Ok(())
}

/// Checks the parameters that an optional part refers to.
fn validate_opt_box(o: &Option<Box<Expr>>, params: &AssocList<Value>) -> (r: Result<(), GraphError>)
    ensures
        types::verdict(r) == reference::checked(
            reference::names_opt_box(ast_model::opt_box_view(*o), false),
            value::props_view(params.entries@),
        ),
    decreases o, 0int,
{
    match o {
        Some(y) => validate_expr(y, params),
        None => Ok(()),
    }
}

/// Checks the parameters that an optional part refers to.
fn validate_opt_expr(o: &Option<Expr>, params: &AssocList<Value>) -> (r: Result<(), GraphError>)
    ensures
        types::verdict(r) == reference::checked(
            reference::names_opt_expr(ast_model::opt_expr_view(*o), false),
            value::props_view(params.entries@),
        ),
    decreases o, 0int,
{
    match o {
        Some(y) => validate_expr(y, params),
        None => Ok(()),
    }
}

/// Checks the parameters that an optional part refers to.
fn validate_opt_return_clause(o: &Option<ReturnClause>, params: &AssocList<Value>) -> (r: Result<(), GraphError>)
    ensures
        types::verdict(r) == reference::checked(
            reference::names_opt_return_clause(ast_model::opt_return_clause_view(*o), false),
            value::props_view(params.entries@),
        ),
    decreases o, 0int,
{
    match o {
        Some(y) => validate_return_clause(y, params),
        None => Ok(()),
    }
}

/// Checks the parameters that a [`ExprKind::PatternPredicate`] refers to.
fn validate_expr_kind_pattern_predicate(x: &ExprKind, params: &AssocList<Value>) -> (r: Result<(), GraphError>)
    requires
        x is PatternPredicate,
    ensures
        types::verdict(r) == reference::checked(
            reference::names_expr_kind(x@, false),
            value::props_view(params.entries@),
        ),
    decreases x, 0int,
{
    match x {
        ExprKind::PatternPredicate(a) => validate_pattern(a, params),
        _ => Ok(()),
    }
}

/// Checks the parameters that a [`ExprKind::BinaryOp`] refers to.
fn validate_expr_kind_binary_op(x: &ExprKind, params: &AssocList<Value>) -> (r: Result<(), GraphError>)
    requires
        x is BinaryOp,
    ensures
        types::verdict(r) == reference::checked(
            reference::names_expr_kind(x@, false),
            value::props_view(params.entries@),
        ),
    decreases x, 0int,
{
    broadcast use reference::group_first_fault;

    match x {
        ExprKind::BinaryOp { left, right, .. } => {
            match validate_expr(left, params) {
                Err(e) => {
                    return Err(e);
                },
                Ok(()) => {},
            }
            validate_expr(right, params)
        },
        _ => Ok(()),
    }
}

/// Checks the parameters that a [`ExprKind::Not`] refers to.
fn validate_expr_kind_not(x: &ExprKind, params: &AssocList<Value>) -> (r: Result<(), GraphError>)
    requires
        x is Not,
    ensures
        types::verdict(r) == reference::checked(
            reference::names_expr_kind(x@, false),
            value::props_view(params.entries@),
        ),
    decreases x, 0int,
{
    match x {
        ExprKind::Not(a) => validate_expr(a, params),
        _ => Ok(()),
    }
}

/// Checks the parameters that a [`ExprKind::IsNull`] refers to.
fn validate_expr_kind_is_null(x: &ExprKind, params: &AssocList<Value>) -> (r: Result<(), GraphError>)
    requires
        x is IsNull,
    ensures
        types::verdict(r) == reference::checked(
            reference::names_expr_kind(x@, false),
            value::props_view(params.entries@),
        ),
    decreases x, 0int,
{
    match x {
        ExprKind::IsNull(a) => validate_expr(a, params),
        _ => Ok(()),
    }
}

/// Checks the parameters that a [`ExprKind::IsNotNull`] refers to.
fn validate_expr_kind_is_not_null(x: &ExprKind, params: &AssocList<Value>) -> (r: Result<(), GraphError>)
    requires
        x is IsNotNull,
    ensures
        types::verdict(r) == reference::checked(
            reference::names_expr_kind(x@, false),
            value::props_view(params.entries@),
        ),
    decreases x, 0int,
{
    match x {
        ExprKind::IsNotNull(a) => validate_expr(a, params),
        _ => Ok(()),
    }
}

/// Checks the parameters that a [`ExprKind::FunctionCall`] refers to.
fn validate_expr_kind_function_call(x: &ExprKind, params: &AssocList<Value>) -> (r: Result<(), GraphError>)
    requires
        x is FunctionCall,
    ensures
        types::verdict(r) == reference::checked(
            reference::names_expr_kind(x@, false),
            value::props_view(params.entries@),
        ),
    decreases x, 0int,
{
    broadcast use reference::group_first_fault;

    match x {
        ExprKind::FunctionCall { args, .. } => {
            validate_exprs(args, params)
        },
        _ => Ok(()),
    }
}

/// Checks the parameters that a [`ExprKind::Case`] refers to.
fn validate_expr_kind_case(x: &ExprKind, params: &AssocList<Value>) -> (r: Result<(), GraphError>)
    requires
        x is Case,
    ensures
        types::verdict(r) == reference::checked(
            reference::names_expr_kind(x@, false),
            value::props_view(params.entries@),
        ),
    decreases x, 0int,
{
    broadcast use reference::group_first_fault;

    match x {
        ExprKind::Case { operand, alternatives, default } => {
            match validate_opt_box(operand, params) {
                Err(e) => {
                    return Err(e);
                },
                Ok(()) => {},
            }
            match validate_alternatives(alternatives, params) {
                Err(e) => {
                    return Err(e);
                },
                Ok(()) => {},
            }
            validate_opt_box(default, params)
        },
        _ => Ok(()),
    }
}

/// Checks the parameters that a [`ExprKind::List`] refers to.
fn validate_expr_kind_list(x: &ExprKind, params: &AssocList<Value>) -> (r: Result<(), GraphError>)
    requires
        x is List,
    ensures
        types::verdict(r) == reference::checked(
            reference::names_expr_kind(x@, false),
            value::props_view(params.entries@),
        ),
    decreases x, 0int,
{
    match x {
        ExprKind::List(a) => validate_exprs(a, params),
        _ => Ok(()),
    }
}

/// Checks the parameters that a [`ExprKind::ListComprehension`] refers to.
fn validate_expr_kind_list_comprehension(x: &ExprKind, params: &AssocList<Value>) -> (r: Result<(), GraphError>)
    requires
        x is ListComprehension,
    ensures
        types::verdict(r) == reference::checked(
            reference::names_expr_kind(x@, false),
            value::props_view(params.entries@),
        ),
    decreases x, 0int,
{
    broadcast use reference::group_first_fault;

    match x {
        ExprKind::ListComprehension { list_expr, filter, map_expr, .. } => {
            match validate_expr(list_expr, params) {
                Err(e) => {
                    return Err(e);
                },
                Ok(()) => {},
            }
            match validate_opt_box(filter, params) {
                Err(e) => {
                    return Err(e);
                },
                Ok(()) => {},
            }
            validate_opt_box(map_expr, params)
        },
        _ => Ok(()),
    }
}

/// Checks the parameters that a [`ExprKind::PatternComprehension`] refers to.
fn validate_expr_kind_pattern_comprehension(x: &ExprKind, params: &AssocList<Value>) -> (r: Result<(), GraphError>)
    requires
        x is PatternComprehension,
    ensures
        types::verdict(r) == reference::checked(
            reference::names_expr_kind(x@, false),
            value::props_view(params.entries@),
        ),
    decreases x, 0int,
{
    broadcast use reference::group_first_fault;

    match x {
        ExprKind::PatternComprehension { pattern, where_clause, map_expr, .. } => {
            match validate_pattern(pattern, params) {
                Err(e) => {
                    return Err(e);
                },
                Ok(()) => {},
            }
            match validate_opt_box(where_clause, params) {
                Err(e) => {
                    return Err(e);
                },
                Ok(()) => {},
            }
            validate_expr(map_expr, params)
        },
        _ => Ok(()),
    }
}

/// Checks the parameters that a [`ExprKind::Quantifier`] refers to.
fn validate_expr_kind_quantifier(x: &ExprKind, params: &AssocList<Value>) -> (r: Result<(), GraphError>)
    requires
        x is Quantifier,
    ensures
        types::verdict(r) == reference::checked(
            reference::names_expr_kind(x@, false),
            value::props_view(params.entries@),
        ),
    decreases x, 0int,
{
    broadcast use reference::group_first_fault;

    match x {
        ExprKind::Quantifier { list_expr, predicate, .. } => {
            match validate_expr(list_expr, params) {
                Err(e) => {
                    return Err(e);
                },
                Ok(()) => {},
            }
            validate_expr(predicate, params)
        },
        _ => Ok(()),
    }
}

/// Checks the parameters that a [`ExprKind::Exists`] refers to.
fn validate_expr_kind_exists(x: &ExprKind, params: &AssocList<Value>) -> (r: Result<(), GraphError>)
    requires
        x is Exists,
    ensures
        types::verdict(r) == reference::checked(
            reference::names_expr_kind(x@, false),
            value::props_view(params.entries@),
        ),
    decreases x, 0int,
{
    broadcast use reference::group_first_fault;

    match x {
        ExprKind::Exists { patterns, where_clause } => {
            match validate_patterns(patterns, params) {
                Err(e) => {
                    return Err(e);
                },
                Ok(()) => {},
            }
            validate_opt_box(where_clause, params)
        },
        _ => Ok(()),
    }
}

/// Checks the parameters that a [`ExprKind::ExistsSubquery`] refers to.
fn validate_expr_kind_exists_subquery(x: &ExprKind, params: &AssocList<Value>) -> (r: Result<(), GraphError>)
    requires
        x is ExistsSubquery,
    ensures
        types::verdict(r) == reference::checked(
            reference::names_expr_kind(x@, false),
            value::props_view(params.entries@),
        ),
    decreases x, 0int,
{
    match x {
        ExprKind::ExistsSubquery(a) => validate_params(a, params),
        _ => Ok(()),
    }
}

/// Checks the parameters that a [`ExprKind::MapLiteral`] refers to.
fn validate_expr_kind_map_literal(x: &ExprKind, params: &AssocList<Value>) -> (r: Result<(), GraphError>)
    requires
        x is MapLiteral,
    ensures
        types::verdict(r) == reference::checked(
            reference::names_expr_kind(x@, false),
            value::props_view(params.entries@),
        ),
    decreases x, 0int,
{
    match x {
        ExprKind::MapLiteral(a) => validate_pairs(a, params),
        _ => Ok(()),
    }
}

/// Checks the parameters that a [`ExprKind::Index`] refers to.
fn validate_expr_kind_index(x: &ExprKind, params: &AssocList<Value>) -> (r: Result<(), GraphError>)
    requires
        x is Index,
    ensures
        types::verdict(r) == reference::checked(
            reference::names_expr_kind(x@, false),
            value::props_view(params.entries@),
        ),
    decreases x, 0int,
{
    broadcast use reference::group_first_fault;

    match x {
        ExprKind::Index { expr, index } => {
            match validate_expr(expr, params) {
                Err(e) => {
                    return Err(e);
                },
                Ok(()) => {},
            }
            validate_expr(index, params)
        },
        _ => Ok(()),
    }
}

/// Checks the parameters that a [`ExprKind::DotAccess`] refers to.
fn validate_expr_kind_dot_access(x: &ExprKind, params: &AssocList<Value>) -> (r: Result<(), GraphError>)
    requires
        x is DotAccess,
    ensures
        types::verdict(r) == reference::checked(
            reference::names_expr_kind(x@, false),
            value::props_view(params.entries@),
        ),
    decreases x, 0int,
{
    broadcast use reference::group_first_fault;

    match x {
        ExprKind::DotAccess { expr, .. } => {
            validate_expr(expr, params)
        },
        _ => Ok(()),
    }
}

/// Checks the parameters that a [`ExprKind::Slice`] refers to.
fn validate_expr_kind_slice(x: &ExprKind, params: &AssocList<Value>) -> (r: Result<(), GraphError>)
    requires
        x is Slice,
    ensures
        types::verdict(r) == reference::checked(
            reference::names_expr_kind(x@, false),
            value::props_view(params.entries@),
        ),
    decreases x, 0int,
{
    broadcast use reference::group_first_fault;

    match x {
        ExprKind::Slice { expr, start, end } => {
            match validate_expr(expr, params) {
                Err(e) => {
                    return Err(e);
                },
                Ok(()) => {},
            }
            match validate_opt_box(start, params) {
                Err(e) => {
                    return Err(e);
                },
                Ok(()) => {},
            }
            validate_opt_box(end, params)
        },
        _ => Ok(()),
    }
}

/// Checks the parameters that a [`IntermediateClause::With`] refers to.
fn validate_intermediate_clause_with(x: &IntermediateClause, params: &AssocList<Value>) -> (r: Result<(), GraphError>)
    requires
        x is With,
    ensures
        types::verdict(r) == reference::checked(
            reference::names_intermediate_clause(x@, false),
            value::props_view(params.entries@),
        ),
    decreases x, 0int,
{
    match x {
        IntermediateClause::With(a) => validate_with_clause(a, params),
        _ => Ok(()),
    }
}

/// Checks the parameters that a [`IntermediateClause::Unwind`] refers to.
fn validate_intermediate_clause_unwind(x: &IntermediateClause, params: &AssocList<Value>) -> (r: Result<(), GraphError>)
    requires
        x is Unwind,
    ensures
        types::verdict(r) == reference::checked(
            reference::names_intermediate_clause(x@, false),
            value::props_view(params.entries@),
        ),
    decreases x, 0int,
{
    match x {
        IntermediateClause::Unwind(a) => validate_unwind_clause(a, params),
        _ => Ok(()),
    }
}

/// Checks the parameters that a [`IntermediateClause::Match`] refers to.
fn validate_intermediate_clause_match(x: &IntermediateClause, params: &AssocList<Value>) -> (r: Result<(), GraphError>)
    requires
        x is Match,
    ensures
        types::verdict(r) == reference::checked(
            reference::names_intermediate_clause(x@, false),
            value::props_view(params.entries@),
        ),
    decreases x, 0int,
{
    match x {
        IntermediateClause::Match(a) => validate_intermediate_match(a, params),
        _ => Ok(()),
    }
}

/// Checks the parameters that a [`UnwindBody::Return`] refers to.
fn validate_unwind_body_return(x: &UnwindBody, params: &AssocList<Value>) -> (r: Result<(), GraphError>)
    requires
        x is Return,
    ensures
        types::verdict(r) == reference::checked(
            reference::names_unwind_body(x@, false),
            value::props_view(params.entries@),
        ),
    decreases x, 0int,
{
    broadcast use reference::group_first_fault;

    match x {
        UnwindBody::Return { where_clause, intermediate_clauses, return_clause, order_by, skip, limit } => {
            match validate_opt_expr(where_clause, params) {
                Err(e) => {
                    return Err(e);
                },
                Ok(()) => {},
            }
            match validate_intermediate_clauses(intermediate_clauses, params) {
                Err(e) => {
                    return Err(e);
                },
                Ok(()) => {},
            }
            match validate_return_clause(return_clause, params) {
                Err(e) => {
                    return Err(e);
                },
                Ok(()) => {},
            }
            match validate_sort_items(order_by, params) {
                Err(e) => {
                    return Err(e);
                },
                Ok(()) => {},
            }
            match validate_opt_expr(skip, params) {
                Err(e) => {
                    return Err(e);
                },
                Ok(()) => {},
            }
            validate_opt_expr(limit, params)
        },
        _ => Ok(()),
    }
}

/// Checks the parameters that a [`UnwindBody::Create`] refers to.
fn validate_unwind_body_create(x: &UnwindBody, params: &AssocList<Value>) -> (r: Result<(), GraphError>)
    requires
        x is Create,
    ensures
        types::verdict(r) == reference::checked(
            reference::names_unwind_body(x@, false),
            value::props_view(params.entries@),
        ),
    decreases x, 0int,
{
    broadcast use reference::group_first_fault;

    match x {
        UnwindBody::Create { patterns, intermediate_clauses, return_clause, order_by, skip, limit } => {
            match validate_patterns(patterns, params) {
                Err(e) => {
                    return Err(e);
                },
                Ok(()) => {},
            }
            match validate_intermediate_clauses(intermediate_clauses, params) {
                Err(e) => {
                    return Err(e);
                },
                Ok(()) => {},
            }
            match validate_opt_return_clause(return_clause, params) {
                Err(e) => {
                    return Err(e);
                },
                Ok(()) => {},
            }
            match validate_sort_items(order_by, params) {
                Err(e) => {
                    return Err(e);
                },
                Ok(()) => {},
            }
            match validate_opt_expr(skip, params) {
                Err(e) => {
                    return Err(e);
                },
                Ok(()) => {},
            }
            validate_opt_expr(limit, params)
        },
        _ => Ok(()),
    }
}

/// Checks the parameters that a [`Clause::Match`] refers to.
fn validate_clause_match(x: &Clause, params: &AssocList<Value>) -> (r: Result<(), GraphError>)
    requires
        x is Match,
    ensures
        types::verdict(r) == reference::checked(
            reference::names_clause(x@, false),
            value::props_view(params.entries@),
        ),
    decreases x, 0int,
{
    broadcast use reference::group_first_fault;

    match x {
        Clause::Match { patterns, optional_patterns, where_clause } => {
            match validate_patterns(patterns, params) {
                Err(e) => {
                    return Err(e);
                },
                Ok(()) => {},
            }
            match validate_optional_matchs(optional_patterns, params) {
                Err(e) => {
                    return Err(e);
                },
                Ok(()) => {},
            }
            validate_opt_expr(where_clause, params)
        },
        _ => Ok(()),
    }
}

/// Checks the parameters that a [`Clause::Create`] refers to.
fn validate_clause_create(x: &Clause, params: &AssocList<Value>) -> (r: Result<(), GraphError>)
    requires
        x is Create,
    ensures
        types::verdict(r) == reference::checked(
            reference::names_clause(x@, false),
            value::props_view(params.entries@),
        ),
    decreases x, 0int,
{
    broadcast use reference::group_first_fault;

    match x {
        Clause::Create { patterns } => {
            validate_patterns(patterns, params)
        },
        _ => Ok(()),
    }
}

/// Checks the parameters that a [`Clause::Merge`] refers to.
fn validate_clause_merge(x: &Clause, params: &AssocList<Value>) -> (r: Result<(), GraphError>)
    requires
        x is Merge,
    ensures
        types::verdict(r) == reference::checked(
            reference::names_clause(x@, false),
            value::props_view(params.entries@),
        ),
    decreases x, 0int,
{
    broadcast use reference::group_first_fault;

    match x {
        Clause::Merge { pattern, on_create, on_match } => {
            match validate_pattern(pattern, params) {
                Err(e) => {
                    return Err(e);
                },
                Ok(()) => {},
            }
            match validate_set_items(on_create, params) {
                Err(e) => {
                    return Err(e);
                },
                Ok(()) => {},
            }
            validate_set_items(on_match, params)
        },
        _ => Ok(()),
    }
}

/// Checks the parameters that a [`Clause::With`] refers to.
fn validate_clause_with(x: &Clause, params: &AssocList<Value>) -> (r: Result<(), GraphError>)
    requires
        x is With,
    ensures
        types::verdict(r) == reference::checked(
            reference::names_clause(x@, false),
            value::props_view(params.entries@),
        ),
    decreases x, 0int,
{
    match x {
        Clause::With(a) => validate_with_clause(a, params),
        _ => Ok(()),
    }
}

/// Checks the parameters that a [`Clause::Unwind`] refers to.
fn validate_clause_unwind(x: &Clause, params: &AssocList<Value>) -> (r: Result<(), GraphError>)
    requires
        x is Unwind,
    ensures
        types::verdict(r) == reference::checked(
            reference::names_clause(x@, false),
            value::props_view(params.entries@),
        ),
    decreases x, 0int,
{
    match x {
        Clause::Unwind(a) => validate_unwind_clause(a, params),
        _ => Ok(()),
    }
}

/// Checks the parameters that a [`Clause::SetItems`] refers to.
fn validate_clause_set_items(x: &Clause, params: &AssocList<Value>) -> (r: Result<(), GraphError>)
    requires
        x is SetItems,
    ensures
        types::verdict(r) == reference::checked(
            reference::names_clause(x@, false),
            value::props_view(params.entries@),
        ),
    decreases x, 0int,
{
    broadcast use reference::group_first_fault;

    match x {
        Clause::SetItems { items } => {
            validate_set_items(items, params)
        },
        _ => Ok(()),
    }
}

/// Checks the parameters that a [`Clause::Call`] refers to.
fn validate_clause_call(x: &Clause, params: &AssocList<Value>) -> (r: Result<(), GraphError>)
    requires
        x is Call,
    ensures
        types::verdict(r) == reference::checked(
            reference::names_clause(x@, false),
            value::props_view(params.entries@),
        ),
    decreases x, 0int,
{
    broadcast use reference::group_first_fault;

    match x {
        Clause::Call { args, .. } => {
            validate_exprs(args, params)
        },
        _ => Ok(()),
    }
}

/// Checks the parameters that a [`Clause::Delete`] refers to.
fn validate_clause_delete(x: &Clause, params: &AssocList<Value>) -> (r: Result<(), GraphError>)
    requires
        x is Delete,
    ensures
        types::verdict(r) == reference::checked(
            reference::names_clause(x@, false),
            value::props_view(params.entries@),
        ),
    decreases x, 0int,
{
    broadcast use reference::group_first_fault;

    match x {
        Clause::Delete { exprs, .. } => {
            validate_exprs(exprs, params)
        },
        _ => Ok(()),
    }
}

/// Checks the parameters that a [`Statement::Match`] refers to.
fn validate_statement_match(x: &Statement, params: &AssocList<Value>) -> (r: Result<(), GraphError>)
    requires
        x is Match,
    ensures
        types::verdict(r) == reference::checked(
            reference::names_statement(x@, false),
            value::props_view(params.entries@),
        ),
    decreases x, 0int,
{
    match x {
        Statement::Match(a) => validate_match_statement(a, params),
        _ => Ok(()),
    }
}

/// Checks the parameters that a [`Statement::Create`] refers to.
fn validate_statement_create(x: &Statement, params: &AssocList<Value>) -> (r: Result<(), GraphError>)
    requires
        x is Create,
    ensures
        types::verdict(r) == reference::checked(
            reference::names_statement(x@, false),
            value::props_view(params.entries@),
        ),
    decreases x, 0int,
{
    match x {
        Statement::Create(a) => validate_create_statement(a, params),
        _ => Ok(()),
    }
}

/// Checks the parameters that a [`Statement::MatchCreate`] refers to.
fn validate_statement_match_create(x: &Statement, params: &AssocList<Value>) -> (r: Result<(), GraphError>)
    requires
        x is MatchCreate,
    ensures
        types::verdict(r) == reference::checked(
            reference::names_statement(x@, false),
            value::props_view(params.entries@),
        ),
    decreases x, 0int,
{
    match x {
        Statement::MatchCreate(a) => validate_match_create_statement(a, params),
        _ => Ok(()),
    }
}

/// Checks the parameters that a [`Statement::MatchMerge`] refers to.
fn validate_statement_match_merge(x: &Statement, params: &AssocList<Value>) -> (r: Result<(), GraphError>)
    requires
        x is MatchMerge,
    ensures
        types::verdict(r) == reference::checked(
            reference::names_statement(x@, false),
            value::props_view(params.entries@),
        ),
    decreases x, 0int,
{
    match x {
        Statement::MatchMerge(a) => validate_match_merge_statement(a, params),
        _ => Ok(()),
    }
}

/// Checks the parameters that a [`Statement::Delete`] refers to.
fn validate_statement_delete(x: &Statement, params: &AssocList<Value>) -> (r: Result<(), GraphError>)
    requires
        x is Delete,
    ensures
        types::verdict(r) == reference::checked(
            reference::names_statement(x@, false),
            value::props_view(params.entries@),
        ),
    decreases x, 0int,
{
    match x {
        Statement::Delete(a) => validate_delete_statement(a, params),
        _ => Ok(()),
    }
}

/// Checks the parameters that a [`Statement::SetProps`] refers to.
fn validate_statement_set_props(x: &Statement, params: &AssocList<Value>) -> (r: Result<(), GraphError>)
    requires
        x is SetProps,
    ensures
        types::verdict(r) == reference::checked(
            reference::names_statement(x@, false),
            value::props_view(params.entries@),
        ),
    decreases x, 0int,
{
    match x {
        Statement::SetProps(a) => validate_set_statement(a, params),
        _ => Ok(()),
    }
}

/// Checks the parameters that a [`Statement::Remove`] refers to.
fn validate_statement_remove(x: &Statement, params: &AssocList<Value>) -> (r: Result<(), GraphError>)
    requires
        x is Remove,
    ensures
        types::verdict(r) == reference::checked(
            reference::names_statement(x@, false),
            value::props_view(params.entries@),
        ),
    decreases x, 0int,
{
    match x {
        Statement::Remove(a) => validate_remove_statement(a, params),
        _ => Ok(()),
    }
}

/// Checks the parameters that a [`Statement::Merge`] refers to.
fn validate_statement_merge(x: &Statement, params: &AssocList<Value>) -> (r: Result<(), GraphError>)
    requires
        x is Merge,
    ensures
        types::verdict(r) == reference::checked(
            reference::names_statement(x@, false),
            value::props_view(params.entries@),
        ),
    decreases x, 0int,
{
    match x {
        Statement::Merge(a) => validate_merge_statement(a, params),
        _ => Ok(()),
    }
}

/// Checks the parameters that a [`Statement::Unwind`] refers to.
fn validate_statement_unwind(x: &Statement, params: &AssocList<Value>) -> (r: Result<(), GraphError>)
    requires
        x is Unwind,
    ensures
        types::verdict(r) == reference::checked(
            reference::names_statement(x@, false),
            value::props_view(params.entries@),
        ),
    decreases x, 0int,
{
    match x {
        Statement::Unwind(a) => validate_unwind_statement(a, params),
        _ => Ok(()),
    }
}

/// Checks the parameters that a [`Statement::Return`] refers to.
fn validate_statement_return(x: &Statement, params: &AssocList<Value>) -> (r: Result<(), GraphError>)
    requires
        x is Return,
    ensures
        types::verdict(r) == reference::checked(
            reference::names_statement(x@, false),
            value::props_view(params.entries@),
        ),
    decreases x, 0int,
{
    match x {
        Statement::Return(a) => validate_return_statement(a, params),
        _ => Ok(()),
    }
}

/// Checks the parameters that a [`Statement::MultiClause`] refers to.
fn validate_statement_multi_clause(x: &Statement, params: &AssocList<Value>) -> (r: Result<(), GraphError>)
    requires
        x is MultiClause,
    ensures
        types::verdict(r) == reference::checked(
            reference::names_statement(x@, false),
            value::props_view(params.entries@),
        ),
    decreases x, 0int,
{
    match x {
        Statement::MultiClause(a) => validate_multi_clause_statement(a, params),
        _ => Ok(()),
    }
}

/// Checks the parameters that a [`Statement::Explain`] refers to.
fn validate_statement_explain(x: &Statement, params: &AssocList<Value>) -> (r: Result<(), GraphError>)
    requires
        x is Explain,
    ensures
        types::verdict(r) == reference::checked(
            reference::names_statement(x@, false),
            value::props_view(params.entries@),
        ),
    decreases x, 0int,
{
    match x {
        Statement::Explain(a) => validate_params(a, params),
        _ => Ok(()),
    }
}

/// Checks the parameters that a [`Statement::Union`] refers to.
fn validate_statement_union(x: &Statement, params: &AssocList<Value>) -> (r: Result<(), GraphError>)
    requires
        x is Union,
    ensures
        types::verdict(r) == reference::checked(
            reference::names_statement(x@, false),
            value::props_view(params.entries@),
        ),
    decreases x, 0int,
{
    broadcast use reference::group_first_fault;

    match x {
        Statement::Union { statements, .. } => {
            validate_statements(statements, params)
        },
        _ => Ok(()),
    }
}

/// Checks the parameters that a [`Statement::Call`] refers to.
fn validate_statement_call(x: &Statement, params: &AssocList<Value>) -> (r: Result<(), GraphError>)
    requires
        x is Call,
    ensures
        types::verdict(r) == reference::checked(
            reference::names_statement(x@, false),
            value::props_view(params.entries@),
        ),
    decreases x, 0int,
{
    broadcast use reference::group_first_fault;

    match x {
        Statement::Call { args, return_clause, order_by, skip, limit, .. } => {
            match validate_exprs(args, params) {
                Err(e) => {
                    return Err(e);
                },
                Ok(()) => {},
            }
            match validate_opt_return_clause(return_clause, params) {
                Err(e) => {
                    return Err(e);
                },
                Ok(()) => {},
            }
            match validate_sort_items(order_by, params) {
                Err(e) => {
                    return Err(e);
                },
                Ok(()) => {},
            }
            match validate_opt_box(skip, params) {
                Err(e) => {
                    return Err(e);
                },
                Ok(()) => {},
            }
            validate_opt_box(limit, params)
        },
        _ => Ok(()),
    }
}

} // verus!
