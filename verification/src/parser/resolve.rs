//! Replacing the parameters of a statement by their values.
use super::reference;
use super::validate;
use crate::assoc;
use crate::assoc::AssocList;
use crate::ast::{
    Assignment, Clause, CreateStatement, DeleteStatement, Expr, ExprKind, FloatLiteral,
    IntermediateClause, IntermediateMatch, LiteralValue, MatchCreateStatement,
    MatchMergeStatement, MatchStatement, MergeStatement, MultiClauseStatement, NodePattern,
    OptionalMatch, Pattern, PatternElement, RelPattern, RemoveStatement, ReturnClause,
    ReturnItem, ReturnStatement, SetItem, SetStatement, SortItem, Statement, UnwindBody,
    UnwindClause, UnwindStatement, WithClause,
};
use crate::ast_copy;
use crate::ast_model;
use crate::ast_model::{
    ClauseView, ExprKindView, ExprView, IntermediateClauseView, OptionalMatchView,
    PatternElementView, PatternView, ReturnClauseView, ReturnItemView, SetItemView,
    SortItemView, StatementView,
};
use crate::text;
use crate::types;
use crate::types::{ErrorView, GraphError, QueryPhase, Span};
use crate::value;
use crate::value::Value;
use vstd::prelude::*;

verus! {

broadcast use ast_model::group_list_views;

/// What a literal or an error says.
pub open spec fn literal_out(r: Result<Expr, GraphError>, v: Value, span: Span) -> bool {
    match r {
        Ok(e) => reference::supported(v@) && e@ == reference::value_expr(v@, span),
        Err(e) => !reference::supported(v@) && e@ == reference::unsupported_error(),
    }
}

/// The literal that stands for a value, where the parameter stood.
fn value_to_expr(v: &Value, span: Span) -> (r: Result<Expr, GraphError>)
    ensures
        literal_out(r, *v, span),
    decreases v, 0int,
{
    match v {
        Value::Null => Ok(Expr::new(ExprKind::Literal(LiteralValue::Null), span)),
        Value::Bool(b) => Ok(Expr::new(ExprKind::Literal(LiteralValue::Bool(*b)), span)),
        Value::I64(n) => Ok(Expr::new(ExprKind::Literal(LiteralValue::I64(*n)), span)),
        Value::F64(x) => Ok(
            Expr::new(
                ExprKind::Literal(LiteralValue::F64(FloatLiteral::Bits(x.bits))),
                span,
            ),
        ),
        Value::String(s) => Ok(
            Expr::new(ExprKind::Literal(LiteralValue::String(s.clone())), span),
        ),
        Value::List(vs) => match values_to_exprs(vs, span) {
            Err(e) => Err(e),
            Ok(xs) => Ok(Expr::new(ExprKind::List(xs), span)),
        },
        Value::MapValue(kvs) => match entries_to_pairs(&kvs.entries, span) {
            Err(e) => Err(e),
            Ok(xs) => Ok(Expr::new(ExprKind::MapLiteral(xs), span)),
        },
        _ => Err(
            GraphError::argument(
                QueryPhase::SemanticAnalysis,
                text::owned("unsupported parameter type"),
            ),
        ),
    }
}

/// The literals that stand for values.
fn values_to_exprs(v: &Vec<Value>, span: Span) -> (r: Result<Vec<Expr>, GraphError>)
    ensures
        match r {
            Ok(xs) => (forall|i: int|
                0 <= i < v@.len() ==> reference::supported(#[trigger] value::values_view(v@)[i]))
                && ast_model::exprs_view(xs@) == reference::value_exprs(
                value::values_view(v@),
                span,
            ),
            Err(e) => (exists|i: int|
                0 <= i < v@.len() && !reference::supported(#[trigger] value::values_view(v@)[i]))
                && e@ == reference::unsupported_error(),
        },
    decreases v, 0int,
{
    let ghost vs = value::values_view(v@);
    let mut out: Vec<Expr> = Vec::new();
    let mut i: usize = 0;
    assert(decreases_to!(v => v@));
    while i < v.len()
        invariant
            i <= v.len(),
            vs == value::values_view(v@),
            decreases_to!(v => v@),
            forall|j: int| 0 <= j < i ==> reference::supported(#[trigger] vs[j]),
            ast_model::exprs_view(out@) == reference::value_exprs(vs, span).take(i as int),
        decreases v.len() - i,
    {
        match value_to_expr(&v[i], span) {
            Err(e) => {
                assert(!reference::supported(vs[i as int]));
                return Err(e);
            },
            Ok(x) => {
                out.push(x);
            },
        }
        assert(reference::value_exprs(vs, span).take(i + 1) =~= reference::value_exprs(
            vs,
            span,
        ).take(i as int).push(reference::value_exprs(vs, span)[i as int]));
        i = i + 1;
    }
    assert(reference::value_exprs(vs, span).take(i as int) =~= reference::value_exprs(vs, span));
    Ok(out)
}

/// The map entries that stand for entries.
fn entries_to_pairs(v: &Vec<(String, Value)>, span: Span) -> (r: Result<
    Vec<(String, Expr)>,
    GraphError,
>)
    ensures
        match r {
            Ok(xs) => (forall|i: int|
                0 <= i < v@.len() ==> reference::supported(
                    (#[trigger] value::props_view(v@)[i]).1,
                )) && ast_model::pairs_view(xs@) == reference::value_pairs(
                value::props_view(v@),
                span,
            ),
            Err(e) => (exists|i: int|
                0 <= i < v@.len() && !reference::supported(
                    (#[trigger] value::props_view(v@)[i]).1,
                )) && e@ == reference::unsupported_error(),
        },
    decreases v, 0int,
{
    let ghost vs = value::props_view(v@);
    let mut out: Vec<(String, Expr)> = Vec::new();
    let mut i: usize = 0;
    assert(decreases_to!(v => v@));
    while i < v.len()
        invariant
            i <= v.len(),
            vs == value::props_view(v@),
            decreases_to!(v => v@),
            forall|j: int| 0 <= j < i ==> reference::supported((#[trigger] vs[j]).1),
            ast_model::pairs_view(out@) == reference::value_pairs(vs, span).take(i as int),
        decreases v.len() - i,
    {
        assert(decreases_to!(v@[i as int] => v@[i as int].1));
        match value_to_expr(&v[i].1, span) {
            Err(e) => {
                assert(!reference::supported(vs[i as int].1));
                return Err(e);
            },
            Ok(x) => {
                out.push((v[i].0.clone(), x));
            },
        }
        assert(reference::value_pairs(vs, span).take(i + 1) =~= reference::value_pairs(
            vs,
            span,
        ).take(i as int).push(reference::value_pairs(vs, span)[i as int]));
        i = i + 1;
    }
    assert(reference::value_pairs(vs, span).take(i as int) =~= reference::value_pairs(vs, span));
    Ok(out)
}

/// The literal that stands for the value of a parameter.
fn bind_param(name: &String, span: Span, params: &AssocList<Value>) -> (r: Result<
    Expr,
    GraphError,
>)
    ensures
        types::outcome(r) == reference::settled(
            seq![name@],
            (match assoc::lookup(value::props_view(params.entries@), name@) {
                Some(v) => reference::value_expr(v, span),
                None => (ExprView { kind: ExprKindView::Parameter(name@), span }),
            }),
            value::props_view(params.entries@),
        ),
{
    proof {
        validate::lemma_params_view(params.entries@, name@);
        assert(seq![name@].drop_first() =~= Seq::<Seq<char>>::empty());
        reveal_with_fuel(reference::first_fault, 2);
    }
    match params.get(name.as_str()) {
        None => Err(
            GraphError::argument(
                QueryPhase::SemanticAnalysis,
                text::cat("missing parameter: $", name.as_str()),
            ),
        ),
        Some(v) => value_to_expr(v, span),
    }
}

/// The same [`Expr`] with each parameter replaced by its value.
fn resolve_expr(x: &Expr, params: &AssocList<Value>) -> (r: Result<Expr, GraphError>)
    ensures
        types::outcome(r) == reference::settled(
            reference::names_expr(x@, true),
            reference::bound_expr(x@, value::props_view(params.entries@)),
            value::props_view(params.entries@),
        ),
    decreases x, 1int,
{
    match &x.kind {
        ExprKind::Parameter(name) => bind_param(name, x.span, params),
        _ => match resolve_expr_kind(&x.kind, params) {
            Err(e) => Err(e),
            Ok(kind) => Ok(Expr::new(kind, x.span)),
        },
    }
}

/// The same form of expression with each parameter inside it replaced by its value.
fn resolve_expr_kind(x: &ExprKind, params: &AssocList<Value>) -> (r: Result<ExprKind, GraphError>)
    requires
        !(x is Parameter),
    ensures
        types::outcome(r) == reference::settled(
            reference::names_expr_kind(x@, true),
            reference::bound_expr_kind(x@, value::props_view(params.entries@)),
            value::props_view(params.entries@),
        ),
    decreases x, 1int,
{
    match x {
        ExprKind::Literal(..) => Ok(x.dup()),
        ExprKind::Property(..) => Ok(x.dup()),
        ExprKind::Variable(..) => Ok(x.dup()),
        ExprKind::HasLabel(..) => Ok(x.dup()),
        ExprKind::PatternPredicate(..) => resolve_expr_kind_pattern_predicate(x, params),
        ExprKind::Star => Ok(ExprKind::Star),
        ExprKind::Parameter(..) => Ok(x.dup()),
        ExprKind::BinaryOp { .. } => resolve_expr_kind_binary_op(x, params),
        ExprKind::Not(..) => resolve_expr_kind_not(x, params),
        ExprKind::IsNull(..) => resolve_expr_kind_is_null(x, params),
        ExprKind::IsNotNull(..) => resolve_expr_kind_is_not_null(x, params),
        ExprKind::FunctionCall { .. } => resolve_expr_kind_function_call(x, params),
        ExprKind::Case { .. } => resolve_expr_kind_case(x, params),
        ExprKind::List(..) => resolve_expr_kind_list(x, params),
        ExprKind::ListComprehension { .. } => resolve_expr_kind_list_comprehension(x, params),
        ExprKind::PatternComprehension { .. } => resolve_expr_kind_pattern_comprehension(x, params),
        ExprKind::Quantifier { .. } => resolve_expr_kind_quantifier(x, params),
        ExprKind::Exists { .. } => resolve_expr_kind_exists(x, params),
        ExprKind::ExistsSubquery(..) => resolve_expr_kind_exists_subquery(x, params),
        ExprKind::MapLiteral(..) => resolve_expr_kind_map_literal(x, params),
        ExprKind::Index { .. } => resolve_expr_kind_index(x, params),
        ExprKind::DotAccess { .. } => resolve_expr_kind_dot_access(x, params),
        ExprKind::Slice { .. } => resolve_expr_kind_slice(x, params),
    }
}

/// The same [`Pattern`] with each parameter replaced by its value.
fn resolve_pattern(x: &Pattern, params: &AssocList<Value>) -> (r: Result<Pattern, GraphError>)
    ensures
        types::outcome(r) == reference::settled(
            reference::names_pattern(x@, true),
            reference::bound_pattern(x@, value::props_view(params.entries@)),
            value::props_view(params.entries@),
        ),
    decreases x, 1int,
{
    let new_elements = match resolve_pattern_elements(&x.elements, params) {
        Err(e) => {
            return Err(e);
        },
        Ok(y) => y,
    };
    Ok(
        Pattern {
            elements: new_elements,
            path_variable: ast_copy::dup_opt_text(&x.path_variable),
            shortest_path_mode: x.shortest_path_mode,
        },
    )
}

/// The same [`PatternElement`] with each parameter replaced by its value.
fn resolve_pattern_element(x: &PatternElement, params: &AssocList<Value>) -> (r: Result<PatternElement, GraphError>)
    ensures
        types::outcome(r) == reference::settled(
            reference::names_pattern_element(x@, true),
            reference::bound_pattern_element(x@, value::props_view(params.entries@)),
            value::props_view(params.entries@),
        ),
    decreases x, 1int,
{
    match x {
        PatternElement::Node(a) => match resolve_node_pattern(a, params) {
            Err(e) => Err(e),
            Ok(y) => Ok(PatternElement::Node(y)),
        },
        PatternElement::Relationship(a) => match resolve_rel_pattern(a, params) {
            Err(e) => Err(e),
            Ok(y) => Ok(PatternElement::Relationship(y)),
        },
    }
}

/// The same [`NodePattern`] with each parameter replaced by its value.
fn resolve_node_pattern(x: &NodePattern, params: &AssocList<Value>) -> (r: Result<NodePattern, GraphError>)
    ensures
        types::outcome(r) == reference::settled(
            reference::names_node_pattern(x@, true),
            reference::bound_node_pattern(x@, value::props_view(params.entries@)),
            value::props_view(params.entries@),
        ),
    decreases x, 1int,
{
    let new_properties = match resolve_pairs(&x.properties.entries, params) {
        Err(e) => {
            return Err(e);
        },
        Ok(y) => y,
    };
    Ok(
        NodePattern {
            variable: ast_copy::dup_opt_text(&x.variable),
            labels: ast_copy::dup_texts(&x.labels),
            properties: AssocList { entries: new_properties },
        },
    )
}

/// The same [`RelPattern`] with each parameter replaced by its value.
fn resolve_rel_pattern(x: &RelPattern, params: &AssocList<Value>) -> (r: Result<RelPattern, GraphError>)
    ensures
        types::outcome(r) == reference::settled(
            reference::names_rel_pattern(x@, true),
            reference::bound_rel_pattern(x@, value::props_view(params.entries@)),
            value::props_view(params.entries@),
        ),
    decreases x, 1int,
{
    let new_properties = match resolve_pairs(&x.properties.entries, params) {
        Err(e) => {
            return Err(e);
        },
        Ok(y) => y,
    };
    Ok(
        RelPattern {
            variable: ast_copy::dup_opt_text(&x.variable),
            rel_types: ast_copy::dup_texts(&x.rel_types),
            properties: AssocList { entries: new_properties },
            direction: x.direction,
            var_length: x.var_length,
        },
    )
}

/// The same [`ReturnItem`] with each parameter replaced by its value.
fn resolve_return_item(x: &ReturnItem, params: &AssocList<Value>) -> (r: Result<ReturnItem, GraphError>)
    ensures
        types::outcome(r) == reference::settled(
            reference::names_return_item(x@, true),
            reference::bound_return_item(x@, value::props_view(params.entries@)),
            value::props_view(params.entries@),
        ),
    decreases x, 1int,
{
    let new_expr = match resolve_expr(&x.expr, params) {
        Err(e) => {
            return Err(e);
        },
        Ok(y) => y,
    };
    Ok(
        ReturnItem {
            expr: new_expr,
            alias: ast_copy::dup_opt_text(&x.alias),
        },
    )
}

/// The same [`ReturnClause`] with each parameter replaced by its value.
fn resolve_return_clause(x: &ReturnClause, params: &AssocList<Value>) -> (r: Result<ReturnClause, GraphError>)
    ensures
        types::outcome(r) == reference::settled(
            reference::names_return_clause(x@, true),
            reference::bound_return_clause(x@, value::props_view(params.entries@)),
            value::props_view(params.entries@),
        ),
    decreases x, 1int,
{
    let new_items = match resolve_return_items(&x.items, params) {
        Err(e) => {
            return Err(e);
        },
        Ok(y) => y,
    };
    Ok(
        ReturnClause {
            items: new_items,
            distinct: x.distinct,
        },
    )
}

/// The same [`SortItem`] with each parameter replaced by its value.
fn resolve_sort_item(x: &SortItem, params: &AssocList<Value>) -> (r: Result<SortItem, GraphError>)
    ensures
        types::outcome(r) == reference::settled(
            reference::names_sort_item(x@, true),
            reference::bound_sort_item(x@, value::props_view(params.entries@)),
            value::props_view(params.entries@),
        ),
    decreases x, 1int,
{
    let new_expr = match resolve_expr(&x.expr, params) {
        Err(e) => {
            return Err(e);
        },
        Ok(y) => y,
    };
    Ok(
        SortItem {
            expr: new_expr,
            descending: x.descending,
        },
    )
}

/// The same [`OptionalMatch`] with each parameter replaced by its value.
fn resolve_optional_match(x: &OptionalMatch, params: &AssocList<Value>) -> (r: Result<OptionalMatch, GraphError>)
    ensures
        types::outcome(r) == reference::settled(
            reference::names_optional_match(x@, true),
            reference::bound_optional_match(x@, value::props_view(params.entries@)),
            value::props_view(params.entries@),
        ),
    decreases x, 1int,
{
    broadcast use reference::group_first_fault;

    let new_patterns = match resolve_patterns(&x.patterns, params) {
        Err(e) => {
            return Err(e);
        },
        Ok(y) => y,
    };
    let new_where_clause = match resolve_opt_expr(&x.where_clause, params) {
        Err(e) => {
            return Err(e);
        },
        Ok(y) => y,
    };
    Ok(
        OptionalMatch {
            patterns: new_patterns,
            where_clause: new_where_clause,
        },
    )
}

/// The same [`WithClause`] with each parameter replaced by its value.
fn resolve_with_clause(x: &WithClause, params: &AssocList<Value>) -> (r: Result<WithClause, GraphError>)
    ensures
        types::outcome(r) == reference::settled(
            reference::names_with_clause(x@, true),
            reference::bound_with_clause(x@, value::props_view(params.entries@)),
            value::props_view(params.entries@),
        ),
    decreases x, 1int,
{
    broadcast use reference::group_first_fault;

    let new_items = match resolve_return_items(&x.items, params) {
        Err(e) => {
            return Err(e);
        },
        Ok(y) => y,
    };
    let new_order_by = match resolve_sort_items(&x.order_by, params) {
        Err(e) => {
            return Err(e);
        },
        Ok(y) => y,
    };
    let new_skip = match resolve_opt_expr(&x.skip, params) {
        Err(e) => {
            return Err(e);
        },
        Ok(y) => y,
    };
    let new_limit = match resolve_opt_expr(&x.limit, params) {
        Err(e) => {
            return Err(e);
        },
        Ok(y) => y,
    };
    let new_where_clause = match resolve_opt_expr(&x.where_clause, params) {
        Err(e) => {
            return Err(e);
        },
        Ok(y) => y,
    };
    Ok(
        WithClause {
            items: new_items,
            distinct: x.distinct,
            order_by: new_order_by,
            skip: new_skip,
            limit: new_limit,
            where_clause: new_where_clause,
        },
    )
}

/// The same [`UnwindClause`] with each parameter replaced by its value.
fn resolve_unwind_clause(x: &UnwindClause, params: &AssocList<Value>) -> (r: Result<UnwindClause, GraphError>)
    ensures
        types::outcome(r) == reference::settled(
            reference::names_unwind_clause(x@, true),
            reference::bound_unwind_clause(x@, value::props_view(params.entries@)),
            value::props_view(params.entries@),
        ),
    decreases x, 1int,
{
    let new_expr = match resolve_expr(&x.expr, params) {
        Err(e) => {
            return Err(e);
        },
        Ok(y) => y,
    };
    Ok(
        UnwindClause {
            expr: new_expr,
            alias: x.alias.clone(),
        },
    )
}

/// The same [`IntermediateMatch`] with each parameter replaced by its value.
fn resolve_intermediate_match(x: &IntermediateMatch, params: &AssocList<Value>) -> (r: Result<IntermediateMatch, GraphError>)
    ensures
        types::outcome(r) == reference::settled(
            reference::names_intermediate_match(x@, true),
            reference::bound_intermediate_match(x@, value::props_view(params.entries@)),
            value::props_view(params.entries@),
        ),
    decreases x, 1int,
{
    broadcast use reference::group_first_fault;

    let new_patterns = match resolve_patterns(&x.patterns, params) {
        Err(e) => {
            return Err(e);
        },
        Ok(y) => y,
    };
    let new_optional_patterns = match resolve_optional_matchs(&x.optional_patterns, params) {
        Err(e) => {
            return Err(e);
        },
        Ok(y) => y,
    };
    let new_where_clause = match resolve_opt_expr(&x.where_clause, params) {
        Err(e) => {
            return Err(e);
        },
        Ok(y) => y,
    };
    Ok(
        IntermediateMatch {
            patterns: new_patterns,
            optional_patterns: new_optional_patterns,
            where_clause: new_where_clause,
        },
    )
}

/// The same [`IntermediateClause`] with each parameter replaced by its value.
fn resolve_intermediate_clause(x: &IntermediateClause, params: &AssocList<Value>) -> (r: Result<IntermediateClause, GraphError>)
    ensures
        types::outcome(r) == reference::settled(
            reference::names_intermediate_clause(x@, true),
            reference::bound_intermediate_clause(x@, value::props_view(params.entries@)),
            value::props_view(params.entries@),
        ),
    decreases x, 1int,
{
    match x {
        IntermediateClause::With(..) => resolve_intermediate_clause_with(x, params),
        IntermediateClause::Unwind(..) => resolve_intermediate_clause_unwind(x, params),
        IntermediateClause::Match(..) => resolve_intermediate_clause_match(x, params),
    }
}

/// The same [`Assignment`] with each parameter replaced by its value.
fn resolve_assignment(x: &Assignment, params: &AssocList<Value>) -> (r: Result<Assignment, GraphError>)
    ensures
        types::outcome(r) == reference::settled(
            reference::names_assignment(x@, true),
            reference::bound_assignment(x@, value::props_view(params.entries@)),
            value::props_view(params.entries@),
        ),
    decreases x, 1int,
{
    let new_value = match resolve_expr(&x.value, params) {
        Err(e) => {
            return Err(e);
        },
        Ok(y) => y,
    };
    Ok(
        Assignment {
            variable: x.variable.clone(),
            property: x.property.clone(),
            value: new_value,
        },
    )
}

/// The same [`SetItem`] with each parameter replaced by its value.
fn resolve_set_item(x: &SetItem, params: &AssocList<Value>) -> (r: Result<SetItem, GraphError>)
    ensures
        types::outcome(r) == reference::settled(
            reference::names_set_item(x@, true),
            reference::bound_set_item(x@, value::props_view(params.entries@)),
            value::props_view(params.entries@),
        ),
    decreases x, 1int,
{
    match x {
        SetItem::Property(a) => match resolve_assignment(a, params) {
            Err(e) => Err(e),
            Ok(y) => Ok(SetItem::Property(y)),
        },
        SetItem::Label { .. } => Ok(x.dup()),
        SetItem::MapOverwrite { variable, value } => {
            broadcast use reference::group_first_fault;

            let new_value = match resolve_expr(value, params) {
                Err(e) => {
                    return Err(e);
                },
                Ok(y) => y,
            };
            Ok(
                SetItem::MapOverwrite {
                    variable: variable.clone(),
                    value: new_value,
                },
            )
        },
        SetItem::MapMerge { variable, value } => {
            broadcast use reference::group_first_fault;

            let new_value = match resolve_expr(value, params) {
                Err(e) => {
                    return Err(e);
                },
                Ok(y) => y,
            };
            Ok(
                SetItem::MapMerge {
                    variable: variable.clone(),
                    value: new_value,
                },
            )
        },
    }
}

/// The same [`MatchStatement`] with each parameter replaced by its value.
fn resolve_match_statement(x: &MatchStatement, params: &AssocList<Value>) -> (r: Result<MatchStatement, GraphError>)
    ensures
        types::outcome(r) == reference::settled(
            reference::names_match_statement(x@, true),
            reference::bound_match_statement(x@, value::props_view(params.entries@)),
            value::props_view(params.entries@),
        ),
    decreases x, 1int,
{
    broadcast use reference::group_first_fault;

    let new_patterns = match resolve_patterns(&x.patterns, params) {
        Err(e) => {
            return Err(e);
        },
        Ok(y) => y,
    };
    let new_optional_patterns = match resolve_optional_matchs(&x.optional_patterns, params) {
        Err(e) => {
            return Err(e);
        },
        Ok(y) => y,
    };
    let new_where_clause = match resolve_opt_expr(&x.where_clause, params) {
        Err(e) => {
            return Err(e);
        },
        Ok(y) => y,
    };
    let new_intermediate_clauses = match resolve_intermediate_clauses(&x.intermediate_clauses, params) {
        Err(e) => {
            return Err(e);
        },
        Ok(y) => y,
    };
    let new_return_clause = match resolve_return_clause(&x.return_clause, params) {
        Err(e) => {
            return Err(e);
        },
        Ok(y) => y,
    };
    let new_order_by = match resolve_sort_items(&x.order_by, params) {
        Err(e) => {
            return Err(e);
        },
        Ok(y) => y,
    };
    let new_skip = match resolve_opt_expr(&x.skip, params) {
        Err(e) => {
            return Err(e);
        },
        Ok(y) => y,
    };
    let new_limit = match resolve_opt_expr(&x.limit, params) {
        Err(e) => {
            return Err(e);
        },
        Ok(y) => y,
    };
    Ok(
        MatchStatement {
            patterns: new_patterns,
            optional_patterns: new_optional_patterns,
            where_clause: new_where_clause,
            intermediate_clauses: new_intermediate_clauses,
            return_clause: new_return_clause,
            order_by: new_order_by,
            skip: new_skip,
            limit: new_limit,
        },
    )
}

/// The same [`CreateStatement`] with each parameter replaced by its value.
fn resolve_create_statement(x: &CreateStatement, params: &AssocList<Value>) -> (r: Result<CreateStatement, GraphError>)
    ensures
        types::outcome(r) == reference::settled(
            reference::names_create_statement(x@, true),
            reference::bound_create_statement(x@, value::props_view(params.entries@)),
            value::props_view(params.entries@),
        ),
    decreases x, 1int,
{
    broadcast use reference::group_first_fault;

    let new_return_clause = match resolve_opt_return_clause(&x.return_clause, params) {
        Err(e) => {
            return Err(e);
        },
        Ok(y) => y,
    };
    let new_order_by = match resolve_sort_items(&x.order_by, params) {
        Err(e) => {
            return Err(e);
        },
        Ok(y) => y,
    };
    let new_skip = match resolve_opt_expr(&x.skip, params) {
        Err(e) => {
            return Err(e);
        },
        Ok(y) => y,
    };
    let new_limit = match resolve_opt_expr(&x.limit, params) {
        Err(e) => {
            return Err(e);
        },
        Ok(y) => y,
    };
    let new_patterns = match resolve_patterns(&x.patterns, params) {
        Err(e) => {
            return Err(e);
        },
        Ok(y) => y,
    };
    Ok(
        CreateStatement {
            patterns: new_patterns,
            return_clause: new_return_clause,
            order_by: new_order_by,
            skip: new_skip,
            limit: new_limit,
        },
    )
}

/// The same [`MatchCreateStatement`] with each parameter replaced by its value.
fn resolve_match_create_statement(x: &MatchCreateStatement, params: &AssocList<Value>) -> (r: Result<MatchCreateStatement, GraphError>)
    ensures
        types::outcome(r) == reference::settled(
            reference::names_match_create_statement(x@, true),
            reference::bound_match_create_statement(x@, value::props_view(params.entries@)),
            value::props_view(params.entries@),
        ),
    decreases x, 1int,
{
    broadcast use reference::group_first_fault;

    let new_return_clause = match resolve_opt_return_clause(&x.return_clause, params) {
        Err(e) => {
            return Err(e);
        },
        Ok(y) => y,
    };
    let new_order_by = match resolve_sort_items(&x.order_by, params) {
        Err(e) => {
            return Err(e);
        },
        Ok(y) => y,
    };
    let new_skip = match resolve_opt_expr(&x.skip, params) {
        Err(e) => {
            return Err(e);
        },
        Ok(y) => y,
    };
    let new_limit = match resolve_opt_expr(&x.limit, params) {
        Err(e) => {
            return Err(e);
        },
        Ok(y) => y,
    };
    let new_patterns = match resolve_patterns(&x.patterns, params) {
        Err(e) => {
            return Err(e);
        },
        Ok(y) => y,
    };
    let new_where_clause = match resolve_opt_expr(&x.where_clause, params) {
        Err(e) => {
            return Err(e);
        },
        Ok(y) => y,
    };
    let new_create_patterns = match resolve_patterns(&x.create_patterns, params) {
        Err(e) => {
            return Err(e);
        },
        Ok(y) => y,
    };
    Ok(
        MatchCreateStatement {
            patterns: new_patterns,
            where_clause: new_where_clause,
            create_patterns: new_create_patterns,
            return_clause: new_return_clause,
            order_by: new_order_by,
            skip: new_skip,
            limit: new_limit,
        },
    )
}

/// The same [`MatchMergeStatement`] with each parameter replaced by its value.
fn resolve_match_merge_statement(x: &MatchMergeStatement, params: &AssocList<Value>) -> (r: Result<MatchMergeStatement, GraphError>)
    ensures
        types::outcome(r) == reference::settled(
            reference::names_match_merge_statement(x@, true),
            reference::bound_match_merge_statement(x@, value::props_view(params.entries@)),
            value::props_view(params.entries@),
        ),
    decreases x, 1int,
{
    broadcast use reference::group_first_fault;

    let new_return_clause = match resolve_opt_return_clause(&x.return_clause, params) {
        Err(e) => {
            return Err(e);
        },
        Ok(y) => y,
    };
    let new_order_by = match resolve_sort_items(&x.order_by, params) {
        Err(e) => {
            return Err(e);
        },
        Ok(y) => y,
    };
    let new_skip = match resolve_opt_expr(&x.skip, params) {
        Err(e) => {
            return Err(e);
        },
        Ok(y) => y,
    };
    let new_limit = match resolve_opt_expr(&x.limit, params) {
        Err(e) => {
            return Err(e);
        },
        Ok(y) => y,
    };
    let new_patterns = match resolve_patterns(&x.patterns, params) {
        Err(e) => {
            return Err(e);
        },
        Ok(y) => y,
    };
    let new_where_clause = match resolve_opt_expr(&x.where_clause, params) {
        Err(e) => {
            return Err(e);
        },
        Ok(y) => y,
    };
    let new_merge_pattern = match resolve_pattern(&x.merge_pattern, params) {
        Err(e) => {
            return Err(e);
        },
        Ok(y) => y,
    };
    let new_on_create = match resolve_set_items(&x.on_create, params) {
        Err(e) => {
            return Err(e);
        },
        Ok(y) => y,
    };
    let new_on_match = match resolve_set_items(&x.on_match, params) {
        Err(e) => {
            return Err(e);
        },
        Ok(y) => y,
    };
    Ok(
        MatchMergeStatement {
            patterns: new_patterns,
            where_clause: new_where_clause,
            merge_pattern: new_merge_pattern,
            on_create: new_on_create,
            on_match: new_on_match,
            return_clause: new_return_clause,
            order_by: new_order_by,
            skip: new_skip,
            limit: new_limit,
        },
    )
}

/// The same [`DeleteStatement`] with each parameter replaced by its value.
fn resolve_delete_statement(x: &DeleteStatement, params: &AssocList<Value>) -> (r: Result<DeleteStatement, GraphError>)
    ensures
        types::outcome(r) == reference::settled(
            reference::names_delete_statement(x@, true),
            reference::bound_delete_statement(x@, value::props_view(params.entries@)),
            value::props_view(params.entries@),
        ),
    decreases x, 1int,
{
    broadcast use reference::group_first_fault;

    let new_return_clause = match resolve_opt_return_clause(&x.return_clause, params) {
        Err(e) => {
            return Err(e);
        },
        Ok(y) => y,
    };
    let new_order_by = match resolve_sort_items(&x.order_by, params) {
        Err(e) => {
            return Err(e);
        },
        Ok(y) => y,
    };
    let new_skip = match resolve_opt_expr(&x.skip, params) {
        Err(e) => {
            return Err(e);
        },
        Ok(y) => y,
    };
    let new_limit = match resolve_opt_expr(&x.limit, params) {
        Err(e) => {
            return Err(e);
        },
        Ok(y) => y,
    };
    let new_patterns = match resolve_patterns(&x.patterns, params) {
        Err(e) => {
            return Err(e);
        },
        Ok(y) => y,
    };
    let new_optional_patterns = match resolve_optional_matchs(&x.optional_patterns, params) {
        Err(e) => {
            return Err(e);
        },
        Ok(y) => y,
    };
    let new_where_clause = match resolve_opt_expr(&x.where_clause, params) {
        Err(e) => {
            return Err(e);
        },
        Ok(y) => y,
    };
    let new_exprs = match resolve_exprs(&x.exprs, params) {
        Err(e) => {
            return Err(e);
        },
        Ok(y) => y,
    };
    Ok(
        DeleteStatement {
            patterns: new_patterns,
            optional_patterns: new_optional_patterns,
            where_clause: new_where_clause,
            detach: x.detach,
            exprs: new_exprs,
            return_clause: new_return_clause,
            order_by: new_order_by,
            skip: new_skip,
            limit: new_limit,
        },
    )
}

/// The same [`SetStatement`] with each parameter replaced by its value.
fn resolve_set_statement(x: &SetStatement, params: &AssocList<Value>) -> (r: Result<SetStatement, GraphError>)
    ensures
        types::outcome(r) == reference::settled(
            reference::names_set_statement(x@, true),
            reference::bound_set_statement(x@, value::props_view(params.entries@)),
            value::props_view(params.entries@),
        ),
    decreases x, 1int,
{
    broadcast use reference::group_first_fault;

    let new_return_clause = match resolve_opt_return_clause(&x.return_clause, params) {
        Err(e) => {
            return Err(e);
        },
        Ok(y) => y,
    };
    let new_order_by = match resolve_sort_items(&x.order_by, params) {
        Err(e) => {
            return Err(e);
        },
        Ok(y) => y,
    };
    let new_skip = match resolve_opt_expr(&x.skip, params) {
        Err(e) => {
            return Err(e);
        },
        Ok(y) => y,
    };
    let new_limit = match resolve_opt_expr(&x.limit, params) {
        Err(e) => {
            return Err(e);
        },
        Ok(y) => y,
    };
    let new_patterns = match resolve_patterns(&x.patterns, params) {
        Err(e) => {
            return Err(e);
        },
        Ok(y) => y,
    };
    let new_optional_patterns = match resolve_optional_matchs(&x.optional_patterns, params) {
        Err(e) => {
            return Err(e);
        },
        Ok(y) => y,
    };
    let new_where_clause = match resolve_opt_expr(&x.where_clause, params) {
        Err(e) => {
            return Err(e);
        },
        Ok(y) => y,
    };
    let new_items = match resolve_set_items(&x.items, params) {
        Err(e) => {
            return Err(e);
        },
        Ok(y) => y,
    };
    let new_intermediate_clauses = match resolve_intermediate_clauses(&x.intermediate_clauses, params) {
        Err(e) => {
            return Err(e);
        },
        Ok(y) => y,
    };
    Ok(
        SetStatement {
            patterns: new_patterns,
            optional_patterns: new_optional_patterns,
            where_clause: new_where_clause,
            items: new_items,
            intermediate_clauses: new_intermediate_clauses,
            return_clause: new_return_clause,
            order_by: new_order_by,
            skip: new_skip,
            limit: new_limit,
        },
    )
}

/// The same [`RemoveStatement`] with each parameter replaced by its value.
fn resolve_remove_statement(x: &RemoveStatement, params: &AssocList<Value>) -> (r: Result<RemoveStatement, GraphError>)
    ensures
        types::outcome(r) == reference::settled(
            reference::names_remove_statement(x@, true),
            reference::bound_remove_statement(x@, value::props_view(params.entries@)),
            value::props_view(params.entries@),
        ),
    decreases x, 1int,
{
    broadcast use reference::group_first_fault;

    let new_return_clause = match resolve_opt_return_clause(&x.return_clause, params) {
        Err(e) => {
            return Err(e);
        },
        Ok(y) => y,
    };
    let new_order_by = match resolve_sort_items(&x.order_by, params) {
        Err(e) => {
            return Err(e);
        },
        Ok(y) => y,
    };
    let new_skip = match resolve_opt_expr(&x.skip, params) {
        Err(e) => {
            return Err(e);
        },
        Ok(y) => y,
    };
    let new_limit = match resolve_opt_expr(&x.limit, params) {
        Err(e) => {
            return Err(e);
        },
        Ok(y) => y,
    };
    let new_patterns = match resolve_patterns(&x.patterns, params) {
        Err(e) => {
            return Err(e);
        },
        Ok(y) => y,
    };
    let new_optional_patterns = match resolve_optional_matchs(&x.optional_patterns, params) {
        Err(e) => {
            return Err(e);
        },
        Ok(y) => y,
    };
    let new_where_clause = match resolve_opt_expr(&x.where_clause, params) {
        Err(e) => {
            return Err(e);
        },
        Ok(y) => y,
    };
    Ok(
        RemoveStatement {
            patterns: new_patterns,
            optional_patterns: new_optional_patterns,
            where_clause: new_where_clause,
            items: ast_copy::dup_remove_items(&x.items),
            return_clause: new_return_clause,
            order_by: new_order_by,
            skip: new_skip,
            limit: new_limit,
        },
    )
}

/// The same [`MergeStatement`] with each parameter replaced by its value.
fn resolve_merge_statement(x: &MergeStatement, params: &AssocList<Value>) -> (r: Result<MergeStatement, GraphError>)
    ensures
        types::outcome(r) == reference::settled(
            reference::names_merge_statement(x@, true),
            reference::bound_merge_statement(x@, value::props_view(params.entries@)),
            value::props_view(params.entries@),
        ),
    decreases x, 1int,
{
    broadcast use reference::group_first_fault;

    let new_return_clause = match resolve_opt_return_clause(&x.return_clause, params) {
        Err(e) => {
            return Err(e);
        },
        Ok(y) => y,
    };
    let new_order_by = match resolve_sort_items(&x.order_by, params) {
        Err(e) => {
            return Err(e);
        },
        Ok(y) => y,
    };
    let new_skip = match resolve_opt_expr(&x.skip, params) {
        Err(e) => {
            return Err(e);
        },
        Ok(y) => y,
    };
    let new_limit = match resolve_opt_expr(&x.limit, params) {
        Err(e) => {
            return Err(e);
        },
        Ok(y) => y,
    };
    let new_pattern = match resolve_pattern(&x.pattern, params) {
        Err(e) => {
            return Err(e);
        },
        Ok(y) => y,
    };
    let new_on_create = match resolve_set_items(&x.on_create, params) {
        Err(e) => {
            return Err(e);
        },
        Ok(y) => y,
    };
    let new_on_match = match resolve_set_items(&x.on_match, params) {
        Err(e) => {
            return Err(e);
        },
        Ok(y) => y,
    };
    Ok(
        MergeStatement {
            pattern: new_pattern,
            on_create: new_on_create,
            on_match: new_on_match,
            return_clause: new_return_clause,
            order_by: new_order_by,
            skip: new_skip,
            limit: new_limit,
        },
    )
}

/// The same [`UnwindBody`] with each parameter replaced by its value.
fn resolve_unwind_body(x: &UnwindBody, params: &AssocList<Value>) -> (r: Result<UnwindBody, GraphError>)
    ensures
        types::outcome(r) == reference::settled(
            reference::names_unwind_body(x@, true),
            reference::bound_unwind_body(x@, value::props_view(params.entries@)),
            value::props_view(params.entries@),
        ),
    decreases x, 1int,
{
    match x {
        UnwindBody::Return { .. } => resolve_unwind_body_return(x, params),
        UnwindBody::Create { .. } => resolve_unwind_body_create(x, params),
    }
}

/// The same [`UnwindStatement`] with each parameter replaced by its value.
fn resolve_unwind_statement(x: &UnwindStatement, params: &AssocList<Value>) -> (r: Result<UnwindStatement, GraphError>)
    ensures
        types::outcome(r) == reference::settled(
            reference::names_unwind_statement(x@, true),
            reference::bound_unwind_statement(x@, value::props_view(params.entries@)),
            value::props_view(params.entries@),
        ),
    decreases x, 1int,
{
    broadcast use reference::group_first_fault;

    let new_body = match resolve_unwind_body(&x.body, params) {
        Err(e) => {
            return Err(e);
        },
        Ok(y) => y,
    };
    let new_expr = match resolve_expr(&x.expr, params) {
        Err(e) => {
            return Err(e);
        },
        Ok(y) => y,
    };
    Ok(
        UnwindStatement {
            expr: new_expr,
            alias: x.alias.clone(),
            body: new_body,
        },
    )
}

/// The same [`ReturnStatement`] with each parameter replaced by its value.
fn resolve_return_statement(x: &ReturnStatement, params: &AssocList<Value>) -> (r: Result<ReturnStatement, GraphError>)
    ensures
        types::outcome(r) == reference::settled(
            reference::names_return_statement(x@, true),
            reference::bound_return_statement(x@, value::props_view(params.entries@)),
            value::props_view(params.entries@),
        ),
    decreases x, 1int,
{
    broadcast use reference::group_first_fault;

    let new_return_clause = match resolve_return_clause(&x.return_clause, params) {
        Err(e) => {
            return Err(e);
        },
        Ok(y) => y,
    };
    let new_order_by = match resolve_sort_items(&x.order_by, params) {
        Err(e) => {
            return Err(e);
        },
        Ok(y) => y,
    };
    let new_skip = match resolve_opt_expr(&x.skip, params) {
        Err(e) => {
            return Err(e);
        },
        Ok(y) => y,
    };
    let new_limit = match resolve_opt_expr(&x.limit, params) {
        Err(e) => {
            return Err(e);
        },
        Ok(y) => y,
    };
    Ok(
        ReturnStatement {
            return_clause: new_return_clause,
            order_by: new_order_by,
            skip: new_skip,
            limit: new_limit,
        },
    )
}

/// The same [`Clause`] with each parameter replaced by its value.
fn resolve_clause(x: &Clause, params: &AssocList<Value>) -> (r: Result<Clause, GraphError>)
    ensures
        types::outcome(r) == reference::settled(
            reference::names_clause(x@, true),
            reference::bound_clause(x@, value::props_view(params.entries@)),
            value::props_view(params.entries@),
        ),
    decreases x, 1int,
{
    match x {
        Clause::Match { .. } => resolve_clause_match(x, params),
        Clause::Create { .. } => resolve_clause_create(x, params),
        Clause::Merge { .. } => resolve_clause_merge(x, params),
        Clause::With(..) => resolve_clause_with(x, params),
        Clause::Unwind(..) => resolve_clause_unwind(x, params),
        Clause::SetItems { .. } => resolve_clause_set_items(x, params),
        Clause::Remove { .. } => Ok(x.dup()),
        Clause::Call { .. } => resolve_clause_call(x, params),
        Clause::Delete { .. } => resolve_clause_delete(x, params),
    }
}

/// The same [`MultiClauseStatement`] with each parameter replaced by its value.
fn resolve_multi_clause_statement(x: &MultiClauseStatement, params: &AssocList<Value>) -> (r: Result<MultiClauseStatement, GraphError>)
    ensures
        types::outcome(r) == reference::settled(
            reference::names_multi_clause_statement(x@, true),
            reference::bound_multi_clause_statement(x@, value::props_view(params.entries@)),
            value::props_view(params.entries@),
        ),
    decreases x, 1int,
{
    broadcast use reference::group_first_fault;

    let new_clauses = match resolve_clauses(&x.clauses, params) {
        Err(e) => {
            return Err(e);
        },
        Ok(y) => y,
    };
    let new_return_clause = match resolve_opt_return_clause(&x.return_clause, params) {
        Err(e) => {
            return Err(e);
        },
        Ok(y) => y,
    };
    let new_order_by = match resolve_sort_items(&x.order_by, params) {
        Err(e) => {
            return Err(e);
        },
        Ok(y) => y,
    };
    let new_skip = match resolve_opt_expr(&x.skip, params) {
        Err(e) => {
            return Err(e);
        },
        Ok(y) => y,
    };
    let new_limit = match resolve_opt_expr(&x.limit, params) {
        Err(e) => {
            return Err(e);
        },
        Ok(y) => y,
    };
    Ok(
        MultiClauseStatement {
            clauses: new_clauses,
            return_clause: new_return_clause,
            order_by: new_order_by,
            skip: new_skip,
            limit: new_limit,
        },
    )
}

/// The same statement with each parameter replaced by its value.
pub fn resolve_params(x: &Statement, params: &AssocList<Value>) -> (r: Result<Statement, GraphError>)
    ensures
        types::outcome(r) == reference::settled(
            reference::names_statement(x@, true),
            reference::bound_statement(x@, value::props_view(params.entries@)),
            value::props_view(params.entries@),
        ),
    decreases x, 1int,
{
    match x {
        Statement::Match(..) => resolve_statement_match(x, params),
        Statement::Create(..) => resolve_statement_create(x, params),
        Statement::MatchCreate(..) => resolve_statement_match_create(x, params),
        Statement::MatchMerge(..) => resolve_statement_match_merge(x, params),
        Statement::Delete(..) => resolve_statement_delete(x, params),
        Statement::SetProps(..) => resolve_statement_set_props(x, params),
        Statement::Remove(..) => resolve_statement_remove(x, params),
        Statement::Merge(..) => resolve_statement_merge(x, params),
        Statement::Unwind(..) => resolve_statement_unwind(x, params),
        Statement::Return(..) => resolve_statement_return(x, params),
        Statement::MultiClause(..) => resolve_statement_multi_clause(x, params),
        Statement::Explain(..) => resolve_statement_explain(x, params),
        Statement::Union { .. } => resolve_statement_union(x, params),
        Statement::Call { .. } => resolve_statement_call(x, params),
    }
}

/// What a resolved list or an error says.
pub open spec fn exprs_out(r: Result<Vec<Expr>, GraphError>) -> Result<
    Seq<ExprView>,
    ErrorView,
> {
    match r {
        Ok(v) => Ok(ast_model::exprs_view(v@)),
        Err(e) => Err(e@),
    }
}

/// The same list with each parameter replaced by its value.
fn resolve_exprs(v: &Vec<Expr>, params: &AssocList<Value>) -> (r: Result<Vec<Expr>, GraphError>)
    ensures
        exprs_out(r) == reference::settled(
            reference::names_exprs(ast_model::exprs_view(v@), 0, true),
            reference::bound_exprs(ast_model::exprs_view(v@), value::props_view(params.entries@)),
            value::props_view(params.entries@),
        ),
    decreases v, 0int,
{
    let ghost vs = ast_model::exprs_view(v@);
    let ghost ps = value::props_view(params.entries@);
    let mut out: Vec<Expr> = Vec::new();
    let mut i: usize = 0;
    assert(decreases_to!(v => v@));
    while i < v.len()
        invariant
            i <= v.len(),
            out.len() == i,
            vs == ast_model::exprs_view(v@),
            ps == value::props_view(params.entries@),
            decreases_to!(v => v@),
            reference::first_fault(reference::names_exprs(vs, 0, true), ps, true)
                == reference::first_fault(reference::names_exprs(vs, i as int, true), ps, true),
            ast_model::exprs_view(out@) == reference::bound_exprs(vs, ps).take(i as int),
        decreases v.len() - i,
    {
        broadcast use reference::group_first_fault;

        let item = match resolve_expr(&v[i], params) {
            Err(e) => {
                return Err(e);
            },
            Ok(y) => y,
        };
        out.push(item);
        assert(reference::bound_exprs(vs, ps).take(i + 1) =~= reference::bound_exprs(
            vs,
            ps,
        ).take(i as int).push(reference::bound_exprs(vs, ps)[i as int]));
        i = i + 1;
    }
    assert(reference::bound_exprs(vs, ps).take(i as int) =~= reference::bound_exprs(vs, ps));
    Ok(out)
}

/// What a resolved list or an error says.
pub open spec fn alternatives_out(r: Result<Vec<(Box<Expr>, Box<Expr>)>, GraphError>) -> Result<
    Seq<(ExprView, ExprView)>,
    ErrorView,
> {
    match r {
        Ok(v) => Ok(ast_model::alternatives_view(v@)),
        Err(e) => Err(e@),
    }
}

/// The same list with each parameter replaced by its value.
fn resolve_alternatives(v: &Vec<(Box<Expr>, Box<Expr>)>, params: &AssocList<Value>) -> (r: Result<Vec<(Box<Expr>, Box<Expr>)>, GraphError>)
    ensures
        alternatives_out(r) == reference::settled(
            reference::names_alternatives(ast_model::alternatives_view(v@), 0, true),
            reference::bound_alternatives(ast_model::alternatives_view(v@), value::props_view(params.entries@)),
            value::props_view(params.entries@),
        ),
    decreases v, 0int,
{
    let ghost vs = ast_model::alternatives_view(v@);
    let ghost ps = value::props_view(params.entries@);
    let mut out: Vec<(Box<Expr>, Box<Expr>)> = Vec::new();
    let mut i: usize = 0;
    assert(decreases_to!(v => v@));
    while i < v.len()
        invariant
            i <= v.len(),
            out.len() == i,
            vs == ast_model::alternatives_view(v@),
            ps == value::props_view(params.entries@),
            decreases_to!(v => v@),
            reference::first_fault(reference::names_alternatives(vs, 0, true), ps, true)
                == reference::first_fault(reference::names_alternatives(vs, i as int, true), ps, true),
            ast_model::alternatives_view(out@) == reference::bound_alternatives(vs, ps).take(i as int),
        decreases v.len() - i,
    {
        broadcast use reference::group_first_fault;

        assert(decreases_to!(v@[i as int] => v@[i as int].0));
        assert(decreases_to!(v@[i as int] => v@[i as int].1));
        let cond = match resolve_expr(&v[i].0, params) {
            Err(e) => {
                return Err(e);
            },
            Ok(y) => y,
        };
        let result = match resolve_expr(&v[i].1, params) {
            Err(e) => {
                return Err(e);
            },
            Ok(y) => y,
        };
        let item = (Box::new(cond), Box::new(result));
        out.push(item);
        assert(reference::bound_alternatives(vs, ps).take(i + 1) =~= reference::bound_alternatives(
            vs,
            ps,
        ).take(i as int).push(reference::bound_alternatives(vs, ps)[i as int]));
        i = i + 1;
    }
    assert(reference::bound_alternatives(vs, ps).take(i as int) =~= reference::bound_alternatives(vs, ps));
    Ok(out)
}

/// What a resolved list or an error says.
pub open spec fn patterns_out(r: Result<Vec<Pattern>, GraphError>) -> Result<
    Seq<PatternView>,
    ErrorView,
> {
    match r {
        Ok(v) => Ok(ast_model::patterns_view(v@)),
        Err(e) => Err(e@),
    }
}

/// The same list with each parameter replaced by its value.
fn resolve_patterns(v: &Vec<Pattern>, params: &AssocList<Value>) -> (r: Result<Vec<Pattern>, GraphError>)
    ensures
        patterns_out(r) == reference::settled(
            reference::names_patterns(ast_model::patterns_view(v@), 0, true),
            reference::bound_patterns(ast_model::patterns_view(v@), value::props_view(params.entries@)),
            value::props_view(params.entries@),
        ),
    decreases v, 0int,
{
    let ghost vs = ast_model::patterns_view(v@);
    let ghost ps = value::props_view(params.entries@);
    let mut out: Vec<Pattern> = Vec::new();
    let mut i: usize = 0;
    assert(decreases_to!(v => v@));
    while i < v.len()
        invariant
            i <= v.len(),
            out.len() == i,
            vs == ast_model::patterns_view(v@),
            ps == value::props_view(params.entries@),
            decreases_to!(v => v@),
            reference::first_fault(reference::names_patterns(vs, 0, true), ps, true)
                == reference::first_fault(reference::names_patterns(vs, i as int, true), ps, true),
            ast_model::patterns_view(out@) == reference::bound_patterns(vs, ps).take(i as int),
        decreases v.len() - i,
    {
        broadcast use reference::group_first_fault;

        let item = match resolve_pattern(&v[i], params) {
            Err(e) => {
                return Err(e);
            },
            Ok(y) => y,
        };
        out.push(item);
        assert(reference::bound_patterns(vs, ps).take(i + 1) =~= reference::bound_patterns(
            vs,
            ps,
        ).take(i as int).push(reference::bound_patterns(vs, ps)[i as int]));
        i = i + 1;
    }
    assert(reference::bound_patterns(vs, ps).take(i as int) =~= reference::bound_patterns(vs, ps));
    Ok(out)
}

/// What a resolved list or an error says.
pub open spec fn pairs_out(r: Result<Vec<(String, Expr)>, GraphError>) -> Result<
    Seq<(Seq<char>, ExprView)>,
    ErrorView,
> {
    match r {
        Ok(v) => Ok(ast_model::pairs_view(v@)),
        Err(e) => Err(e@),
    }
}

/// The same list with each parameter replaced by its value.
fn resolve_pairs(v: &Vec<(String, Expr)>, params: &AssocList<Value>) -> (r: Result<Vec<(String, Expr)>, GraphError>)
    ensures
        pairs_out(r) == reference::settled(
            reference::names_pairs(ast_model::pairs_view(v@), 0, true),
            reference::bound_pairs(ast_model::pairs_view(v@), value::props_view(params.entries@)),
            value::props_view(params.entries@),
        ),
    decreases v, 0int,
{
    let ghost vs = ast_model::pairs_view(v@);
    let ghost ps = value::props_view(params.entries@);
    let mut out: Vec<(String, Expr)> = Vec::new();
    let mut i: usize = 0;
    assert(decreases_to!(v => v@));
    while i < v.len()
        invariant
            i <= v.len(),
            out.len() == i,
            vs == ast_model::pairs_view(v@),
            ps == value::props_view(params.entries@),
            decreases_to!(v => v@),
            reference::first_fault(reference::names_pairs(vs, 0, true), ps, true)
                == reference::first_fault(reference::names_pairs(vs, i as int, true), ps, true),
            ast_model::pairs_view(out@) == reference::bound_pairs(vs, ps).take(i as int),
        decreases v.len() - i,
    {
        broadcast use reference::group_first_fault;

        assert(decreases_to!(v@[i as int] => v@[i as int].1));
        let item = match resolve_expr(&v[i].1, params) {
            Err(e) => {
                return Err(e);
            },
            Ok(y) => (v[i].0.clone(), y),
        };
        out.push(item);
        assert(reference::bound_pairs(vs, ps).take(i + 1) =~= reference::bound_pairs(
            vs,
            ps,
        ).take(i as int).push(reference::bound_pairs(vs, ps)[i as int]));
        i = i + 1;
    }
    assert(reference::bound_pairs(vs, ps).take(i as int) =~= reference::bound_pairs(vs, ps));
    Ok(out)
}

/// What a resolved list or an error says.
pub open spec fn pattern_elements_out(r: Result<Vec<PatternElement>, GraphError>) -> Result<
    Seq<PatternElementView>,
    ErrorView,
> {
    match r {
        Ok(v) => Ok(ast_model::pattern_elements_view(v@)),
        Err(e) => Err(e@),
    }
}

/// The same list with each parameter replaced by its value.
fn resolve_pattern_elements(v: &Vec<PatternElement>, params: &AssocList<Value>) -> (r: Result<Vec<PatternElement>, GraphError>)
    ensures
        pattern_elements_out(r) == reference::settled(
            reference::names_pattern_elements(ast_model::pattern_elements_view(v@), 0, true),
            reference::bound_pattern_elements(ast_model::pattern_elements_view(v@), value::props_view(params.entries@)),
            value::props_view(params.entries@),
        ),
    decreases v, 0int,
{
    let ghost vs = ast_model::pattern_elements_view(v@);
    let ghost ps = value::props_view(params.entries@);
    let mut out: Vec<PatternElement> = Vec::new();
    let mut i: usize = 0;
    assert(decreases_to!(v => v@));
    while i < v.len()
        invariant
            i <= v.len(),
            out.len() == i,
            vs == ast_model::pattern_elements_view(v@),
            ps == value::props_view(params.entries@),
            decreases_to!(v => v@),
            reference::first_fault(reference::names_pattern_elements(vs, 0, true), ps, true)
                == reference::first_fault(reference::names_pattern_elements(vs, i as int, true), ps, true),
            ast_model::pattern_elements_view(out@) == reference::bound_pattern_elements(vs, ps).take(i as int),
        decreases v.len() - i,
    {
        broadcast use reference::group_first_fault;

        let item = match resolve_pattern_element(&v[i], params) {
            Err(e) => {
                return Err(e);
            },
            Ok(y) => y,
        };
        out.push(item);
        assert(reference::bound_pattern_elements(vs, ps).take(i + 1) =~= reference::bound_pattern_elements(
            vs,
            ps,
        ).take(i as int).push(reference::bound_pattern_elements(vs, ps)[i as int]));
        i = i + 1;
    }
    assert(reference::bound_pattern_elements(vs, ps).take(i as int) =~= reference::bound_pattern_elements(vs, ps));
    Ok(out)
}

/// What a resolved list or an error says.
pub open spec fn return_items_out(r: Result<Vec<ReturnItem>, GraphError>) -> Result<
    Seq<ReturnItemView>,
    ErrorView,
> {
    match r {
        Ok(v) => Ok(ast_model::return_items_view(v@)),
        Err(e) => Err(e@),
    }
}

/// The same list with each parameter replaced by its value.
fn resolve_return_items(v: &Vec<ReturnItem>, params: &AssocList<Value>) -> (r: Result<Vec<ReturnItem>, GraphError>)
    ensures
        return_items_out(r) == reference::settled(
            reference::names_return_items(ast_model::return_items_view(v@), 0, true),
            reference::bound_return_items(ast_model::return_items_view(v@), value::props_view(params.entries@)),
            value::props_view(params.entries@),
        ),
    decreases v, 0int,
{
    let ghost vs = ast_model::return_items_view(v@);
    let ghost ps = value::props_view(params.entries@);
    let mut out: Vec<ReturnItem> = Vec::new();
    let mut i: usize = 0;
    assert(decreases_to!(v => v@));
    while i < v.len()
        invariant
            i <= v.len(),
            out.len() == i,
            vs == ast_model::return_items_view(v@),
            ps == value::props_view(params.entries@),
            decreases_to!(v => v@),
            reference::first_fault(reference::names_return_items(vs, 0, true), ps, true)
                == reference::first_fault(reference::names_return_items(vs, i as int, true), ps, true),
            ast_model::return_items_view(out@) == reference::bound_return_items(vs, ps).take(i as int),
        decreases v.len() - i,
    {
        broadcast use reference::group_first_fault;

        let item = match resolve_return_item(&v[i], params) {
            Err(e) => {
                return Err(e);
            },
            Ok(y) => y,
        };
        out.push(item);
        assert(reference::bound_return_items(vs, ps).take(i + 1) =~= reference::bound_return_items(
            vs,
            ps,
        ).take(i as int).push(reference::bound_return_items(vs, ps)[i as int]));
        i = i + 1;
    }
    assert(reference::bound_return_items(vs, ps).take(i as int) =~= reference::bound_return_items(vs, ps));
    Ok(out)
}

/// What a resolved list or an error says.
pub open spec fn sort_items_out(r: Result<Vec<SortItem>, GraphError>) -> Result<
    Seq<SortItemView>,
    ErrorView,
> {
    match r {
        Ok(v) => Ok(ast_model::sort_items_view(v@)),
        Err(e) => Err(e@),
    }
}

/// The same list with each parameter replaced by its value.
fn resolve_sort_items(v: &Vec<SortItem>, params: &AssocList<Value>) -> (r: Result<Vec<SortItem>, GraphError>)
    ensures
        sort_items_out(r) == reference::settled(
            reference::names_sort_items(ast_model::sort_items_view(v@), 0, true),
            reference::bound_sort_items(ast_model::sort_items_view(v@), value::props_view(params.entries@)),
            value::props_view(params.entries@),
        ),
    decreases v, 0int,
{
    let ghost vs = ast_model::sort_items_view(v@);
    let ghost ps = value::props_view(params.entries@);
    let mut out: Vec<SortItem> = Vec::new();
    let mut i: usize = 0;
    assert(decreases_to!(v => v@));
    while i < v.len()
        invariant
            i <= v.len(),
            out.len() == i,
            vs == ast_model::sort_items_view(v@),
            ps == value::props_view(params.entries@),
            decreases_to!(v => v@),
            reference::first_fault(reference::names_sort_items(vs, 0, true), ps, true)
                == reference::first_fault(reference::names_sort_items(vs, i as int, true), ps, true),
            ast_model::sort_items_view(out@) == reference::bound_sort_items(vs, ps).take(i as int),
        decreases v.len() - i,
    {
        broadcast use reference::group_first_fault;

        let item = match resolve_sort_item(&v[i], params) {
            Err(e) => {
                return Err(e);
            },
            Ok(y) => y,
        };
        out.push(item);
        assert(reference::bound_sort_items(vs, ps).take(i + 1) =~= reference::bound_sort_items(
            vs,
            ps,
        ).take(i as int).push(reference::bound_sort_items(vs, ps)[i as int]));
        i = i + 1;
    }
    assert(reference::bound_sort_items(vs, ps).take(i as int) =~= reference::bound_sort_items(vs, ps));
    Ok(out)
}

/// What a resolved list or an error says.
pub open spec fn optional_matchs_out(r: Result<Vec<OptionalMatch>, GraphError>) -> Result<
    Seq<OptionalMatchView>,
    ErrorView,
> {
    match r {
        Ok(v) => Ok(ast_model::optional_matchs_view(v@)),
        Err(e) => Err(e@),
    }
}

/// The same list with each parameter replaced by its value.
fn resolve_optional_matchs(v: &Vec<OptionalMatch>, params: &AssocList<Value>) -> (r: Result<Vec<OptionalMatch>, GraphError>)
    ensures
        optional_matchs_out(r) == reference::settled(
            reference::names_optional_matchs(ast_model::optional_matchs_view(v@), 0, true),
            reference::bound_optional_matchs(ast_model::optional_matchs_view(v@), value::props_view(params.entries@)),
            value::props_view(params.entries@),
        ),
    decreases v, 0int,
{
    let ghost vs = ast_model::optional_matchs_view(v@);
    let ghost ps = value::props_view(params.entries@);
    let mut out: Vec<OptionalMatch> = Vec::new();
    let mut i: usize = 0;
    assert(decreases_to!(v => v@));
    while i < v.len()
        invariant
            i <= v.len(),
            out.len() == i,
            vs == ast_model::optional_matchs_view(v@),
            ps == value::props_view(params.entries@),
            decreases_to!(v => v@),
            reference::first_fault(reference::names_optional_matchs(vs, 0, true), ps, true)
                == reference::first_fault(reference::names_optional_matchs(vs, i as int, true), ps, true),
            ast_model::optional_matchs_view(out@) == reference::bound_optional_matchs(vs, ps).take(i as int),
        decreases v.len() - i,
    {
        broadcast use reference::group_first_fault;

        let item = match resolve_optional_match(&v[i], params) {
            Err(e) => {
                return Err(e);
            },
            Ok(y) => y,
        };
        out.push(item);
        assert(reference::bound_optional_matchs(vs, ps).take(i + 1) =~= reference::bound_optional_matchs(
            vs,
            ps,
        ).take(i as int).push(reference::bound_optional_matchs(vs, ps)[i as int]));
        i = i + 1;
    }
    assert(reference::bound_optional_matchs(vs, ps).take(i as int) =~= reference::bound_optional_matchs(vs, ps));
    Ok(out)
}

/// What a resolved list or an error says.
pub open spec fn intermediate_clauses_out(r: Result<Vec<IntermediateClause>, GraphError>) -> Result<
    Seq<IntermediateClauseView>,
    ErrorView,
> {
    match r {
        Ok(v) => Ok(ast_model::intermediate_clauses_view(v@)),
        Err(e) => Err(e@),
    }
}

/// The same list with each parameter replaced by its value.
fn resolve_intermediate_clauses(v: &Vec<IntermediateClause>, params: &AssocList<Value>) -> (r: Result<Vec<IntermediateClause>, GraphError>)
    ensures
        intermediate_clauses_out(r) == reference::settled(
            reference::names_intermediate_clauses(ast_model::intermediate_clauses_view(v@), 0, true),
            reference::bound_intermediate_clauses(ast_model::intermediate_clauses_view(v@), value::props_view(params.entries@)),
            value::props_view(params.entries@),
        ),
    decreases v, 0int,
{
    let ghost vs = ast_model::intermediate_clauses_view(v@);
    let ghost ps = value::props_view(params.entries@);
    let mut out: Vec<IntermediateClause> = Vec::new();
    let mut i: usize = 0;
    assert(decreases_to!(v => v@));
    while i < v.len()
        invariant
            i <= v.len(),
            out.len() == i,
            vs == ast_model::intermediate_clauses_view(v@),
            ps == value::props_view(params.entries@),
            decreases_to!(v => v@),
            reference::first_fault(reference::names_intermediate_clauses(vs, 0, true), ps, true)
                == reference::first_fault(reference::names_intermediate_clauses(vs, i as int, true), ps, true),
            ast_model::intermediate_clauses_view(out@) == reference::bound_intermediate_clauses(vs, ps).take(i as int),
        decreases v.len() - i,
    {
        broadcast use reference::group_first_fault;

        let item = match resolve_intermediate_clause(&v[i], params) {
            Err(e) => {
                return Err(e);
            },
            Ok(y) => y,
        };
        out.push(item);
        assert(reference::bound_intermediate_clauses(vs, ps).take(i + 1) =~= reference::bound_intermediate_clauses(
            vs,
            ps,
        ).take(i as int).push(reference::bound_intermediate_clauses(vs, ps)[i as int]));
        i = i + 1;
    }
    assert(reference::bound_intermediate_clauses(vs, ps).take(i as int) =~= reference::bound_intermediate_clauses(vs, ps));
    Ok(out)
}

/// What a resolved list or an error says.
pub open spec fn set_items_out(r: Result<Vec<SetItem>, GraphError>) -> Result<
    Seq<SetItemView>,
    ErrorView,
> {
    match r {
        Ok(v) => Ok(ast_model::set_items_view(v@)),
        Err(e) => Err(e@),
    }
}

/// The same list with each parameter replaced by its value.
fn resolve_set_items(v: &Vec<SetItem>, params: &AssocList<Value>) -> (r: Result<Vec<SetItem>, GraphError>)
    ensures
        set_items_out(r) == reference::settled(
            reference::names_set_items(ast_model::set_items_view(v@), 0, true),
            reference::bound_set_items(ast_model::set_items_view(v@), value::props_view(params.entries@)),
            value::props_view(params.entries@),
        ),
    decreases v, 0int,
{
    let ghost vs = ast_model::set_items_view(v@);
    let ghost ps = value::props_view(params.entries@);
    let mut out: Vec<SetItem> = Vec::new();
    let mut i: usize = 0;
    assert(decreases_to!(v => v@));
    while i < v.len()
        invariant
            i <= v.len(),
            out.len() == i,
            vs == ast_model::set_items_view(v@),
            ps == value::props_view(params.entries@),
            decreases_to!(v => v@),
            reference::first_fault(reference::names_set_items(vs, 0, true), ps, true)
                == reference::first_fault(reference::names_set_items(vs, i as int, true), ps, true),
            ast_model::set_items_view(out@) == reference::bound_set_items(vs, ps).take(i as int),
        decreases v.len() - i,
    {
        broadcast use reference::group_first_fault;

        let item = match resolve_set_item(&v[i], params) {
            Err(e) => {
                return Err(e);
            },
            Ok(y) => y,
        };
        out.push(item);
        assert(reference::bound_set_items(vs, ps).take(i + 1) =~= reference::bound_set_items(
            vs,
            ps,
        ).take(i as int).push(reference::bound_set_items(vs, ps)[i as int]));
        i = i + 1;
    }
    assert(reference::bound_set_items(vs, ps).take(i as int) =~= reference::bound_set_items(vs, ps));
    Ok(out)
}

/// What a resolved list or an error says.
pub open spec fn clauses_out(r: Result<Vec<Clause>, GraphError>) -> Result<
    Seq<ClauseView>,
    ErrorView,
> {
    match r {
        Ok(v) => Ok(ast_model::clauses_view(v@)),
        Err(e) => Err(e@),
    }
}

/// The same list with each parameter replaced by its value.
fn resolve_clauses(v: &Vec<Clause>, params: &AssocList<Value>) -> (r: Result<Vec<Clause>, GraphError>)
    ensures
        clauses_out(r) == reference::settled(
            reference::names_clauses(ast_model::clauses_view(v@), 0, true),
            reference::bound_clauses(ast_model::clauses_view(v@), value::props_view(params.entries@)),
            value::props_view(params.entries@),
        ),
    decreases v, 0int,
{
    let ghost vs = ast_model::clauses_view(v@);
    let ghost ps = value::props_view(params.entries@);
    let mut out: Vec<Clause> = Vec::new();
    let mut i: usize = 0;
    assert(decreases_to!(v => v@));
    while i < v.len()
        invariant
            i <= v.len(),
            out.len() == i,
            vs == ast_model::clauses_view(v@),
            ps == value::props_view(params.entries@),
            decreases_to!(v => v@),
            reference::first_fault(reference::names_clauses(vs, 0, true), ps, true)
                == reference::first_fault(reference::names_clauses(vs, i as int, true), ps, true),
            ast_model::clauses_view(out@) == reference::bound_clauses(vs, ps).take(i as int),
        decreases v.len() - i,
    {
        broadcast use reference::group_first_fault;

        let item = match resolve_clause(&v[i], params) {
            Err(e) => {
                return Err(e);
            },
            Ok(y) => y,
        };
        out.push(item);
        assert(reference::bound_clauses(vs, ps).take(i + 1) =~= reference::bound_clauses(
            vs,
            ps,
        ).take(i as int).push(reference::bound_clauses(vs, ps)[i as int]));
        i = i + 1;
    }
    assert(reference::bound_clauses(vs, ps).take(i as int) =~= reference::bound_clauses(vs, ps));
    Ok(out)
}

/// What a resolved list or an error says.
pub open spec fn statements_out(r: Result<Vec<Statement>, GraphError>) -> Result<
    Seq<StatementView>,
    ErrorView,
> {
    match r {
        Ok(v) => Ok(ast_model::statements_view(v@)),
        Err(e) => Err(e@),
    }
}

/// The same list with each parameter replaced by its value.
fn resolve_statements(v: &Vec<Statement>, params: &AssocList<Value>) -> (r: Result<Vec<Statement>, GraphError>)
    ensures
        statements_out(r) == reference::settled(
            reference::names_statements(ast_model::statements_view(v@), 0, true),
            reference::bound_statements(ast_model::statements_view(v@), value::props_view(params.entries@)),
            value::props_view(params.entries@),
        ),
    decreases v, 0int,
{
    let ghost vs = ast_model::statements_view(v@);
    let ghost ps = value::props_view(params.entries@);
    let mut out: Vec<Statement> = Vec::new();
    let mut i: usize = 0;
    assert(decreases_to!(v => v@));
    while i < v.len()
        invariant
            i <= v.len(),
            out.len() == i,
            vs == ast_model::statements_view(v@),
            ps == value::props_view(params.entries@),
            decreases_to!(v => v@),
            reference::first_fault(reference::names_statements(vs, 0, true), ps, true)
                == reference::first_fault(reference::names_statements(vs, i as int, true), ps, true),
            ast_model::statements_view(out@) == reference::bound_statements(vs, ps).take(i as int),
        decreases v.len() - i,
    {
        broadcast use reference::group_first_fault;

        let item = match resolve_params(&v[i], params) {
            Err(e) => {
                return Err(e);
            },
            Ok(y) => y,
        };
        out.push(item);
        assert(reference::bound_statements(vs, ps).take(i + 1) =~= reference::bound_statements(
            vs,
            ps,
        ).take(i as int).push(reference::bound_statements(vs, ps)[i as int]));
        i = i + 1;
    }
    assert(reference::bound_statements(vs, ps).take(i as int) =~= reference::bound_statements(vs, ps));
    Ok(out)
}

/// What a resolved part or an error says.
pub open spec fn opt_box_out(r: Result<Option<Box<Expr>>, GraphError>) -> Result<
    Option<Box<ExprView>>,
    ErrorView,
> {
    match r {
        Ok(o) => Ok(ast_model::opt_box_view(o)),
        Err(e) => Err(e@),
    }
}

/// The same part, if there is one, with each parameter replaced by its value.
fn resolve_opt_box(o: &Option<Box<Expr>>, params: &AssocList<Value>) -> (r: Result<
    Option<Box<Expr>>,
    GraphError,
>)
    ensures
        opt_box_out(r) == reference::settled(
            reference::names_opt_box(ast_model::opt_box_view(*o), true),
            reference::bound_opt_box(ast_model::opt_box_view(*o), value::props_view(params.entries@)),
            value::props_view(params.entries@),
        ),
    decreases o, 0int,
{
    match o {
        Some(y) => match resolve_expr(y, params) {
            Err(e) => Err(e),
            Ok(z) => Ok(Some(Box::new(z))),
        },
        None => Ok(None),
    }
}

/// What a resolved part or an error says.
pub open spec fn opt_expr_out(r: Result<Option<Expr>, GraphError>) -> Result<
    Option<ExprView>,
    ErrorView,
> {
    match r {
        Ok(o) => Ok(ast_model::opt_expr_view(o)),
        Err(e) => Err(e@),
    }
}

/// The same part, if there is one, with each parameter replaced by its value.
fn resolve_opt_expr(o: &Option<Expr>, params: &AssocList<Value>) -> (r: Result<
    Option<Expr>,
    GraphError,
>)
    ensures
        opt_expr_out(r) == reference::settled(
            reference::names_opt_expr(ast_model::opt_expr_view(*o), true),
            reference::bound_opt_expr(ast_model::opt_expr_view(*o), value::props_view(params.entries@)),
            value::props_view(params.entries@),
        ),
    decreases o, 0int,
{
    match o {
        Some(y) => match resolve_expr(y, params) {
            Err(e) => Err(e),
            Ok(z) => Ok(Some(z)),
        },
        None => Ok(None),
    }
}

/// What a resolved part or an error says.
pub open spec fn opt_return_clause_out(r: Result<Option<ReturnClause>, GraphError>) -> Result<
    Option<ReturnClauseView>,
    ErrorView,
> {
    match r {
        Ok(o) => Ok(ast_model::opt_return_clause_view(o)),
        Err(e) => Err(e@),
    }
}

/// The same part, if there is one, with each parameter replaced by its value.
fn resolve_opt_return_clause(o: &Option<ReturnClause>, params: &AssocList<Value>) -> (r: Result<
    Option<ReturnClause>,
    GraphError,
>)
    ensures
        opt_return_clause_out(r) == reference::settled(
            reference::names_opt_return_clause(ast_model::opt_return_clause_view(*o), true),
            reference::bound_opt_return_clause(ast_model::opt_return_clause_view(*o), value::props_view(params.entries@)),
            value::props_view(params.entries@),
        ),
    decreases o, 0int,
{
    match o {
        Some(y) => match resolve_return_clause(y, params) {
            Err(e) => Err(e),
            Ok(z) => Ok(Some(z)),
        },
        None => Ok(None),
    }
}

/// The same [`ExprKind::PatternPredicate`] with each parameter replaced by its value.
fn resolve_expr_kind_pattern_predicate(x: &ExprKind, params: &AssocList<Value>) -> (r: Result<ExprKind, GraphError>)
    requires
        x is PatternPredicate,
    ensures
        types::outcome(r) == reference::settled(
            reference::names_expr_kind(x@, true),
            reference::bound_expr_kind(x@, value::props_view(params.entries@)),
            value::props_view(params.entries@),
        ),
    decreases x, 0int,
{
    match x {
        ExprKind::PatternPredicate(a) => match resolve_pattern(a, params) {
            Err(e) => Err(e),
            Ok(y) => Ok(ExprKind::PatternPredicate(y)),
        },
        _ => Ok(x.dup()),
    }
}

/// The same [`ExprKind::BinaryOp`] with each parameter replaced by its value.
fn resolve_expr_kind_binary_op(x: &ExprKind, params: &AssocList<Value>) -> (r: Result<ExprKind, GraphError>)
    requires
        x is BinaryOp,
    ensures
        types::outcome(r) == reference::settled(
            reference::names_expr_kind(x@, true),
            reference::bound_expr_kind(x@, value::props_view(params.entries@)),
            value::props_view(params.entries@),
        ),
    decreases x, 0int,
{
    broadcast use reference::group_first_fault;

    match x {
        ExprKind::BinaryOp { left, op, right } => {
            let new_left = match resolve_expr(left, params) {
                Err(e) => {
                    return Err(e);
                },
                Ok(y) => y,
            };
            let new_right = match resolve_expr(right, params) {
                Err(e) => {
                    return Err(e);
                },
                Ok(y) => y,
            };
            Ok(
                ExprKind::BinaryOp {
                    left: Box::new(new_left),
                    op: *op,
                    right: Box::new(new_right),
                },
            )
        },
        _ => Ok(x.dup()),
    }
}

/// The same [`ExprKind::Not`] with each parameter replaced by its value.
fn resolve_expr_kind_not(x: &ExprKind, params: &AssocList<Value>) -> (r: Result<ExprKind, GraphError>)
    requires
        x is Not,
    ensures
        types::outcome(r) == reference::settled(
            reference::names_expr_kind(x@, true),
            reference::bound_expr_kind(x@, value::props_view(params.entries@)),
            value::props_view(params.entries@),
        ),
    decreases x, 0int,
{
    match x {
        ExprKind::Not(a) => match resolve_expr(a, params) {
            Err(e) => Err(e),
            Ok(y) => Ok(ExprKind::Not(Box::new(y))),
        },
        _ => Ok(x.dup()),
    }
}

/// The same [`ExprKind::IsNull`] with each parameter replaced by its value.
fn resolve_expr_kind_is_null(x: &ExprKind, params: &AssocList<Value>) -> (r: Result<ExprKind, GraphError>)
    requires
        x is IsNull,
    ensures
        types::outcome(r) == reference::settled(
            reference::names_expr_kind(x@, true),
            reference::bound_expr_kind(x@, value::props_view(params.entries@)),
            value::props_view(params.entries@),
        ),
    decreases x, 0int,
{
    match x {
        ExprKind::IsNull(a) => match resolve_expr(a, params) {
            Err(e) => Err(e),
            Ok(y) => Ok(ExprKind::IsNull(Box::new(y))),
        },
        _ => Ok(x.dup()),
    }
}

/// The same [`ExprKind::IsNotNull`] with each parameter replaced by its value.
fn resolve_expr_kind_is_not_null(x: &ExprKind, params: &AssocList<Value>) -> (r: Result<ExprKind, GraphError>)
    requires
        x is IsNotNull,
    ensures
        types::outcome(r) == reference::settled(
            reference::names_expr_kind(x@, true),
            reference::bound_expr_kind(x@, value::props_view(params.entries@)),
            value::props_view(params.entries@),
        ),
    decreases x, 0int,
{
    match x {
        ExprKind::IsNotNull(a) => match resolve_expr(a, params) {
            Err(e) => Err(e),
            Ok(y) => Ok(ExprKind::IsNotNull(Box::new(y))),
        },
        _ => Ok(x.dup()),
    }
}

/// The same [`ExprKind::FunctionCall`] with each parameter replaced by its value.
fn resolve_expr_kind_function_call(x: &ExprKind, params: &AssocList<Value>) -> (r: Result<ExprKind, GraphError>)
    requires
        x is FunctionCall,
    ensures
        types::outcome(r) == reference::settled(
            reference::names_expr_kind(x@, true),
            reference::bound_expr_kind(x@, value::props_view(params.entries@)),
            value::props_view(params.entries@),
        ),
    decreases x, 0int,
{
    broadcast use reference::group_first_fault;

    match x {
        ExprKind::FunctionCall { name, args, distinct, original_text } => {
            let new_args = match resolve_exprs(args, params) {
                Err(e) => {
                    return Err(e);
                },
                Ok(y) => y,
            };
            Ok(
                ExprKind::FunctionCall {
                    name: name.clone(),
                    args: new_args,
                    distinct: *distinct,
                    original_text: ast_copy::dup_opt_text(original_text),
                },
            )
        },
        _ => Ok(x.dup()),
    }
}

/// The same [`ExprKind::Case`] with each parameter replaced by its value.
fn resolve_expr_kind_case(x: &ExprKind, params: &AssocList<Value>) -> (r: Result<ExprKind, GraphError>)
    requires
        x is Case,
    ensures
        types::outcome(r) == reference::settled(
            reference::names_expr_kind(x@, true),
            reference::bound_expr_kind(x@, value::props_view(params.entries@)),
            value::props_view(params.entries@),
        ),
    decreases x, 0int,
{
    broadcast use reference::group_first_fault;

    match x {
        ExprKind::Case { operand, alternatives, default } => {
            let new_operand = match resolve_opt_box(operand, params) {
                Err(e) => {
                    return Err(e);
                },
                Ok(y) => y,
            };
            let new_alternatives = match resolve_alternatives(alternatives, params) {
                Err(e) => {
                    return Err(e);
                },
                Ok(y) => y,
            };
            let new_default = match resolve_opt_box(default, params) {
                Err(e) => {
                    return Err(e);
                },
                Ok(y) => y,
            };
            Ok(
                ExprKind::Case {
                    operand: new_operand,
                    alternatives: new_alternatives,
                    default: new_default,
                },
            )
        },
        _ => Ok(x.dup()),
    }
}

/// The same [`ExprKind::List`] with each parameter replaced by its value.
fn resolve_expr_kind_list(x: &ExprKind, params: &AssocList<Value>) -> (r: Result<ExprKind, GraphError>)
    requires
        x is List,
    ensures
        types::outcome(r) == reference::settled(
            reference::names_expr_kind(x@, true),
            reference::bound_expr_kind(x@, value::props_view(params.entries@)),
            value::props_view(params.entries@),
        ),
    decreases x, 0int,
{
    match x {
        ExprKind::List(a) => match resolve_exprs(a, params) {
            Err(e) => Err(e),
            Ok(y) => Ok(ExprKind::List(y)),
        },
        _ => Ok(x.dup()),
    }
}

/// The same [`ExprKind::ListComprehension`] with each parameter replaced by its value.
fn resolve_expr_kind_list_comprehension(x: &ExprKind, params: &AssocList<Value>) -> (r: Result<ExprKind, GraphError>)
    requires
        x is ListComprehension,
    ensures
        types::outcome(r) == reference::settled(
            reference::names_expr_kind(x@, true),
            reference::bound_expr_kind(x@, value::props_view(params.entries@)),
            value::props_view(params.entries@),
        ),
    decreases x, 0int,
{
    broadcast use reference::group_first_fault;

    match x {
        ExprKind::ListComprehension { variable, list_expr, filter, map_expr } => {
            let new_list_expr = match resolve_expr(list_expr, params) {
                Err(e) => {
                    return Err(e);
                },
                Ok(y) => y,
            };
            let new_filter = match resolve_opt_box(filter, params) {
                Err(e) => {
                    return Err(e);
                },
                Ok(y) => y,
            };
            let new_map_expr = match resolve_opt_box(map_expr, params) {
                Err(e) => {
                    return Err(e);
                },
                Ok(y) => y,
            };
            Ok(
                ExprKind::ListComprehension {
                    variable: variable.clone(),
                    list_expr: Box::new(new_list_expr),
                    filter: new_filter,
                    map_expr: new_map_expr,
                },
            )
        },
        _ => Ok(x.dup()),
    }
}

/// The same [`ExprKind::PatternComprehension`] with each parameter replaced by its value.
fn resolve_expr_kind_pattern_comprehension(x: &ExprKind, params: &AssocList<Value>) -> (r: Result<ExprKind, GraphError>)
    requires
        x is PatternComprehension,
    ensures
        types::outcome(r) == reference::settled(
            reference::names_expr_kind(x@, true),
            reference::bound_expr_kind(x@, value::props_view(params.entries@)),
            value::props_view(params.entries@),
        ),
    decreases x, 0int,
{
    broadcast use reference::group_first_fault;

    match x {
        ExprKind::PatternComprehension { path_variable, pattern, where_clause, map_expr } => {
            let new_pattern = match resolve_pattern(pattern, params) {
                Err(e) => {
                    return Err(e);
                },
                Ok(y) => y,
            };
            let new_where_clause = match resolve_opt_box(where_clause, params) {
                Err(e) => {
                    return Err(e);
                },
                Ok(y) => y,
            };
            let new_map_expr = match resolve_expr(map_expr, params) {
                Err(e) => {
                    return Err(e);
                },
                Ok(y) => y,
            };
            Ok(
                ExprKind::PatternComprehension {
                    path_variable: ast_copy::dup_opt_text(path_variable),
                    pattern: new_pattern,
                    where_clause: new_where_clause,
                    map_expr: Box::new(new_map_expr),
                },
            )
        },
        _ => Ok(x.dup()),
    }
}

/// The same [`ExprKind::Quantifier`] with each parameter replaced by its value.
fn resolve_expr_kind_quantifier(x: &ExprKind, params: &AssocList<Value>) -> (r: Result<ExprKind, GraphError>)
    requires
        x is Quantifier,
    ensures
        types::outcome(r) == reference::settled(
            reference::names_expr_kind(x@, true),
            reference::bound_expr_kind(x@, value::props_view(params.entries@)),
            value::props_view(params.entries@),
        ),
    decreases x, 0int,
{
    broadcast use reference::group_first_fault;

    match x {
        ExprKind::Quantifier { kind, variable, list_expr, predicate } => {
            let new_list_expr = match resolve_expr(list_expr, params) {
                Err(e) => {
                    return Err(e);
                },
                Ok(y) => y,
            };
            let new_predicate = match resolve_expr(predicate, params) {
                Err(e) => {
                    return Err(e);
                },
                Ok(y) => y,
            };
            Ok(
                ExprKind::Quantifier {
                    kind: *kind,
                    variable: variable.clone(),
                    list_expr: Box::new(new_list_expr),
                    predicate: Box::new(new_predicate),
                },
            )
        },
        _ => Ok(x.dup()),
    }
}

/// The same [`ExprKind::Exists`] with each parameter replaced by its value.
fn resolve_expr_kind_exists(x: &ExprKind, params: &AssocList<Value>) -> (r: Result<ExprKind, GraphError>)
    requires
        x is Exists,
    ensures
        types::outcome(r) == reference::settled(
            reference::names_expr_kind(x@, true),
            reference::bound_expr_kind(x@, value::props_view(params.entries@)),
            value::props_view(params.entries@),
        ),
    decreases x, 0int,
{
    broadcast use reference::group_first_fault;

    match x {
        ExprKind::Exists { patterns, where_clause } => {
            let new_patterns = match resolve_patterns(patterns, params) {
                Err(e) => {
                    return Err(e);
                },
                Ok(y) => y,
            };
            let new_where_clause = match resolve_opt_box(where_clause, params) {
                Err(e) => {
                    return Err(e);
                },
                Ok(y) => y,
            };
            Ok(
                ExprKind::Exists {
                    patterns: new_patterns,
                    where_clause: new_where_clause,
                },
            )
        },
        _ => Ok(x.dup()),
    }
}

/// The same [`ExprKind::ExistsSubquery`] with each parameter replaced by its value.
fn resolve_expr_kind_exists_subquery(x: &ExprKind, params: &AssocList<Value>) -> (r: Result<ExprKind, GraphError>)
    requires
        x is ExistsSubquery,
    ensures
        types::outcome(r) == reference::settled(
            reference::names_expr_kind(x@, true),
            reference::bound_expr_kind(x@, value::props_view(params.entries@)),
            value::props_view(params.entries@),
        ),
    decreases x, 0int,
{
    match x {
        ExprKind::ExistsSubquery(a) => match resolve_params(a, params) {
            Err(e) => Err(e),
            Ok(y) => Ok(ExprKind::ExistsSubquery(Box::new(y))),
        },
        _ => Ok(x.dup()),
    }
}

/// The same [`ExprKind::MapLiteral`] with each parameter replaced by its value.
fn resolve_expr_kind_map_literal(x: &ExprKind, params: &AssocList<Value>) -> (r: Result<ExprKind, GraphError>)
    requires
        x is MapLiteral,
    ensures
        types::outcome(r) == reference::settled(
            reference::names_expr_kind(x@, true),
            reference::bound_expr_kind(x@, value::props_view(params.entries@)),
            value::props_view(params.entries@),
        ),
    decreases x, 0int,
{
    match x {
        ExprKind::MapLiteral(a) => match resolve_pairs(a, params) {
            Err(e) => Err(e),
            Ok(y) => Ok(ExprKind::MapLiteral(y)),
        },
        _ => Ok(x.dup()),
    }
}

/// The same [`ExprKind::Index`] with each parameter replaced by its value.
fn resolve_expr_kind_index(x: &ExprKind, params: &AssocList<Value>) -> (r: Result<ExprKind, GraphError>)
    requires
        x is Index,
    ensures
        types::outcome(r) == reference::settled(
            reference::names_expr_kind(x@, true),
            reference::bound_expr_kind(x@, value::props_view(params.entries@)),
            value::props_view(params.entries@),
        ),
    decreases x, 0int,
{
    broadcast use reference::group_first_fault;

    match x {
        ExprKind::Index { expr, index } => {
            let new_expr = match resolve_expr(expr, params) {
                Err(e) => {
                    return Err(e);
                },
                Ok(y) => y,
            };
            let new_index = match resolve_expr(index, params) {
                Err(e) => {
                    return Err(e);
                },
                Ok(y) => y,
            };
            Ok(
                ExprKind::Index {
                    expr: Box::new(new_expr),
                    index: Box::new(new_index),
                },
            )
        },
        _ => Ok(x.dup()),
    }
}

/// The same [`ExprKind::DotAccess`] with each parameter replaced by its value.
fn resolve_expr_kind_dot_access(x: &ExprKind, params: &AssocList<Value>) -> (r: Result<ExprKind, GraphError>)
    requires
        x is DotAccess,
    ensures
        types::outcome(r) == reference::settled(
            reference::names_expr_kind(x@, true),
            reference::bound_expr_kind(x@, value::props_view(params.entries@)),
            value::props_view(params.entries@),
        ),
    decreases x, 0int,
{
    broadcast use reference::group_first_fault;

    match x {
        ExprKind::DotAccess { expr, key } => {
            let new_expr = match resolve_expr(expr, params) {
                Err(e) => {
                    return Err(e);
                },
                Ok(y) => y,
            };
            Ok(
                ExprKind::DotAccess {
                    expr: Box::new(new_expr),
                    key: key.clone(),
                },
            )
        },
        _ => Ok(x.dup()),
    }
}

/// The same [`ExprKind::Slice`] with each parameter replaced by its value.
fn resolve_expr_kind_slice(x: &ExprKind, params: &AssocList<Value>) -> (r: Result<ExprKind, GraphError>)
    requires
        x is Slice,
    ensures
        types::outcome(r) == reference::settled(
            reference::names_expr_kind(x@, true),
            reference::bound_expr_kind(x@, value::props_view(params.entries@)),
            value::props_view(params.entries@),
        ),
    decreases x, 0int,
{
    broadcast use reference::group_first_fault;

    match x {
        ExprKind::Slice { expr, start, end } => {
            let new_expr = match resolve_expr(expr, params) {
                Err(e) => {
                    return Err(e);
                },
                Ok(y) => y,
            };
            let new_start = match resolve_opt_box(start, params) {
                Err(e) => {
                    return Err(e);
                },
                Ok(y) => y,
            };
            let new_end = match resolve_opt_box(end, params) {
                Err(e) => {
                    return Err(e);
                },
                Ok(y) => y,
            };
            Ok(
                ExprKind::Slice {
                    expr: Box::new(new_expr),
                    start: new_start,
                    end: new_end,
                },
            )
        },
        _ => Ok(x.dup()),
    }
}

/// The same [`IntermediateClause::With`] with each parameter replaced by its value.
fn resolve_intermediate_clause_with(x: &IntermediateClause, params: &AssocList<Value>) -> (r: Result<IntermediateClause, GraphError>)
    requires
        x is With,
    ensures
        types::outcome(r) == reference::settled(
            reference::names_intermediate_clause(x@, true),
            reference::bound_intermediate_clause(x@, value::props_view(params.entries@)),
            value::props_view(params.entries@),
        ),
    decreases x, 0int,
{
    match x {
        IntermediateClause::With(a) => match resolve_with_clause(a, params) {
            Err(e) => Err(e),
            Ok(y) => Ok(IntermediateClause::With(y)),
        },
        _ => Ok(x.dup()),
    }
}

/// The same [`IntermediateClause::Unwind`] with each parameter replaced by its value.
fn resolve_intermediate_clause_unwind(x: &IntermediateClause, params: &AssocList<Value>) -> (r: Result<IntermediateClause, GraphError>)
    requires
        x is Unwind,
    ensures
        types::outcome(r) == reference::settled(
            reference::names_intermediate_clause(x@, true),
            reference::bound_intermediate_clause(x@, value::props_view(params.entries@)),
            value::props_view(params.entries@),
        ),
    decreases x, 0int,
{
    match x {
        IntermediateClause::Unwind(a) => match resolve_unwind_clause(a, params) {
            Err(e) => Err(e),
            Ok(y) => Ok(IntermediateClause::Unwind(y)),
        },
        _ => Ok(x.dup()),
    }
}

/// The same [`IntermediateClause::Match`] with each parameter replaced by its value.
fn resolve_intermediate_clause_match(x: &IntermediateClause, params: &AssocList<Value>) -> (r: Result<IntermediateClause, GraphError>)
    requires
        x is Match,
    ensures
        types::outcome(r) == reference::settled(
            reference::names_intermediate_clause(x@, true),
            reference::bound_intermediate_clause(x@, value::props_view(params.entries@)),
            value::props_view(params.entries@),
        ),
    decreases x, 0int,
{
    match x {
        IntermediateClause::Match(a) => match resolve_intermediate_match(a, params) {
            Err(e) => Err(e),
            Ok(y) => Ok(IntermediateClause::Match(y)),
        },
        _ => Ok(x.dup()),
    }
}

/// The same [`UnwindBody::Return`] with each parameter replaced by its value.
fn resolve_unwind_body_return(x: &UnwindBody, params: &AssocList<Value>) -> (r: Result<UnwindBody, GraphError>)
    requires
        x is Return,
    ensures
        types::outcome(r) == reference::settled(
            reference::names_unwind_body(x@, true),
            reference::bound_unwind_body(x@, value::props_view(params.entries@)),
            value::props_view(params.entries@),
        ),
    decreases x, 0int,
{
    broadcast use reference::group_first_fault;

    match x {
        UnwindBody::Return { where_clause, intermediate_clauses, return_clause, order_by, skip, limit } => {
            let new_where_clause = match resolve_opt_expr(where_clause, params) {
                Err(e) => {
                    return Err(e);
                },
                Ok(y) => y,
            };
            let new_intermediate_clauses = match resolve_intermediate_clauses(intermediate_clauses, params) {
                Err(e) => {
                    return Err(e);
                },
                Ok(y) => y,
            };
            let new_return_clause = match resolve_return_clause(return_clause, params) {
                Err(e) => {
                    return Err(e);
                },
                Ok(y) => y,
            };
            let new_order_by = match resolve_sort_items(order_by, params) {
                Err(e) => {
                    return Err(e);
                },
                Ok(y) => y,
            };
            let new_skip = match resolve_opt_expr(skip, params) {
                Err(e) => {
                    return Err(e);
                },
                Ok(y) => y,
            };
            let new_limit = match resolve_opt_expr(limit, params) {
                Err(e) => {
                    return Err(e);
                },
                Ok(y) => y,
            };
            Ok(
                UnwindBody::Return {
                    where_clause: new_where_clause,
                    intermediate_clauses: new_intermediate_clauses,
                    return_clause: new_return_clause,
                    order_by: new_order_by,
                    skip: new_skip,
                    limit: new_limit,
                },
            )
        },
        _ => Ok(x.dup()),
    }
}

/// The same [`UnwindBody::Create`] with each parameter replaced by its value.
fn resolve_unwind_body_create(x: &UnwindBody, params: &AssocList<Value>) -> (r: Result<UnwindBody, GraphError>)
    requires
        x is Create,
    ensures
        types::outcome(r) == reference::settled(
            reference::names_unwind_body(x@, true),
            reference::bound_unwind_body(x@, value::props_view(params.entries@)),
            value::props_view(params.entries@),
        ),
    decreases x, 0int,
{
    broadcast use reference::group_first_fault;

    match x {
        UnwindBody::Create { patterns, intermediate_clauses, return_clause, order_by, skip, limit } => {
            let new_return_clause = match resolve_opt_return_clause(return_clause, params) {
                Err(e) => {
                    return Err(e);
                },
                Ok(y) => y,
            };
            let new_order_by = match resolve_sort_items(order_by, params) {
                Err(e) => {
                    return Err(e);
                },
                Ok(y) => y,
            };
            let new_skip = match resolve_opt_expr(skip, params) {
                Err(e) => {
                    return Err(e);
                },
                Ok(y) => y,
            };
            let new_limit = match resolve_opt_expr(limit, params) {
                Err(e) => {
                    return Err(e);
                },
                Ok(y) => y,
            };
            let new_patterns = match resolve_patterns(patterns, params) {
                Err(e) => {
                    return Err(e);
                },
                Ok(y) => y,
            };
            let new_intermediate_clauses = match resolve_intermediate_clauses(intermediate_clauses, params) {
                Err(e) => {
                    return Err(e);
                },
                Ok(y) => y,
            };
            Ok(
                UnwindBody::Create {
                    patterns: new_patterns,
                    intermediate_clauses: new_intermediate_clauses,
                    return_clause: new_return_clause,
                    order_by: new_order_by,
                    skip: new_skip,
                    limit: new_limit,
                },
            )
        },
        _ => Ok(x.dup()),
    }
}

/// The same [`Clause::Match`] with each parameter replaced by its value.
fn resolve_clause_match(x: &Clause, params: &AssocList<Value>) -> (r: Result<Clause, GraphError>)
    requires
        x is Match,
    ensures
        types::outcome(r) == reference::settled(
            reference::names_clause(x@, true),
            reference::bound_clause(x@, value::props_view(params.entries@)),
            value::props_view(params.entries@),
        ),
    decreases x, 0int,
{
    broadcast use reference::group_first_fault;

    match x {
        Clause::Match { patterns, optional_patterns, where_clause } => {
            let new_patterns = match resolve_patterns(patterns, params) {
                Err(e) => {
                    return Err(e);
                },
                Ok(y) => y,
            };
            let new_optional_patterns = match resolve_optional_matchs(optional_patterns, params) {
                Err(e) => {
                    return Err(e);
                },
                Ok(y) => y,
            };
            let new_where_clause = match resolve_opt_expr(where_clause, params) {
                Err(e) => {
                    return Err(e);
                },
                Ok(y) => y,
            };
            Ok(
                Clause::Match {
                    patterns: new_patterns,
                    optional_patterns: new_optional_patterns,
                    where_clause: new_where_clause,
                },
            )
        },
        _ => Ok(x.dup()),
    }
}

/// The same [`Clause::Create`] with each parameter replaced by its value.
fn resolve_clause_create(x: &Clause, params: &AssocList<Value>) -> (r: Result<Clause, GraphError>)
    requires
        x is Create,
    ensures
        types::outcome(r) == reference::settled(
            reference::names_clause(x@, true),
            reference::bound_clause(x@, value::props_view(params.entries@)),
            value::props_view(params.entries@),
        ),
    decreases x, 0int,
{
    broadcast use reference::group_first_fault;

    match x {
        Clause::Create { patterns } => {
            let new_patterns = match resolve_patterns(patterns, params) {
                Err(e) => {
                    return Err(e);
                },
                Ok(y) => y,
            };
            Ok(
                Clause::Create {
                    patterns: new_patterns,
                },
            )
        },
        _ => Ok(x.dup()),
    }
}

/// The same [`Clause::Merge`] with each parameter replaced by its value.
fn resolve_clause_merge(x: &Clause, params: &AssocList<Value>) -> (r: Result<Clause, GraphError>)
    requires
        x is Merge,
    ensures
        types::outcome(r) == reference::settled(
            reference::names_clause(x@, true),
            reference::bound_clause(x@, value::props_view(params.entries@)),
            value::props_view(params.entries@),
        ),
    decreases x, 0int,
{
    broadcast use reference::group_first_fault;

    match x {
        Clause::Merge { pattern, on_create, on_match } => {
            let new_pattern = match resolve_pattern(pattern, params) {
                Err(e) => {
                    return Err(e);
                },
                Ok(y) => y,
            };
            let new_on_create = match resolve_set_items(on_create, params) {
                Err(e) => {
                    return Err(e);
                },
                Ok(y) => y,
            };
            let new_on_match = match resolve_set_items(on_match, params) {
                Err(e) => {
                    return Err(e);
                },
                Ok(y) => y,
            };
            Ok(
                Clause::Merge {
                    pattern: new_pattern,
                    on_create: new_on_create,
                    on_match: new_on_match,
                },
            )
        },
        _ => Ok(x.dup()),
    }
}

/// The same [`Clause::With`] with each parameter replaced by its value.
fn resolve_clause_with(x: &Clause, params: &AssocList<Value>) -> (r: Result<Clause, GraphError>)
    requires
        x is With,
    ensures
        types::outcome(r) == reference::settled(
            reference::names_clause(x@, true),
            reference::bound_clause(x@, value::props_view(params.entries@)),
            value::props_view(params.entries@),
        ),
    decreases x, 0int,
{
    match x {
        Clause::With(a) => match resolve_with_clause(a, params) {
            Err(e) => Err(e),
            Ok(y) => Ok(Clause::With(y)),
        },
        _ => Ok(x.dup()),
    }
}

/// The same [`Clause::Unwind`] with each parameter replaced by its value.
fn resolve_clause_unwind(x: &Clause, params: &AssocList<Value>) -> (r: Result<Clause, GraphError>)
    requires
        x is Unwind,
    ensures
        types::outcome(r) == reference::settled(
            reference::names_clause(x@, true),
            reference::bound_clause(x@, value::props_view(params.entries@)),
            value::props_view(params.entries@),
        ),
    decreases x, 0int,
{
    match x {
        Clause::Unwind(a) => match resolve_unwind_clause(a, params) {
            Err(e) => Err(e),
            Ok(y) => Ok(Clause::Unwind(y)),
        },
        _ => Ok(x.dup()),
    }
}

/// The same [`Clause::SetItems`] with each parameter replaced by its value.
fn resolve_clause_set_items(x: &Clause, params: &AssocList<Value>) -> (r: Result<Clause, GraphError>)
    requires
        x is SetItems,
    ensures
        types::outcome(r) == reference::settled(
            reference::names_clause(x@, true),
            reference::bound_clause(x@, value::props_view(params.entries@)),
            value::props_view(params.entries@),
        ),
    decreases x, 0int,
{
    broadcast use reference::group_first_fault;

    match x {
        Clause::SetItems { items } => {
            let new_items = match resolve_set_items(items, params) {
                Err(e) => {
                    return Err(e);
                },
                Ok(y) => y,
            };
            Ok(
                Clause::SetItems {
                    items: new_items,
                },
            )
        },
        _ => Ok(x.dup()),
    }
}

/// The same [`Clause::Call`] with each parameter replaced by its value.
fn resolve_clause_call(x: &Clause, params: &AssocList<Value>) -> (r: Result<Clause, GraphError>)
    requires
        x is Call,
    ensures
        types::outcome(r) == reference::settled(
            reference::names_clause(x@, true),
            reference::bound_clause(x@, value::props_view(params.entries@)),
            value::props_view(params.entries@),
        ),
    decreases x, 0int,
{
    broadcast use reference::group_first_fault;

    match x {
        Clause::Call { procedure_name, args, implicit_args, yield_items, yield_star } => {
            let new_args = match resolve_exprs(args, params) {
                Err(e) => {
                    return Err(e);
                },
                Ok(y) => y,
            };
            Ok(
                Clause::Call {
                    procedure_name: procedure_name.clone(),
                    args: new_args,
                    implicit_args: *implicit_args,
                    yield_items: ast_copy::dup_opt_yields(yield_items),
                    yield_star: *yield_star,
                },
            )
        },
        _ => Ok(x.dup()),
    }
}

/// The same [`Clause::Delete`] with each parameter replaced by its value.
fn resolve_clause_delete(x: &Clause, params: &AssocList<Value>) -> (r: Result<Clause, GraphError>)
    requires
        x is Delete,
    ensures
        types::outcome(r) == reference::settled(
            reference::names_clause(x@, true),
            reference::bound_clause(x@, value::props_view(params.entries@)),
            value::props_view(params.entries@),
        ),
    decreases x, 0int,
{
    broadcast use reference::group_first_fault;

    match x {
        Clause::Delete { exprs, detach } => {
            let new_exprs = match resolve_exprs(exprs, params) {
                Err(e) => {
                    return Err(e);
                },
                Ok(y) => y,
            };
            Ok(
                Clause::Delete {
                    exprs: new_exprs,
                    detach: *detach,
                },
            )
        },
        _ => Ok(x.dup()),
    }
}

/// The same [`Statement::Match`] with each parameter replaced by its value.
fn resolve_statement_match(x: &Statement, params: &AssocList<Value>) -> (r: Result<Statement, GraphError>)
    requires
        x is Match,
    ensures
        types::outcome(r) == reference::settled(
            reference::names_statement(x@, true),
            reference::bound_statement(x@, value::props_view(params.entries@)),
            value::props_view(params.entries@),
        ),
    decreases x, 0int,
{
    match x {
        Statement::Match(a) => match resolve_match_statement(a, params) {
            Err(e) => Err(e),
            Ok(y) => Ok(Statement::Match(y)),
        },
        _ => Ok(x.dup()),
    }
}

/// The same [`Statement::Create`] with each parameter replaced by its value.
fn resolve_statement_create(x: &Statement, params: &AssocList<Value>) -> (r: Result<Statement, GraphError>)
    requires
        x is Create,
    ensures
        types::outcome(r) == reference::settled(
            reference::names_statement(x@, true),
            reference::bound_statement(x@, value::props_view(params.entries@)),
            value::props_view(params.entries@),
        ),
    decreases x, 0int,
{
    match x {
        Statement::Create(a) => match resolve_create_statement(a, params) {
            Err(e) => Err(e),
            Ok(y) => Ok(Statement::Create(y)),
        },
        _ => Ok(x.dup()),
    }
}

/// The same [`Statement::MatchCreate`] with each parameter replaced by its value.
fn resolve_statement_match_create(x: &Statement, params: &AssocList<Value>) -> (r: Result<Statement, GraphError>)
    requires
        x is MatchCreate,
    ensures
        types::outcome(r) == reference::settled(
            reference::names_statement(x@, true),
            reference::bound_statement(x@, value::props_view(params.entries@)),
            value::props_view(params.entries@),
        ),
    decreases x, 0int,
{
    match x {
        Statement::MatchCreate(a) => match resolve_match_create_statement(a, params) {
            Err(e) => Err(e),
            Ok(y) => Ok(Statement::MatchCreate(y)),
        },
        _ => Ok(x.dup()),
    }
}

/// The same [`Statement::MatchMerge`] with each parameter replaced by its value.
fn resolve_statement_match_merge(x: &Statement, params: &AssocList<Value>) -> (r: Result<Statement, GraphError>)
    requires
        x is MatchMerge,
    ensures
        types::outcome(r) == reference::settled(
            reference::names_statement(x@, true),
            reference::bound_statement(x@, value::props_view(params.entries@)),
            value::props_view(params.entries@),
        ),
    decreases x, 0int,
{
    match x {
        Statement::MatchMerge(a) => match resolve_match_merge_statement(a, params) {
            Err(e) => Err(e),
            Ok(y) => Ok(Statement::MatchMerge(y)),
        },
        _ => Ok(x.dup()),
    }
}

/// The same [`Statement::Delete`] with each parameter replaced by its value.
fn resolve_statement_delete(x: &Statement, params: &AssocList<Value>) -> (r: Result<Statement, GraphError>)
    requires
        x is Delete,
    ensures
        types::outcome(r) == reference::settled(
            reference::names_statement(x@, true),
            reference::bound_statement(x@, value::props_view(params.entries@)),
            value::props_view(params.entries@),
        ),
    decreases x, 0int,
{
    match x {
        Statement::Delete(a) => match resolve_delete_statement(a, params) {
            Err(e) => Err(e),
            Ok(y) => Ok(Statement::Delete(y)),
        },
        _ => Ok(x.dup()),
    }
}

/// The same [`Statement::SetProps`] with each parameter replaced by its value.
fn resolve_statement_set_props(x: &Statement, params: &AssocList<Value>) -> (r: Result<Statement, GraphError>)
    requires
        x is SetProps,
    ensures
        types::outcome(r) == reference::settled(
            reference::names_statement(x@, true),
            reference::bound_statement(x@, value::props_view(params.entries@)),
            value::props_view(params.entries@),
        ),
    decreases x, 0int,
{
    match x {
        Statement::SetProps(a) => match resolve_set_statement(a, params) {
            Err(e) => Err(e),
            Ok(y) => Ok(Statement::SetProps(y)),
        },
        _ => Ok(x.dup()),
    }
}

/// The same [`Statement::Remove`] with each parameter replaced by its value.
fn resolve_statement_remove(x: &Statement, params: &AssocList<Value>) -> (r: Result<Statement, GraphError>)
    requires
        x is Remove,
    ensures
        types::outcome(r) == reference::settled(
            reference::names_statement(x@, true),
            reference::bound_statement(x@, value::props_view(params.entries@)),
            value::props_view(params.entries@),
        ),
    decreases x, 0int,
{
    match x {
        Statement::Remove(a) => match resolve_remove_statement(a, params) {
            Err(e) => Err(e),
            Ok(y) => Ok(Statement::Remove(y)),
        },
        _ => Ok(x.dup()),
    }
}

/// The same [`Statement::Merge`] with each parameter replaced by its value.
fn resolve_statement_merge(x: &Statement, params: &AssocList<Value>) -> (r: Result<Statement, GraphError>)
    requires
        x is Merge,
    ensures
        types::outcome(r) == reference::settled(
            reference::names_statement(x@, true),
            reference::bound_statement(x@, value::props_view(params.entries@)),
            value::props_view(params.entries@),
        ),
    decreases x, 0int,
{
    match x {
        Statement::Merge(a) => match resolve_merge_statement(a, params) {
            Err(e) => Err(e),
            Ok(y) => Ok(Statement::Merge(y)),
        },
        _ => Ok(x.dup()),
    }
}

/// The same [`Statement::Unwind`] with each parameter replaced by its value.
fn resolve_statement_unwind(x: &Statement, params: &AssocList<Value>) -> (r: Result<Statement, GraphError>)
    requires
        x is Unwind,
    ensures
        types::outcome(r) == reference::settled(
            reference::names_statement(x@, true),
            reference::bound_statement(x@, value::props_view(params.entries@)),
            value::props_view(params.entries@),
        ),
    decreases x, 0int,
{
    match x {
        Statement::Unwind(a) => match resolve_unwind_statement(a, params) {
            Err(e) => Err(e),
            Ok(y) => Ok(Statement::Unwind(y)),
        },
        _ => Ok(x.dup()),
    }
}

/// The same [`Statement::Return`] with each parameter replaced by its value.
fn resolve_statement_return(x: &Statement, params: &AssocList<Value>) -> (r: Result<Statement, GraphError>)
    requires
        x is Return,
    ensures
        types::outcome(r) == reference::settled(
            reference::names_statement(x@, true),
            reference::bound_statement(x@, value::props_view(params.entries@)),
            value::props_view(params.entries@),
        ),
    decreases x, 0int,
{
    match x {
        Statement::Return(a) => match resolve_return_statement(a, params) {
            Err(e) => Err(e),
            Ok(y) => Ok(Statement::Return(y)),
        },
        _ => Ok(x.dup()),
    }
}

/// The same [`Statement::MultiClause`] with each parameter replaced by its value.
fn resolve_statement_multi_clause(x: &Statement, params: &AssocList<Value>) -> (r: Result<Statement, GraphError>)
    requires
        x is MultiClause,
    ensures
        types::outcome(r) == reference::settled(
            reference::names_statement(x@, true),
            reference::bound_statement(x@, value::props_view(params.entries@)),
            value::props_view(params.entries@),
        ),
    decreases x, 0int,
{
    match x {
        Statement::MultiClause(a) => match resolve_multi_clause_statement(a, params) {
            Err(e) => Err(e),
            Ok(y) => Ok(Statement::MultiClause(y)),
        },
        _ => Ok(x.dup()),
    }
}

/// The same [`Statement::Explain`] with each parameter replaced by its value.
fn resolve_statement_explain(x: &Statement, params: &AssocList<Value>) -> (r: Result<Statement, GraphError>)
    requires
        x is Explain,
    ensures
        types::outcome(r) == reference::settled(
            reference::names_statement(x@, true),
            reference::bound_statement(x@, value::props_view(params.entries@)),
            value::props_view(params.entries@),
        ),
    decreases x, 0int,
{
    match x {
        Statement::Explain(a) => match resolve_params(a, params) {
            Err(e) => Err(e),
            Ok(y) => Ok(Statement::Explain(Box::new(y))),
        },
        _ => Ok(x.dup()),
    }
}

/// The same [`Statement::Union`] with each parameter replaced by its value.
fn resolve_statement_union(x: &Statement, params: &AssocList<Value>) -> (r: Result<Statement, GraphError>)
    requires
        x is Union,
    ensures
        types::outcome(r) == reference::settled(
            reference::names_statement(x@, true),
            reference::bound_statement(x@, value::props_view(params.entries@)),
            value::props_view(params.entries@),
        ),
    decreases x, 0int,
{
    broadcast use reference::group_first_fault;

    match x {
        Statement::Union { statements, all } => {
            let new_statements = match resolve_statements(statements, params) {
                Err(e) => {
                    return Err(e);
                },
                Ok(y) => y,
            };
            Ok(
                Statement::Union {
                    statements: new_statements,
                    all: *all,
                },
            )
        },
        _ => Ok(x.dup()),
    }
}

/// The same [`Statement::Call`] with each parameter replaced by its value.
fn resolve_statement_call(x: &Statement, params: &AssocList<Value>) -> (r: Result<Statement, GraphError>)
    requires
        x is Call,
    ensures
        types::outcome(r) == reference::settled(
            reference::names_statement(x@, true),
            reference::bound_statement(x@, value::props_view(params.entries@)),
            value::props_view(params.entries@),
        ),
    decreases x, 0int,
{
    broadcast use reference::group_first_fault;

    match x {
        Statement::Call { procedure_name, args, implicit_args, yield_items, yield_star, return_clause, order_by, skip, limit } => {
            let new_args = match resolve_exprs(args, params) {
                Err(e) => {
                    return Err(e);
                },
                Ok(y) => y,
            };
            let new_return_clause = match resolve_opt_return_clause(return_clause, params) {
                Err(e) => {
                    return Err(e);
                },
                Ok(y) => y,
            };
            let new_order_by = match resolve_sort_items(order_by, params) {
                Err(e) => {
                    return Err(e);
                },
                Ok(y) => y,
            };
            let new_skip = match resolve_opt_box(skip, params) {
                Err(e) => {
                    return Err(e);
                },
                Ok(y) => y,
            };
            let new_limit = match resolve_opt_box(limit, params) {
                Err(e) => {
                    return Err(e);
                },
                Ok(y) => y,
            };
            Ok(
                Statement::Call {
                    procedure_name: procedure_name.clone(),
                    args: new_args,
                    implicit_args: *implicit_args,
                    yield_items: ast_copy::dup_opt_yields(yield_items),
                    yield_star: *yield_star,
                    return_clause: new_return_clause,
                    order_by: new_order_by,
                    skip: new_skip,
                    limit: new_limit,
                },
            )
        },
        _ => Ok(x.dup()),
    }
}

} // verus!
