//! Only a text that is too long is refused for its length.
//!
//! What the parse tree of a text is refused for is followed through all that is made of it.
use super::forms;
use super::literal;
use super::meaning;
use super::meaning::PartsView;
use super::peg::PairView;
use super::rule::Rule;
use super::scan;
use super::source;
use super::source::{MAX_EXPR_DEPTH, MAX_QUERY_BYTES};
use crate::assoc;
use crate::ast::ShortestPathMode;
use crate::ast_model::{
    ClauseView, ExprKindView, ExprView, NodePatternView, PatternElementView, PatternView,
    RelPatternView, RemoveItemView, ReturnItemView, SetItemView, SortItemView, StatementView,
    WithClauseView,
};
use crate::text;
use crate::types::{ErrorView, Span};
use vstd::prelude::*;
use vstd::utf8::encode_utf8;

verus! {

/// The error is not that a query text is too long.
pub open spec fn small(e: ErrorView) -> bool {
    e matches ErrorView::SizeLimit { what, .. } ==> what != "Cypher query"@
}

/// What nests too deep is no query text that is too long.
proof fn lemma_depth()
    ensures
        small(scan::depth_error("expression nesting depth"@)),
        small(scan::depth_error("bracket nesting depth"@)),
{
    reveal_strlit("Cypher query");
    reveal_strlit("expression nesting depth");
    reveal_strlit("bracket nesting depth");
    assert("Cypher query"@.len() == 12);
    assert("expression nesting depth"@.len() == 24);
    assert("bracket nesting depth"@.len() == 21);
}

/// What [`meaning::operator`] refuses is not refused for its size.
proof fn lemma_operator(level: meaning::Level, s: Seq<char>, k: PairView)
    ensures
        meaning::operator(level, s, k) matches Err(e) ==> small(e),
{
}

/// What [`meaning::operand`] refuses is not refused for its size.
proof fn lemma_operand(level: meaning::Level, s: Seq<char>, p: PairView, d: nat)
    ensures
        meaning::operand(level, s, p, d) matches Err(e) ==> small(e),
    decreases p, 60int,
{
    match level {
        meaning::Level::Or => {
            lemma_chain(meaning::Level::Xor, s, p, d);
        },
        meaning::Level::Xor => {
            lemma_chain(meaning::Level::And, s, p, d);
        },
        meaning::Level::And => {
            lemma_bool_factor(s, p, d);
        },
        meaning::Level::Add => {
            lemma_chain(meaning::Level::Mul, s, p, d);
        },
        meaning::Level::Mul => {
            lemma_chain(meaning::Level::Pow, s, p, d);
        },
        meaning::Level::Pow => {
            lemma_atom(s, p, d);
        },
    }
}

/// What [`meaning::chain`] refuses is not refused for its size.
proof fn lemma_chain(level: meaning::Level, s: Seq<char>, p: PairView, d: nat)
    ensures
        meaning::chain(level, s, p, d) matches Err(e) ==> small(e),
    decreases p, 40int,
{
    if p.children.len() != 0 {
        lemma_operand(level, s, p.children[0], d);
        match meaning::operand(level, s, p.children[0], d) {
            Ok(left) => {
                lemma_chain_from(level, s, p.children, 1, left, d);
            },
            _ => {},
        }
    }
}

/// What [`meaning::chain_from`] refuses is not refused for its size.
proof fn lemma_chain_from(
    level: meaning::Level,
    s: Seq<char>,
    kids: Seq<PairView>,
    i: int,
    left: ExprView,
    d: nat,
)
    ensures
        meaning::chain_from(level, s, kids, i, left, d) matches Err(e) ==> small(e),
    decreases kids, kids.len() - i,
{
    if !(i < 0 || i >= kids.len()) {
        lemma_operator(level, s, kids[i]);
        match meaning::operator(level, s, kids[i]) {
            Ok(None) => {
                lemma_chain_from(level, s, kids, i + 1, left, d);
            },
            Ok(Some(op)) => {
                if i + 1 < kids.len() {
                    lemma_operand(level, s, kids[i + 1], d);
                    match meaning::operand(level, s, kids[i + 1], d) {
                        Ok(right) => {
                            lemma_chain_from(
                                level,
                                s,
                                kids,
                                i + 2,
                                meaning::binary(left, op, right),
                                d,
                            );
                        },
                        _ => {},
                    }
                }
            },
            _ => {},
        }
    }
}

/// What [`meaning::expr`] refuses is not refused for its size.
proof fn lemma_expr(s: Seq<char>, p: PairView, d: nat)
    ensures
        meaning::expr(s, p, d) matches Err(e) ==> small(e),
    decreases p, 45int,
{
    lemma_depth();
    if d + 1 <= MAX_EXPR_DEPTH {
        lemma_chain(meaning::Level::Or, s, p, d + 1);
    }
}

/// What [`meaning::expr_under`] refuses is not refused for its size.
proof fn lemma_expr_under(s: Seq<char>, kids: Seq<PairView>, r: Rule, d: nat)
    ensures
        meaning::expr_under(s, kids, r, d) matches Err(e) ==> small(e),
    decreases kids, 0int,
{
    let i = meaning::first_place(kids, r, 0);
    if 0 <= i < kids.len() {
        lemma_expr(s, kids[i], d);
    }
}

/// What [`meaning::expr_at`] refuses is not refused for its size.
proof fn lemma_expr_at(s: Seq<char>, kids: Seq<PairView>, i: int, d: nat)
    ensures
        meaning::expr_at(s, kids, i, d) matches Err(e) ==> small(e),
    decreases kids, 0int,
{
    if 0 <= i < kids.len() {
        lemma_expr(s, kids[i], d);
    }
}

/// What [`meaning::bool_expr`] refuses is not refused for its size.
proof fn lemma_bool_expr(s: Seq<char>, p: PairView, d: nat)
    ensures
        meaning::bool_expr(s, p, d) matches Err(e) ==> small(e),
    decreases p, 10int,
{
    lemma_expr_at(s, p.children, 0, d);
}

/// What [`meaning::bool_factor`] refuses is not refused for its size.
proof fn lemma_bool_factor(s: Seq<char>, p: PairView, d: nat)
    ensures
        meaning::bool_factor(s, p, d) matches Err(e) ==> small(e),
    decreases p, 30int,
{
    let i = meaning::last_place(p.children, Rule::BoolPrimary, p.children.len() as int);
    if 0 <= i < p.children.len() {
        lemma_bool_primary(s, p.children[i], d);
    }
}

/// What [`meaning::bool_primary`] refuses is not refused for its size.
proof fn lemma_bool_primary(s: Seq<char>, p: PairView, d: nat)
    ensures
        meaning::bool_primary(s, p, d) matches Err(e) ==> small(e),
    decreases p, 30int,
{
    if p.children.len() != 0 {
        if p.children[0].rule == Rule::CmpOrValue {
            lemma_comparisons(s, p.children[0], d);
        }
    }
}

/// What [`meaning::comparisons`] refuses is not refused for its size.
proof fn lemma_comparisons(s: Seq<char>, p: PairView, d: nat)
    ensures
        meaning::comparisons(s, p, d) matches Err(e) ==> small(e),
    decreases p, 30int,
{
    if p.children.len() != 0 {
        lemma_predicate(s, p.children[0], d);
        match meaning::predicate(s, p.children[0], d) {
            Ok(first) => {
                lemma_comparisons_from(s, p.children, 1, first, None, d);
            },
            _ => {},
        }
    }
}

/// What [`meaning::comparison`] refuses is not refused for its size.
proof fn lemma_comparison(s: Seq<char>, kids: Seq<PairView>, d: nat)
    ensures
        meaning::comparison(s, kids, d) matches Err(e) ==> small(e),
    decreases kids, 0int,
{
    if kids.len() >= 2 {
        lemma_comp_op(s, kids[0]);
        match meaning::comp_op(s, kids[0]) {
            Ok(_) => {
                lemma_predicate(s, kids[1], d);
            },
            _ => {},
        }
    }
}

/// What [`meaning::comparisons_from`] refuses is not refused for its size.
proof fn lemma_comparisons_from(
    s: Seq<char>,
    kids: Seq<PairView>,
    i: int,
    prev: ExprView,
    acc: Option<ExprView>,
    d: nat,
)
    ensures
        meaning::comparisons_from(s, kids, i, prev, acc, d) matches Err(e) ==> small(e),
    decreases kids, kids.len() - i,
{
    if !(i < 0 || i >= kids.len()) {
        lemma_comparison(s, kids[i].children, d);
        match meaning::comparison(s, kids[i].children, d) {
            Ok((op, right)) => {
                lemma_comparisons_from(
                    s,
                    kids,
                    i + 1,
                    right,
                    Some(meaning::conjoined(acc, meaning::binary(prev, op, right))),
                    d,
                );
            },
            _ => {},
        }
    }
}

/// What [`meaning::comp_op`] refuses is not refused for its size.
proof fn lemma_comp_op(s: Seq<char>, p: PairView)
    ensures
        meaning::comp_op(s, p) matches Err(e) ==> small(e),
{
}

/// What [`meaning::string_pred_op`] refuses is not refused for its size.
proof fn lemma_string_pred_op(p: PairView)
    ensures
        meaning::string_pred_op(p) matches Err(e) ==> small(e),
{
}

/// What [`meaning::predicate`] refuses is not refused for its size.
proof fn lemma_predicate(s: Seq<char>, p: PairView, d: nat)
    ensures
        meaning::predicate(s, p, d) matches Err(e) ==> small(e),
    decreases p, 30int,
{
    if p.children.len() != 0 {
        lemma_compared(s, p.children[0], d);
        match meaning::compared(s, p.children[0], d) {
            Ok(left) => {
                if p.children.len() != 1 {
                    lemma_suffixed(s, left, source::span_of(s, p), p.children[1], d);
                }
            },
            _ => {},
        }
    }
}

/// What [`meaning::suffixed`] refuses is not refused for its size.
proof fn lemma_suffixed(s: Seq<char>, left: ExprView, span: Span, p: PairView, d: nat)
    ensures
        meaning::suffixed(s, left, span, p, d) matches Err(e) ==> small(e),
    decreases p, 30int,
{
    let kids = p.children;
    match p.rule {
        Rule::IsNotNullSuffix => {},
        Rule::IsNullSuffix => {},
        Rule::InSuffix => {
            lemma_sum_at(s, kids, meaning::first_place(kids, Rule::AddExpr, 0), d);
        },
        Rule::StringPredSuffix => {
            if kids.len() >= 2 {
                lemma_string_pred_op(kids[0]);
                match meaning::string_pred_op(kids[0]) {
                    Ok(_) => {
                        lemma_sum_at(s, kids, 1, d);
                    },
                    _ => {},
                }
            }
        },
        _ => {},
    }
}

/// What [`meaning::sum_at`] refuses is not refused for its size.
proof fn lemma_sum_at(s: Seq<char>, kids: Seq<PairView>, i: int, d: nat)
    ensures
        meaning::sum_at(s, kids, i, d) matches Err(e) ==> small(e),
    decreases kids, 0int,
{
    if 0 <= i < kids.len() {
        lemma_chain(meaning::Level::Add, s, kids[i], d);
    }
}

/// What [`meaning::compared`] refuses is not refused for its size.
proof fn lemma_compared(s: Seq<char>, p: PairView, d: nat)
    ensures
        meaning::compared(s, p, d) matches Err(e) ==> small(e),
    decreases p, 30int,
{
    if p.children.len() != 0 {
        let k = p.children[0];
        match k.rule {
            Rule::CaseExpr => {
                lemma_case_expr(s, k, d);
            },
            Rule::ExistsSubquery => {
                lemma_exists_subquery(s, k, d);
            },
            Rule::ExistsFullSubquery => {
                lemma_exists_full_subquery(s, k, d);
            },
            Rule::PatternPredicate => {
                lemma_pattern(s, k, d);
            },
            Rule::Expr => {
                lemma_expr(s, k, d);
            },
            Rule::AddExpr => {
                lemma_chain(meaning::Level::Add, s, k, d);
            },
            _ => {},
        }
    }
}

/// What [`meaning::case_step`] refuses is not refused for its size.
proof fn lemma_case_step(s: Seq<char>, acc: meaning::CaseParts, k: PairView, d: nat)
    ensures
        meaning::case_step(s, acc, k, d) matches Err(e) ==> small(e),
    decreases k, 30int,
{
    match k.rule {
        Rule::CaseOperand => {
            lemma_expr_at(s, k.children, 0, d);
        },
        Rule::CaseWhenClause => {
            lemma_expr_at(s, k.children, 0, d);
            match meaning::expr_at(s, k.children, 0, d) {
                Ok(_) => {
                    lemma_expr_at(s, k.children, 1, d);
                },
                _ => {},
            }
        },
        Rule::CaseElseClause => {
            lemma_expr_at(s, k.children, 0, d);
        },
        _ => {},
    }
}

/// What [`meaning::case_from`] refuses is not refused for its size.
proof fn lemma_case_from(s: Seq<char>, kids: Seq<PairView>, i: int, acc: meaning::CaseParts, d: nat)
    ensures
        meaning::case_from(s, kids, i, acc, d) matches Err(e) ==> small(e),
    decreases kids, kids.len() - i,
{
    if !(i < 0 || i >= kids.len()) {
        lemma_case_step(s, acc, kids[i], d);
        match meaning::case_step(s, acc, kids[i], d) {
            Ok(next) => {
                lemma_case_from(s, kids, i + 1, next, d);
            },
            _ => {},
        }
    }
}

/// What [`meaning::case_expr`] refuses is not refused for its size.
proof fn lemma_case_expr(s: Seq<char>, p: PairView, d: nat)
    ensures
        meaning::case_expr(s, p, d) matches Err(e) ==> small(e),
    decreases p, 20int,
{
    let none = meaning::CaseParts { operand: None, alternatives: Seq::empty(), default: None };
    lemma_case_from(s, p.children, 0, none, d);
}

/// What [`meaning::exists_from`] refuses is not refused for its size.
proof fn lemma_exists_from(
    s: Seq<char>,
    kids: Seq<PairView>,
    i: int,
    patterns: Seq<PatternView>,
    condition: Option<Box<ExprView>>,
    d: nat,
)
    ensures
        meaning::exists_from(s, kids, i, patterns, condition, d) matches Err(e) ==> small(e),
    decreases kids, kids.len() - i,
{
    if !(i < 0 || i >= kids.len()) {
        match kids[i].rule {
            Rule::PatternList => {
                lemma_pattern_list(s, kids[i], d);
                match meaning::pattern_list(s, kids[i], d) {
                    Ok(x) => {
                        lemma_exists_from(s, kids, i + 1, x, condition, d);
                    },
                    _ => {},
                }
            },
            Rule::WhereClause => {
                lemma_where_clause(s, kids[i], d);
                match meaning::where_clause(s, kids[i], d) {
                    Ok(x) => {
                        lemma_exists_from(s, kids, i + 1, patterns, Some(Box::new(x)), d);
                    },
                    _ => {},
                }
            },
            _ => {
                lemma_exists_from(s, kids, i + 1, patterns, condition, d);
            },
        }
    }
}

/// What [`meaning::exists_subquery`] refuses is not refused for its size.
proof fn lemma_exists_subquery(s: Seq<char>, p: PairView, d: nat)
    ensures
        meaning::exists_subquery(s, p, d) matches Err(e) ==> small(e),
    decreases p, 20int,
{
    lemma_exists_from(s, p.children, 0, Seq::empty(), None, d);
}

/// What [`meaning::subquery_step`] refuses is not refused for its size.
proof fn lemma_subquery_step(s: Seq<char>, acc: meaning::PartsView, k: PairView, d: nat)
    ensures
        meaning::subquery_step(s, acc, k, d) matches Err(e) ==> small(e),
    decreases k, 30int,
{
    match k.rule {
        Rule::PatternList => {
            lemma_pattern_list(s, k, d);
        },
        Rule::WhereClause => {
            lemma_where_clause(s, k, d);
        },
        Rule::MultiSetClause => {},
        Rule::MultiDeleteClause => {},
        Rule::MultiRemoveClause => {},
        Rule::MultiCreateClause => {},
        Rule::MultiMergeClause => {},
        _ => {
            lemma_tail_step(s, acc, k, d);
        },
    }
}

/// What [`meaning::subquery_from`] refuses is not refused for its size.
proof fn lemma_subquery_from(
    s: Seq<char>,
    kids: Seq<PairView>,
    i: int,
    acc: meaning::PartsView,
    d: nat,
)
    ensures
        meaning::subquery_from(s, kids, i, acc, d) matches Err(e) ==> small(e),
    decreases kids, kids.len() - i,
{
    if !(i < 0 || i >= kids.len()) {
        lemma_subquery_step(s, acc, kids[i], d);
        match meaning::subquery_step(s, acc, kids[i], d) {
            Ok(next) => {
                lemma_subquery_from(s, kids, i + 1, next, d);
            },
            _ => {},
        }
    }
}

/// What [`meaning::exists_full_subquery`] refuses is not refused for its size.
proof fn lemma_exists_full_subquery(s: Seq<char>, p: PairView, d: nat)
    ensures
        meaning::exists_full_subquery(s, p, d) matches Err(e) ==> small(e),
    decreases p, 20int,
{
    lemma_subquery_from(s, p.children, 0, meaning::no_parts(true), d);
}

/// What [`meaning::tail_step`] refuses is not refused for its size.
proof fn lemma_tail_step(s: Seq<char>, acc: meaning::PartsView, k: PairView, d: nat)
    ensures
        meaning::tail_step(s, acc, k, d) matches Err(e) ==> small(e),
    decreases k, 25int,
{
    match k.rule {
        Rule::WithClause => {
            lemma_with_clause(s, k, d);
        },
        Rule::UnwindClause => {
            lemma_unwind_clause(s, k, d);
        },
        Rule::ReturnClause => {
            lemma_return_clause(s, k, d);
        },
        Rule::OrderByClause => {
            lemma_order_by(s, k, d);
        },
        Rule::SkipClause => {
            lemma_expr_under(s, k.children, Rule::Expr, d);
        },
        Rule::LimitClause => {
            lemma_expr_under(s, k.children, Rule::Expr, d);
        },
        _ => {},
    }
}

/// What [`meaning::in_expr`] refuses is not refused for its size.
proof fn lemma_in_expr(s: Seq<char>, p: PairView, d: nat)
    ensures
        meaning::in_expr(s, p, d) matches Err(e) ==> small(e),
    decreases p, 44int,
{
    lemma_sum_at(s, p.children, 0, d);
    match meaning::sum_at(s, p.children, 0, d) {
        Ok(_) => {
            if p.children.len() != 1 {
                lemma_sum_at(s, p.children, 1, d);
            }
        },
        _ => {},
    }
}

/// What [`meaning::atom`] refuses is not refused for its size.
proof fn lemma_atom(s: Seq<char>, p: PairView, d: nat)
    ensures
        meaning::atom(s, p, d) matches Err(e) ==> small(e),
    decreases p, 50int,
{
    let kids = p.children;
    match p.rule {
        Rule::AtomExpr => {
            if kids.len() != 0 {
                lemma_atom(s, kids[0], d);
                match meaning::atom(s, kids[0], d) {
                    Ok(x) => {
                        lemma_postfix_from(s, kids, 1, x, d);
                    },
                    _ => {},
                }
            }
        },
        Rule::CaseExpr => {
            lemma_case_expr(s, p, d);
        },
        Rule::QuantifierExpr => {
            lemma_quantifier(s, p, d);
        },
        Rule::DottedFunctionCall => {
            lemma_call(s, p, d);
        },
        Rule::FunctionCall => {
            lemma_call(s, p, d);
        },
        Rule::UnknownFunctionCall => {
            lemma_call(s, p, d);
        },
        Rule::PropertyAccess => {},
        Rule::HasLabelExpr => {},
        Rule::Literal => {
            lemma_literal_expr(s, p);
        },
        Rule::PatternComprehension => {
            lemma_pattern_comprehension(s, p, d);
        },
        Rule::ListComprehension => {
            lemma_list_comprehension(s, p, d);
        },
        Rule::ListLiteral => {
            lemma_exprs_from(s, kids, 0, Seq::empty(), d);
        },
        Rule::MapLiteral => {
            lemma_map_from(s, kids, 0, Seq::empty(), d);
        },
        Rule::Star => {},
        Rule::Parameter => {},
        Rule::Variable => {},
        Rule::Expr => {
            lemma_expr(s, p, d);
        },
        Rule::InExpr => {
            lemma_in_expr(s, p, d);
        },
        Rule::AddExpr => {
            lemma_chain(meaning::Level::Add, s, p, d);
        },
        Rule::MulExpr => {
            lemma_chain(meaning::Level::Mul, s, p, d);
        },
        Rule::ExpExpr => {
            lemma_chain(meaning::Level::Pow, s, p, d);
        },
        Rule::UnaryMinusExpr => {
            if kids.len() != 0 {
                lemma_atom(s, kids[0], d);
            }
        },
        _ => {},
    }
}

/// What [`meaning::postfix_from`] refuses is not refused for its size.
proof fn lemma_postfix_from(s: Seq<char>, kids: Seq<PairView>, i: int, base: ExprView, d: nat)
    ensures
        meaning::postfix_from(s, kids, i, base, d) matches Err(e) ==> small(e),
    decreases kids, kids.len() - i,
{
    if !(i < 0 || i >= kids.len()) {
        if kids[i].rule == Rule::Subscript {
            lemma_subscript(s, base, kids[i], d);
            match meaning::subscript(s, base, kids[i], d) {
                Ok(x) => {
                    lemma_postfix_from(s, kids, i + 1, x, d);
                },
                _ => {},
            }
        } else if kids[i].rule == Rule::DotAccess {
            if kids[i].children.len() != 0 {
                lemma_postfix_from(s, kids, i + 1, meaning::dotted(s, base, kids[i]), d);
            }
        } else {
            lemma_postfix_from(s, kids, i + 1, base, d);
        }
    }
}

/// What [`meaning::subscript`] refuses is not refused for its size.
proof fn lemma_subscript(s: Seq<char>, base: ExprView, p: PairView, d: nat)
    ensures
        meaning::subscript(s, base, p, d) matches Err(e) ==> small(e),
    decreases p, 20int,
{
    let span = source::span_cover(base.span, source::span_of(s, p));
    if p.children.len() != 0 {
        lemma_subscript_inner(s, base, span, p.children[0].children, d);
    }
}

/// What [`meaning::subscript_inner`] refuses is not refused for its size.
proof fn lemma_subscript_inner(
    s: Seq<char>,
    base: ExprView,
    span: Span,
    kids: Seq<PairView>,
    d: nat,
)
    ensures
        meaning::subscript_inner(s, base, span, kids, d) matches Err(e) ==> small(e),
    decreases kids, 0int,
{
    if kids.len() != 0 {
        let inner = kids[0].children;
        let first = meaning::first_place(inner, Rule::Expr, 0);
        match kids[0].rule {
            Rule::SliceFull => {
                lemma_expr_at(s, inner, first, d);
                match meaning::expr_at(s, inner, first, d) {
                    Ok(_) => {
                        lemma_expr_at(
                            s,
                            inner,
                            meaning::first_place(inner, Rule::Expr, first + 1),
                            d,
                        );
                    },
                    _ => {},
                }
            },
            Rule::SliceFrom => {
                lemma_expr_at(s, inner, first, d);
            },
            Rule::SliceTo => {
                lemma_expr_at(s, inner, first, d);
            },
            Rule::Expr => {
                lemma_expr(s, kids[0], d);
            },
            _ => {},
        }
    }
}

/// What [`meaning::exprs_from`] refuses is not refused for its size.
proof fn lemma_exprs_from(s: Seq<char>, kids: Seq<PairView>, i: int, acc: Seq<ExprView>, d: nat)
    ensures
        meaning::exprs_from(s, kids, i, acc, d) matches Err(e) ==> small(e),
    decreases kids, kids.len() - i,
{
    if !(i < 0 || i >= kids.len()) {
        if kids[i].rule == Rule::Expr {
            lemma_expr(s, kids[i], d);
            match meaning::expr(s, kids[i], d) {
                Ok(x) => {
                    lemma_exprs_from(s, kids, i + 1, acc.push(x), d);
                },
                _ => {},
            }
        } else {
            lemma_exprs_from(s, kids, i + 1, acc, d);
        }
    }
}

/// What [`meaning::keyed`] refuses is not refused for its size.
proof fn lemma_keyed(s: Seq<char>, kids: Seq<PairView>, d: nat)
    ensures
        meaning::keyed(s, kids, d) matches Err(e) ==> small(e),
    decreases kids, 1int,
{
    if kids.len() >= 2 {
        lemma_expr_at(s, kids, 1, d);
    }
}

/// What [`meaning::map_from`] refuses is not refused for its size.
proof fn lemma_map_from(
    s: Seq<char>,
    kids: Seq<PairView>,
    i: int,
    acc: Seq<(Seq<char>, ExprView)>,
    d: nat,
)
    ensures
        meaning::map_from(s, kids, i, acc, d) matches Err(e) ==> small(e),
    decreases kids, kids.len() - i,
{
    if !(i < 0 || i >= kids.len()) {
        if kids[i].rule == Rule::MapPair {
            lemma_keyed(s, kids[i].children, d);
            match meaning::keyed(s, kids[i].children, d) {
                Ok(x) => {
                    lemma_map_from(s, kids, i + 1, acc.push(x), d);
                },
                _ => {},
            }
        } else {
            lemma_map_from(s, kids, i + 1, acc, d);
        }
    }
}

/// What [`meaning::args_from`] refuses is not refused for its size.
proof fn lemma_args_from(s: Seq<char>, kids: Seq<PairView>, i: int, acc: meaning::ArgsView, d: nat)
    ensures
        meaning::args_from(s, kids, i, acc, d) matches Err(e) ==> small(e),
    decreases kids, kids.len() - i,
{
    if !(i < 0 || i >= kids.len()) {
        match kids[i].rule {
            Rule::Star => {
                lemma_args_from(
                    s,
                    kids,
                    i + 1,
                    meaning::ArgsView { args: acc.args.push(meaning::at(s, kids[i], ExprKindView::Star)), ..acc },
                    d,
                );
            },
            Rule::DistinctKeyword => {
                lemma_args_from(s, kids, i + 1, meaning::ArgsView { distinct: true, ..acc }, d);
            },
            Rule::ExprList => {
                lemma_exprs_from(s, kids[i].children, 0, acc.args, d);
                match meaning::exprs_from(s, kids[i].children, 0, acc.args, d) {
                    Ok(xs) => {
                        lemma_args_from(s, kids, i + 1, meaning::ArgsView { args: xs, ..acc }, d);
                    },
                    _ => {},
                }
            },
            Rule::Expr => {
                lemma_expr(s, kids[i], d);
                match meaning::expr(s, kids[i], d) {
                    Ok(x) => {
                        lemma_args_from(
                            s,
                            kids,
                            i + 1,
                            meaning::ArgsView { args: acc.args.push(x), ..acc },
                            d,
                        );
                    },
                    _ => {},
                }
            },
            _ => {
                lemma_args_from(s, kids, i + 1, acc, d);
            },
        }
    }
}

/// What [`meaning::call_from`] refuses is not refused for its size.
proof fn lemma_call_from(s: Seq<char>, kids: Seq<PairView>, i: int, acc: meaning::ArgsView, d: nat)
    ensures
        meaning::call_from(s, kids, i, acc, d) matches Err(e) ==> small(e),
    decreases kids, kids.len() - i,
{
    if !(i < 0 || i >= kids.len()) {
        if kids[i].rule == Rule::FunctionArgs {
            lemma_args_from(s, kids[i].children, 0, acc, d);
            match meaning::args_from(s, kids[i].children, 0, acc, d) {
                Ok(next) => {
                    lemma_call_from(s, kids, i + 1, next, d);
                },
                _ => {},
            }
        } else {
            lemma_call_from(s, kids, i + 1, acc, d);
        }
    }
}

/// What [`meaning::call`] refuses is not refused for its size.
proof fn lemma_call(s: Seq<char>, p: PairView, d: nat)
    ensures
        meaning::call(s, p, d) matches Err(e) ==> small(e),
    decreases p, 20int,
{
    lemma_call_from(s, p.children, 0, meaning::ArgsView { args: Seq::empty(), distinct: false }, d);
}

/// What [`meaning::constant`] refuses is not refused for its size.
proof fn lemma_constant(s: Seq<char>, k: PairView)
    ensures
        meaning::constant(s, k) matches Err(e) ==> small(e),
{
    match k.rule {
        Rule::IntegerLiteral => {},
        Rule::FloatLiteral => {},
        Rule::StringLiteral => {
            if !(k.children.len() == 0 || k.children[0].children.len() == 0) {
                lemma_text_unescaped(source::text_of(s, k.children[0].children[0]), 0);
            }
        },
        _ => {},
    }
}

/// What [`meaning::literal_expr`] refuses is not refused for its size.
proof fn lemma_literal_expr(s: Seq<char>, p: PairView)
    ensures
        meaning::literal_expr(s, p) matches Err(e) ==> small(e),
{
    if p.children.len() != 0 {
        lemma_constant(s, p.children[0]);
    }
}

/// What [`meaning::quantifier_kind`] refuses is not refused for its size.
proof fn lemma_quantifier_kind(t: Seq<char>)
    ensures
        meaning::quantifier_kind(t) matches Err(e) ==> small(e),
{
}

/// What [`meaning::scope_step`] refuses is not refused for its size.
proof fn lemma_scope_step(s: Seq<char>, acc: meaning::ScopeView, k: PairView, d: nat)
    ensures
        meaning::scope_step(s, acc, k, d) matches Err(e) ==> small(e),
    decreases k, 70int,
{
    match k.rule {
        Rule::QuantifierName => {
            lemma_quantifier_kind(source::text_of(s, k));
        },
        Rule::Ident => {},
        Rule::Expr => {
            lemma_expr(s, k, d);
        },
        Rule::WhereClause => {
            lemma_where_clause(s, k, d);
        },
        Rule::ListCompWhere => {
            lemma_condition_at(s, k.children, 0, d);
        },
        Rule::ListCompMap => {
            lemma_expr_at(s, k.children, 0, d);
        },
        _ => {},
    }
}

/// What [`meaning::scope_from`] refuses is not refused for its size.
proof fn lemma_scope_from(
    s: Seq<char>,
    kids: Seq<PairView>,
    i: int,
    acc: meaning::ScopeView,
    d: nat,
)
    ensures
        meaning::scope_from(s, kids, i, acc, d) matches Err(e) ==> small(e),
    decreases kids, kids.len() - i,
{
    if !(i < 0 || i >= kids.len()) {
        lemma_scope_step(s, acc, kids[i], d);
        match meaning::scope_step(s, acc, kids[i], d) {
            Ok(next) => {
                lemma_scope_from(s, kids, i + 1, next, d);
            },
            _ => {},
        }
    }
}

/// What [`meaning::condition_at`] refuses is not refused for its size.
proof fn lemma_condition_at(s: Seq<char>, kids: Seq<PairView>, i: int, d: nat)
    ensures
        meaning::condition_at(s, kids, i, d) matches Err(e) ==> small(e),
    decreases kids, 0int,
{
    if 0 <= i < kids.len() {
        lemma_bool_expr(s, kids[i], d);
    }
}

/// What [`meaning::list_comprehension`] refuses is not refused for its size.
proof fn lemma_list_comprehension(s: Seq<char>, p: PairView, d: nat)
    ensures
        meaning::list_comprehension(s, p, d) matches Err(e) ==> small(e),
    decreases p, 20int,
{
    lemma_scope_from(s, p.children, 0, meaning::no_scope(), d);
}

/// What [`meaning::quantifier`] refuses is not refused for its size.
proof fn lemma_quantifier(s: Seq<char>, p: PairView, d: nat)
    ensures
        meaning::quantifier(s, p, d) matches Err(e) ==> small(e),
    decreases p, 20int,
{
    lemma_scope_from(s, p.children, 0, meaning::no_scope(), d);
}

/// What [`meaning::pattern_scope_step`] refuses is not refused for its size.
proof fn lemma_pattern_scope_step(s: Seq<char>, acc: meaning::ScopeView, k: PairView, d: nat)
    ensures
        meaning::pattern_scope_step(s, acc, k, d) matches Err(e) ==> small(e),
    decreases k, 70int,
{
    match k.rule {
        Rule::Ident => {},
        Rule::Pattern => {
            lemma_pattern(s, k, d);
        },
        Rule::BoolExpr => {
            lemma_bool_expr(s, k, d);
        },
        Rule::Expr => {
            lemma_expr(s, k, d);
        },
        _ => {},
    }
}

/// What [`meaning::pattern_scope_from`] refuses is not refused for its size.
proof fn lemma_pattern_scope_from(
    s: Seq<char>,
    kids: Seq<PairView>,
    i: int,
    acc: meaning::ScopeView,
    d: nat,
)
    ensures
        meaning::pattern_scope_from(s, kids, i, acc, d) matches Err(e) ==> small(e),
    decreases kids, kids.len() - i,
{
    if !(i < 0 || i >= kids.len()) {
        lemma_pattern_scope_step(s, acc, kids[i], d);
        match meaning::pattern_scope_step(s, acc, kids[i], d) {
            Ok(next) => {
                lemma_pattern_scope_from(s, kids, i + 1, next, d);
            },
            _ => {},
        }
    }
}

/// What [`meaning::pattern_comprehension`] refuses is not refused for its size.
proof fn lemma_pattern_comprehension(s: Seq<char>, p: PairView, d: nat)
    ensures
        meaning::pattern_comprehension(s, p, d) matches Err(e) ==> small(e),
    decreases p, 20int,
{
    lemma_pattern_scope_from(s, p.children, 0, meaning::no_scope(), d);
}

/// What [`meaning::patterns_from`] refuses is not refused for its size.
proof fn lemma_patterns_from(
    s: Seq<char>,
    kids: Seq<PairView>,
    i: int,
    acc: Seq<PatternView>,
    d: nat,
)
    ensures
        meaning::patterns_from(s, kids, i, acc, d) matches Err(e) ==> small(e),
    decreases kids, kids.len() - i,
{
    if !(i < 0 || i >= kids.len()) {
        if kids[i].rule == Rule::PatternItem {
            lemma_pattern_item(s, kids[i], d);
            match meaning::pattern_item(s, kids[i], d) {
                Ok(x) => {
                    lemma_patterns_from(s, kids, i + 1, acc.push(x), d);
                },
                _ => {},
            }
        } else {
            lemma_patterns_from(s, kids, i + 1, acc, d);
        }
    }
}

/// What [`meaning::pattern_list`] refuses is not refused for its size.
proof fn lemma_pattern_list(s: Seq<char>, p: PairView, d: nat)
    ensures
        meaning::pattern_list(s, p, d) matches Err(e) ==> small(e),
    decreases p, 20int,
{
    lemma_patterns_from(s, p.children, 0, Seq::empty(), d);
}

/// What [`meaning::pattern_item`] refuses is not refused for its size.
proof fn lemma_pattern_item(s: Seq<char>, p: PairView, d: nat)
    ensures
        meaning::pattern_item(s, p, d) matches Err(e) ==> small(e),
    decreases p, 20int,
{
    if p.children.len() != 0 {
        match p.children[0].rule {
            Rule::PathPattern => {
                lemma_path_pattern(s, p.children[0], d);
            },
            Rule::Pattern => {
                lemma_pattern(s, p.children[0], d);
            },
            _ => {},
        }
    }
}

/// What [`meaning::inner_pattern`] refuses is not refused for its size.
proof fn lemma_inner_pattern(s: Seq<char>, kids: Seq<PairView>, d: nat)
    ensures
        meaning::inner_pattern(s, kids, d) matches Err(e) ==> small(e),
    decreases kids, 0int,
{
    let i = meaning::last_place(kids, Rule::Pattern, kids.len() as int);
    if 0 <= i < kids.len() {
        lemma_pattern(s, kids[i], d);
    }
}

/// What [`meaning::path_step`] refuses is not refused for its size.
proof fn lemma_path_step(s: Seq<char>, acc: meaning::PathParts, k: PairView, d: nat)
    ensures
        meaning::path_step(s, acc, k, d) matches Err(e) ==> small(e),
    decreases k, 30int,
{
    match k.rule {
        Rule::Ident => {},
        Rule::ShortestPathFn => {
            lemma_inner_pattern(s, k.children, d);
        },
        Rule::AllShortestPathsFn => {
            lemma_inner_pattern(s, k.children, d);
        },
        Rule::Pattern => {
            lemma_pattern(s, k, d);
        },
        _ => {},
    }
}

/// What [`meaning::path_from`] refuses is not refused for its size.
proof fn lemma_path_from(s: Seq<char>, kids: Seq<PairView>, i: int, acc: meaning::PathParts, d: nat)
    ensures
        meaning::path_from(s, kids, i, acc, d) matches Err(e) ==> small(e),
    decreases kids, kids.len() - i,
{
    if !(i < 0 || i >= kids.len()) {
        lemma_path_step(s, acc, kids[i], d);
        match meaning::path_step(s, acc, kids[i], d) {
            Ok(next) => {
                lemma_path_from(s, kids, i + 1, next, d);
            },
            _ => {},
        }
    }
}

/// What [`meaning::path_pattern`] refuses is not refused for its size.
proof fn lemma_path_pattern(s: Seq<char>, p: PairView, d: nat)
    ensures
        meaning::path_pattern(s, p, d) matches Err(e) ==> small(e),
    decreases p, 20int,
{
    let none = meaning::PathParts { variable: None, pattern: None, mode: ShortestPathMode::Off };
    lemma_path_from(s, p.children, 0, none, d);
}

/// What [`meaning::elements_from`] refuses is not refused for its size.
proof fn lemma_elements_from(
    s: Seq<char>,
    kids: Seq<PairView>,
    i: int,
    acc: Seq<PatternElementView>,
    d: nat,
)
    ensures
        meaning::elements_from(s, kids, i, acc, d) matches Err(e) ==> small(e),
    decreases kids, kids.len() - i,
{
    if !(i < 0 || i >= kids.len()) {
        if kids[i].rule == Rule::NodePattern {
            lemma_node_pattern(s, kids[i], d);
            match meaning::node_pattern(s, kids[i], d) {
                Ok(x) => {
                    lemma_elements_from(s, kids, i + 1, acc.push(PatternElementView::Node(x)), d);
                },
                _ => {},
            }
        } else if kids[i].rule == Rule::RelPattern {
            lemma_rel_pattern(s, kids[i], d);
            match meaning::rel_pattern(s, kids[i], d) {
                Ok(x) => {
                    lemma_elements_from(
                        s,
                        kids,
                        i + 1,
                        acc.push(PatternElementView::Relationship(x)),
                        d,
                    );
                },
                _ => {},
            }
        } else {
            lemma_elements_from(s, kids, i + 1, acc, d);
        }
    }
}

/// What [`meaning::pattern`] refuses is not refused for its size.
proof fn lemma_pattern(s: Seq<char>, p: PairView, d: nat)
    ensures
        meaning::pattern(s, p, d) matches Err(e) ==> small(e),
    decreases p, 20int,
{
    lemma_elements_from(s, p.children, 0, Seq::empty(), d);
}

/// What [`meaning::node_from`] refuses is not refused for its size.
proof fn lemma_node_from(s: Seq<char>, kids: Seq<PairView>, i: int, acc: NodePatternView, d: nat)
    ensures
        meaning::node_from(s, kids, i, acc, d) matches Err(e) ==> small(e),
    decreases kids, kids.len() - i,
{
    if !(i < 0 || i >= kids.len()) {
        let k = kids[i];
        match k.rule {
            Rule::Ident => {
                lemma_node_from(
                    s,
                    kids,
                    i + 1,
                    NodePatternView { variable: Some(meaning::name(s, k)), ..acc },
                    d,
                );
            },
            Rule::LabelSpec => {
                lemma_node_from(
                    s,
                    kids,
                    i + 1,
                    NodePatternView { labels: acc.labels + meaning::texts_of( s, k.children, Rule::SymbolicName, k.children.len() as int, ), ..acc },
                    d,
                );
            },
            Rule::PropertyMap => {
                lemma_property_map(s, k, d);
                match meaning::property_map(s, k, d) {
                    Ok(x) => {
                        lemma_node_from(
                            s,
                            kids,
                            i + 1,
                            NodePatternView { properties: x, ..acc },
                            d,
                        );
                    },
                    _ => {},
                }
            },
            _ => {
                lemma_node_from(s, kids, i + 1, acc, d);
            },
        }
    }
}

/// What [`meaning::node_pattern`] refuses is not refused for its size.
proof fn lemma_node_pattern(s: Seq<char>, p: PairView, d: nat)
    ensures
        meaning::node_pattern(s, p, d) matches Err(e) ==> small(e),
    decreases p, 20int,
{
    lemma_node_from(
        s,
        p.children,
        0,
        NodePatternView { variable: None, labels: Seq::empty(), properties: Seq::empty() },
        d,
    );
}

/// What [`meaning::rel_from`] refuses is not refused for its size.
proof fn lemma_rel_from(s: Seq<char>, kids: Seq<PairView>, i: int, acc: RelPatternView, d: nat)
    ensures
        meaning::rel_from(s, kids, i, acc, d) matches Err(e) ==> small(e),
    decreases kids, kids.len() - i,
{
    if !(i < 0 || i >= kids.len()) {
        let k = kids[i];
        match k.rule {
            Rule::Ident => {
                lemma_rel_from(
                    s,
                    kids,
                    i + 1,
                    RelPatternView { variable: Some(meaning::name(s, k)), ..acc },
                    d,
                );
            },
            Rule::RelTypeSpec => {
                lemma_rel_from(
                    s,
                    kids,
                    i + 1,
                    RelPatternView { rel_types: meaning::with_types( acc.rel_types, s, k.children, k.children.len() as int, ), ..acc },
                    d,
                );
            },
            Rule::PropertyMap => {
                lemma_property_map(s, k, d);
                match meaning::property_map(s, k, d) {
                    Ok(x) => {
                        lemma_rel_from(s, kids, i + 1, RelPatternView { properties: x, ..acc }, d);
                    },
                    _ => {},
                }
            },
            Rule::VarLength => {
                lemma_var_length(s, k, d);
                match meaning::var_length(s, k, d) {
                    Ok((range, x)) => {
                        lemma_rel_from(
                            s,
                            kids,
                            i + 1,
                            RelPatternView { var_length: Some(range), properties: meaning::extended(acc.properties, x, x.len() as int), ..acc },
                            d,
                        );
                    },
                    _ => {},
                }
            },
            _ => {
                lemma_rel_from(s, kids, i + 1, acc, d);
            },
        }
    }
}

/// What [`meaning::details_from`] refuses is not refused for its size.
proof fn lemma_details_from(s: Seq<char>, kids: Seq<PairView>, i: int, acc: RelPatternView, d: nat)
    ensures
        meaning::details_from(s, kids, i, acc, d) matches Err(e) ==> small(e),
    decreases kids, kids.len() - i,
{
    if !(i < 0 || i >= kids.len()) {
        if kids[i].rule == Rule::RelDetail {
            lemma_rel_from(s, kids[i].children, 0, acc, d);
            match meaning::rel_from(s, kids[i].children, 0, acc, d) {
                Ok(next) => {
                    lemma_details_from(s, kids, i + 1, next, d);
                },
                _ => {},
            }
        } else {
            lemma_details_from(s, kids, i + 1, acc, d);
        }
    }
}

/// What [`meaning::rel_pattern`] refuses is not refused for its size.
proof fn lemma_rel_pattern(s: Seq<char>, p: PairView, d: nat)
    ensures
        meaning::rel_pattern(s, p, d) matches Err(e) ==> small(e),
    decreases p, 20int,
{
    if p.children.len() != 0 {
        match meaning::direction_of(p.children[0].rule) {
            Some(direction) => {
                lemma_details_from(
                    s,
                    p.children[0].children,
                    0,
                    RelPatternView { variable: None, rel_types: Seq::empty(), properties: Seq::empty(), direction, var_length: None, },
                    d,
                );
            },
            _ => {},
        }
    }
}

/// What [`meaning::bounds_from`] refuses is not refused for its size.
proof fn lemma_bounds_from(s: Seq<char>, kids: Seq<PairView>, i: int, acc: Seq<u32>)
    ensures
        meaning::bounds_from(s, kids, i, acc) matches Err(e) ==> small(e),
    decreases kids.len() - i,
{
    if !(i < 0 || i >= kids.len()) {
        if kids[i].rule == Rule::Integer {
            lemma_text_hop_bound(source::text_of(s, kids[i]));
            match literal::hop_bound(source::text_of(s, kids[i])) {
                Ok(n) => {
                    lemma_bounds_from(s, kids, i + 1, acc.push(n));
                },
                _ => {},
            }
        } else {
            lemma_bounds_from(s, kids, i + 1, acc);
        }
    }
}

/// What [`meaning::hop_range`] refuses is not refused for its size.
proof fn lemma_hop_range(s: Seq<char>, p: PairView)
    ensures
        meaning::hop_range(s, p) matches Err(e) ==> small(e),
{
    lemma_bounds_from(s, p.children, 0, Seq::empty());
}

/// What [`meaning::length_from`] refuses is not refused for its size.
proof fn lemma_length_from(
    s: Seq<char>,
    kids: Seq<PairView>,
    i: int,
    range: (u32, u32),
    props: Seq<(Seq<char>, ExprView)>,
    d: nat,
)
    ensures
        meaning::length_from(s, kids, i, range, props, d) matches Err(e) ==> small(e),
    decreases kids, kids.len() - i,
{
    if !(i < 0 || i >= kids.len()) {
        match kids[i].rule {
            Rule::IntRange => {
                lemma_hop_range(s, kids[i]);
                match meaning::hop_range(s, kids[i]) {
                    Ok(r) => {
                        lemma_length_from(s, kids, i + 1, r, props, d);
                    },
                    _ => {},
                }
            },
            Rule::FixedLength => {
                lemma_text_hop_bound(source::text_of(s, kids[i]));
                match literal::hop_bound(source::text_of(s, kids[i])) {
                    Ok(n) => {
                        lemma_length_from(s, kids, i + 1, (n, n), props, d);
                    },
                    _ => {},
                }
            },
            Rule::PropertyMap => {
                lemma_property_map(s, kids[i], d);
                match meaning::property_map(s, kids[i], d) {
                    Ok(x) => {
                        lemma_length_from(s, kids, i + 1, range, x, d);
                    },
                    _ => {},
                }
            },
            _ => {
                lemma_length_from(s, kids, i + 1, range, props, d);
            },
        }
    }
}

/// What [`meaning::var_length`] refuses is not refused for its size.
proof fn lemma_var_length(s: Seq<char>, p: PairView, d: nat)
    ensures
        meaning::var_length(s, p, d) matches Err(e) ==> small(e),
    decreases p, 20int,
{
    lemma_length_from(s, p.children, 0, (1, 50), Seq::empty(), d);
}

/// What [`meaning::props_from`] refuses is not refused for its size.
proof fn lemma_props_from(
    s: Seq<char>,
    kids: Seq<PairView>,
    i: int,
    acc: Seq<(Seq<char>, ExprView)>,
    d: nat,
)
    ensures
        meaning::props_from(s, kids, i, acc, d) matches Err(e) ==> small(e),
    decreases kids, kids.len() - i,
{
    if !(i < 0 || i >= kids.len()) {
        if kids[i].rule == Rule::PropertyPair {
            lemma_keyed(s, kids[i].children, d);
            match meaning::keyed(s, kids[i].children, d) {
                Ok((k, x)) => {
                    lemma_props_from(s, kids, i + 1, assoc::put(acc, k, x), d);
                },
                _ => {},
            }
        } else {
            lemma_props_from(s, kids, i + 1, acc, d);
        }
    }
}

/// What [`meaning::property_map`] refuses is not refused for its size.
proof fn lemma_property_map(s: Seq<char>, p: PairView, d: nat)
    ensures
        meaning::property_map(s, p, d) matches Err(e) ==> small(e),
    decreases p, 20int,
{
    lemma_props_from(s, p.children, 0, Seq::empty(), d);
}

/// What [`meaning::where_clause`] refuses is not refused for its size.
proof fn lemma_where_clause(s: Seq<char>, p: PairView, d: nat)
    ensures
        meaning::where_clause(s, p, d) matches Err(e) ==> small(e),
    decreases p, 20int,
{
    lemma_condition_at(s, p.children, meaning::first_place(p.children, Rule::BoolExpr, 0), d);
}

/// What [`meaning::with_step`] refuses is not refused for its size.
proof fn lemma_with_step(s: Seq<char>, acc: WithClauseView, k: PairView, d: nat)
    ensures
        meaning::with_step(s, acc, k, d) matches Err(e) ==> small(e),
    decreases k, 30int,
{
    match k.rule {
        Rule::DistinctKeyword => {},
        Rule::ReturnItems => {
            lemma_items_from(s, k.children, 0, Seq::empty(), d);
        },
        Rule::OrderByClause => {
            lemma_order_by(s, k, d);
        },
        Rule::SkipClause => {
            lemma_expr_under(s, k.children, Rule::Expr, d);
        },
        Rule::LimitClause => {
            lemma_expr_under(s, k.children, Rule::Expr, d);
        },
        Rule::WhereClause => {
            lemma_where_clause(s, k, d);
        },
        _ => {},
    }
}

/// What [`meaning::with_from`] refuses is not refused for its size.
proof fn lemma_with_from(s: Seq<char>, kids: Seq<PairView>, i: int, acc: WithClauseView, d: nat)
    ensures
        meaning::with_from(s, kids, i, acc, d) matches Err(e) ==> small(e),
    decreases kids, kids.len() - i,
{
    if !(i < 0 || i >= kids.len()) {
        lemma_with_step(s, acc, kids[i], d);
        match meaning::with_step(s, acc, kids[i], d) {
            Ok(next) => {
                lemma_with_from(s, kids, i + 1, next, d);
            },
            _ => {},
        }
    }
}

/// What [`meaning::with_clause`] refuses is not refused for its size.
proof fn lemma_with_clause(s: Seq<char>, p: PairView, d: nat)
    ensures
        meaning::with_clause(s, p, d) matches Err(e) ==> small(e),
    decreases p, 20int,
{
    lemma_with_from(
        s,
        p.children,
        0,
        WithClauseView { items: Seq::empty(), distinct: false, order_by: Seq::empty(), skip: None, limit: None, where_clause: None, },
        d,
    );
}

/// What [`meaning::item_from`] refuses is not refused for its size.
proof fn lemma_item_from(
    s: Seq<char>,
    kids: Seq<PairView>,
    i: int,
    e: Option<ExprView>,
    alias: Option<Seq<char>>,
    d: nat,
)
    ensures
        meaning::item_from(s, kids, i, e, alias, d) matches Err(e) ==> small(e),
    decreases kids, kids.len() - i,
{
    if !(i < 0 || i >= kids.len()) {
        match kids[i].rule {
            Rule::Expr => {
                lemma_expr(s, kids[i], d);
                match meaning::expr(s, kids[i], d) {
                    Ok(x) => {
                        lemma_item_from(s, kids, i + 1, Some(x), alias, d);
                    },
                    _ => {},
                }
            },
            Rule::Alias => {
                lemma_item_from(
                    s,
                    kids,
                    i + 1,
                    e,
                    meaning::alias_of(s, kids[i].children, alias),
                    d,
                );
            },
            _ => {
                lemma_item_from(s, kids, i + 1, e, alias, d);
            },
        }
    }
}

/// What [`meaning::items_from`] refuses is not refused for its size.
proof fn lemma_items_from(
    s: Seq<char>,
    kids: Seq<PairView>,
    i: int,
    acc: Seq<ReturnItemView>,
    d: nat,
)
    ensures
        meaning::items_from(s, kids, i, acc, d) matches Err(e) ==> small(e),
    decreases kids, kids.len() - i,
{
    if !(i < 0 || i >= kids.len()) {
        if kids[i].rule == Rule::ReturnItem {
            lemma_item_from(s, kids[i].children, 0, None, None, d);
            match meaning::item_from(s, kids[i].children, 0, None, None, d) {
                Ok(x) => {
                    lemma_items_from(s, kids, i + 1, acc.push(x), d);
                },
                _ => {},
            }
        } else {
            lemma_items_from(s, kids, i + 1, acc, d);
        }
    }
}

/// What [`meaning::return_clause`] refuses is not refused for its size.
proof fn lemma_return_clause(s: Seq<char>, p: PairView, d: nat)
    ensures
        meaning::return_clause(s, p, d) matches Err(e) ==> small(e),
    decreases p, 20int,
{
    let i = meaning::first_place(p.children, Rule::ReturnItems, 0);
    if 0 <= i < p.children.len() {
        lemma_items_from(s, p.children[i].children, 0, Seq::empty(), d);
    }
}

/// What [`meaning::sort_from`] refuses is not refused for its size.
proof fn lemma_sort_from(
    s: Seq<char>,
    kids: Seq<PairView>,
    i: int,
    e: Option<ExprView>,
    descending: bool,
    d: nat,
)
    ensures
        meaning::sort_from(s, kids, i, e, descending, d) matches Err(e) ==> small(e),
    decreases kids, kids.len() - i,
{
    if !(i < 0 || i >= kids.len()) {
        match kids[i].rule {
            Rule::Expr => {
                lemma_expr(s, kids[i], d);
                match meaning::expr(s, kids[i], d) {
                    Ok(x) => {
                        lemma_sort_from(s, kids, i + 1, Some(x), descending, d);
                    },
                    _ => {},
                }
            },
            Rule::SortDirection => {
                lemma_sort_from(
                    s,
                    kids,
                    i + 1,
                    e,
                    meaning::is_descending(source::text_of(s, kids[i])),
                    d,
                );
            },
            _ => {
                lemma_sort_from(s, kids, i + 1, e, descending, d);
            },
        }
    }
}

/// What [`meaning::sorts_from`] refuses is not refused for its size.
proof fn lemma_sorts_from(s: Seq<char>, kids: Seq<PairView>, i: int, acc: Seq<SortItemView>, d: nat)
    ensures
        meaning::sorts_from(s, kids, i, acc, d) matches Err(e) ==> small(e),
    decreases kids, kids.len() - i,
{
    if !(i < 0 || i >= kids.len()) {
        if kids[i].rule == Rule::SortItem {
            lemma_sort_from(s, kids[i].children, 0, None, false, d);
            match meaning::sort_from(s, kids[i].children, 0, None, false, d) {
                Ok(x) => {
                    lemma_sorts_from(s, kids, i + 1, acc.push(x), d);
                },
                _ => {},
            }
        } else {
            lemma_sorts_from(s, kids, i + 1, acc, d);
        }
    }
}

/// What [`meaning::order_by`] refuses is not refused for its size.
proof fn lemma_order_by(s: Seq<char>, p: PairView, d: nat)
    ensures
        meaning::order_by(s, p, d) matches Err(e) ==> small(e),
    decreases p, 20int,
{
    let i = meaning::first_place(p.children, Rule::SortItems, 0);
    if 0 <= i < p.children.len() {
        lemma_sorts_from(s, p.children[i].children, 0, Seq::empty(), d);
    }
}

/// What [`meaning::unwind_from`] refuses is not refused for its size.
proof fn lemma_unwind_from(
    s: Seq<char>,
    kids: Seq<PairView>,
    i: int,
    e: Option<ExprView>,
    alias: Option<Seq<char>>,
    d: nat,
)
    ensures
        meaning::unwind_from(s, kids, i, e, alias, d) matches Err(e) ==> small(e),
    decreases kids, kids.len() - i,
{
    if !(i < 0 || i >= kids.len()) {
        match kids[i].rule {
            Rule::Expr => {
                lemma_expr(s, kids[i], d);
                match meaning::expr(s, kids[i], d) {
                    Ok(x) => {
                        lemma_unwind_from(s, kids, i + 1, Some(x), alias, d);
                    },
                    _ => {},
                }
            },
            Rule::Ident => {
                lemma_unwind_from(s, kids, i + 1, e, Some(meaning::name(s, kids[i])), d);
            },
            _ => {
                lemma_unwind_from(s, kids, i + 1, e, alias, d);
            },
        }
    }
}

/// What [`meaning::unwind_clause`] refuses is not refused for its size.
proof fn lemma_unwind_clause(s: Seq<char>, p: PairView, d: nat)
    ensures
        meaning::unwind_clause(s, p, d) matches Err(e) ==> small(e),
    decreases p, 20int,
{
    lemma_unwind_from(s, p.children, 0, None, None, d);
}

/// What [`forms::assignment`] refuses is not refused for its size.
proof fn lemma_form_assignment(s: Seq<char>, kids: Seq<PairView>, d: nat)
    ensures
        forms::assignment(s, kids, d) matches Err(e) ==> small(e),
{
    if kids.len() >= 2 {
        lemma_expr(s, kids[1], d);
        match meaning::expr(s, kids[1], d) {
            Ok(value) => {
                lemma_form_target(s, kids[0], value, d);
            },
            _ => {},
        }
    }
}

/// What [`forms::target`] refuses is not refused for its size.
proof fn lemma_form_target(s: Seq<char>, p: PairView, value: ExprView, d: nat)
    ensures
        forms::target(s, p, value, d) matches Err(e) ==> small(e),
{
    if p.children.len() >= 2 {
        if p.rule == Rule::ExprPropertyAccess {
            lemma_expr(s, p.children[0], d);
        }
    }
}

/// What [`forms::set_item`] refuses is not refused for its size.
proof fn lemma_form_set_item(s: Seq<char>, p: PairView, d: nat)
    ensures
        forms::set_item(s, p, d) matches Err(e) ==> small(e),
{
    if p.children.len() != 0 {
        let kids = p.children[0].children;
        match p.children[0].rule {
            Rule::SetLabel => {},
            Rule::SetMapMerge => {
                lemma_expr_under(s, kids, Rule::Expr, d);
            },
            Rule::SetMap => {
                lemma_expr_under(s, kids, Rule::Expr, d);
            },
            Rule::Assignment => {
                lemma_form_assignment(s, kids, d);
            },
            _ => {},
        }
    }
}

/// What [`forms::set_items_from`] refuses is not refused for its size.
proof fn lemma_form_set_items_from(
    s: Seq<char>,
    kids: Seq<PairView>,
    i: int,
    acc: Seq<SetItemView>,
    d: nat,
)
    ensures
        forms::set_items_from(s, kids, i, acc, d) matches Err(e) ==> small(e),
    decreases kids.len() - i,
{
    if !(i < 0 || i >= kids.len()) {
        if kids[i].rule == Rule::SetItem {
            lemma_form_set_item(s, kids[i], d);
            match forms::set_item(s, kids[i], d) {
                Ok(x) => {
                    lemma_form_set_items_from(s, kids, i + 1, acc.push(x), d);
                },
                _ => {},
            }
        } else {
            lemma_form_set_items_from(s, kids, i + 1, acc, d);
        }
    }
}

/// What [`forms::assignments_under`] refuses is not refused for its size.
proof fn lemma_form_assignments_under(s: Seq<char>, kids: Seq<PairView>, d: nat)
    ensures
        forms::assignments_under(s, kids, d) matches Err(e) ==> small(e),
{
    let i = meaning::first_place(kids, Rule::AssignmentList, 0);
    if 0 <= i < kids.len() {
        lemma_form_set_items_from(s, kids[i].children, 0, Seq::empty(), d);
    }
}

/// What [`forms::remove_item`] refuses is not refused for its size.
proof fn lemma_form_remove_item(s: Seq<char>, p: PairView)
    ensures
        forms::remove_item(s, p) matches Err(e) ==> small(e),
{
}

/// What [`forms::remove_items_from`] refuses is not refused for its size.
proof fn lemma_form_remove_items_from(
    s: Seq<char>,
    kids: Seq<PairView>,
    i: int,
    acc: Seq<RemoveItemView>,
)
    ensures
        forms::remove_items_from(s, kids, i, acc) matches Err(e) ==> small(e),
    decreases kids.len() - i,
{
    if !(i < 0 || i >= kids.len()) {
        if kids[i].rule == Rule::RemoveItem {
            lemma_form_remove_item(s, kids[i]);
            match forms::remove_item(s, kids[i]) {
                Ok(x) => {
                    lemma_form_remove_items_from(s, kids, i + 1, acc.push(x));
                },
                _ => {},
            }
        } else {
            lemma_form_remove_items_from(s, kids, i + 1, acc);
        }
    }
}

/// What [`forms::creates_from`] refuses is not refused for its size.
proof fn lemma_form_creates_from(
    s: Seq<char>,
    kids: Seq<PairView>,
    i: int,
    acc: Seq<PatternView>,
    d: nat,
)
    ensures
        forms::creates_from(s, kids, i, acc, d) matches Err(e) ==> small(e),
    decreases kids.len() - i,
{
    if !(i < 0 || i >= kids.len()) {
        if kids[i].rule == Rule::CreatePattern {
            lemma_pattern(s, kids[i], d);
            match meaning::pattern(s, kids[i], d) {
                Ok(x) => {
                    lemma_form_creates_from(s, kids, i + 1, acc.push(x), d);
                },
                _ => {},
            }
        } else {
            lemma_form_creates_from(s, kids, i + 1, acc, d);
        }
    }
}

/// What [`forms::part_step`] refuses is not refused for its size.
proof fn lemma_form_part_step(s: Seq<char>, acc: PartsView, k: PairView, d: nat)
    ensures
        forms::part_step(s, acc, k, d) matches Err(e) ==> small(e),
    decreases k, 30int,
{
    match k.rule {
        Rule::PatternList => {
            if !(acc.closed) {
                lemma_pattern_list(s, k, d);
            }
        },
        Rule::OptionalMatchClause => {
            if !(acc.closed) {
                lemma_form_parts_from(s, k.children, 0, meaning::no_parts(false), d);
            }
        },
        Rule::WhereClause => {
            if !(acc.closed) {
                lemma_where_clause(s, k, d);
            }
        },
        Rule::MatchPart => {
            lemma_form_parts_from(s, k.children, 0, meaning::no_parts(false), d);
        },
        Rule::CreatePatternList => {
            lemma_form_creates_from(s, k.children, 0, acc.create_patterns, d);
        },
        Rule::PatternItem => {
            lemma_pattern_item(s, k, d);
        },
        Rule::OnCreateClause => {
            lemma_form_assignments_under(s, k.children, d);
        },
        Rule::OnMatchClause => {
            lemma_form_assignments_under(s, k.children, d);
        },
        Rule::AssignmentList => {
            lemma_form_set_items_from(s, k.children, 0, Seq::empty(), d);
        },
        Rule::RemoveItemList => {
            lemma_form_remove_items_from(s, k.children, 0, acc.removals);
        },
        Rule::DetachKeyword => {},
        Rule::DeleteExprList => {
            lemma_exprs_from(s, k.children, 0, acc.exprs, d);
        },
        _ => {
            lemma_tail_step(s, acc, k, d);
        },
    }
}

/// What [`forms::parts_from`] refuses is not refused for its size.
proof fn lemma_form_parts_from(s: Seq<char>, kids: Seq<PairView>, i: int, acc: PartsView, d: nat)
    ensures
        forms::parts_from(s, kids, i, acc, d) matches Err(e) ==> small(e),
    decreases kids, kids.len() - i,
{
    if !(i < 0 || i >= kids.len()) {
        lemma_form_part_step(s, acc, kids[i], d);
        match forms::part_step(s, acc, kids[i], d) {
            Ok(next) => {
                lemma_form_parts_from(s, kids, i + 1, next, d);
            },
            _ => {},
        }
    }
}

/// What [`forms::parts`] refuses is not refused for its size.
proof fn lemma_form_parts(s: Seq<char>, p: PairView, first: bool, d: nat)
    ensures
        forms::parts(s, p, first, d) matches Err(e) ==> small(e),
{
    lemma_form_parts_from(s, p.children, 0, meaning::no_parts(first), d);
}

/// What [`forms::match_statement`] refuses is not refused for its size.
proof fn lemma_form_match_statement(m: PartsView)
    ensures
        forms::match_statement(m) matches Err(e) ==> small(e),
{
}

/// What [`forms::return_statement`] refuses is not refused for its size.
proof fn lemma_form_return_statement(m: PartsView)
    ensures
        forms::return_statement(m) matches Err(e) ==> small(e),
{
}

/// What [`forms::match_merge_statement`] refuses is not refused for its size.
proof fn lemma_form_match_merge_statement(m: PartsView)
    ensures
        forms::match_merge_statement(m) matches Err(e) ==> small(e),
{
}

/// What [`forms::merge_statement`] refuses is not refused for its size.
proof fn lemma_form_merge_statement(m: PartsView)
    ensures
        forms::merge_statement(m) matches Err(e) ==> small(e),
{
}

/// What [`forms::unwind_body`] refuses is not refused for its size.
proof fn lemma_form_unwind_body(s: Seq<char>, kids: Seq<PairView>, d: nat)
    ensures
        forms::unwind_body(s, kids, d) matches Err(e) ==> small(e),
{
    let i = meaning::first_place(kids, Rule::UnwindReturn, 0);
    let j = meaning::first_place(kids, Rule::UnwindCreate, 0);
    if 0 <= i < kids.len() {
        lemma_form_parts(s, kids[i], false, d);
    } else if 0 <= j < kids.len() {
        lemma_form_parts(s, kids[j], false, d);
    }
}

/// What [`forms::unwind_statement`] refuses is not refused for its size.
proof fn lemma_form_unwind_statement(s: Seq<char>, p: PairView, d: nat)
    ensures
        forms::unwind_statement(s, p, d) matches Err(e) ==> small(e),
{
    lemma_unwind_clause(s, p, d);
    match meaning::unwind_clause(s, p, d) {
        Ok(_) => {
            lemma_form_unwind_body(s, p.children, d);
        },
        _ => {},
    }
}

/// What [`forms::call_from`] refuses is not refused for its size.
proof fn lemma_form_call_from(
    s: Seq<char>,
    kids: Seq<PairView>,
    i: int,
    acc: forms::CallView,
    d: nat,
)
    ensures
        forms::call_from(s, kids, i, acc, d) matches Err(e) ==> small(e),
    decreases kids.len() - i,
{
    if !(i < 0 || i >= kids.len()) {
        match kids[i].rule {
            Rule::ProcedureName => {
                lemma_form_call_from(
                    s,
                    kids,
                    i + 1,
                    forms::CallView { procedure_name: source::text_of(s, kids[i]), ..acc },
                    d,
                );
            },
            Rule::Expr => {
                lemma_expr(s, kids[i], d);
                match meaning::expr(s, kids[i], d) {
                    Ok(x) => {
                        lemma_form_call_from(
                            s,
                            kids,
                            i + 1,
                            forms::CallView { args: acc.args.push(x), ..acc },
                            d,
                        );
                    },
                    _ => {},
                }
            },
            Rule::YieldClause => {
                lemma_form_call_from(
                    s,
                    kids,
                    i + 1,
                    forms::CallView { yield_items: forms::yield_items(s, kids[i].children), yield_star: forms::yield_star(kids[i].children), ..acc },
                    d,
                );
            },
            _ => {
                lemma_form_call_from(s, kids, i + 1, acc, d);
            },
        }
    }
}

/// What [`forms::call_statement`] refuses is not refused for its size.
proof fn lemma_form_call_statement(s: Seq<char>, p: PairView, d: nat)
    ensures
        forms::call_statement(s, p, d) matches Err(e) ==> small(e),
{
    lemma_form_call_from(s, p.children, 0, forms::no_call(), d);
    match forms::call_from(s, p.children, 0, forms::no_call(), d) {
        Ok(_) => {
            lemma_form_parts(s, p, false, d);
        },
        _ => {},
    }
}

/// What [`forms::call_clause`] refuses is not refused for its size.
proof fn lemma_form_call_clause(s: Seq<char>, p: PairView, d: nat)
    ensures
        forms::call_clause(s, p, d) matches Err(e) ==> small(e),
{
    lemma_form_call_from(s, p.children, 0, forms::no_call(), d);
}

/// What [`forms::clause`] refuses is not refused for its size.
proof fn lemma_form_clause(s: Seq<char>, k: PairView, d: nat)
    ensures
        forms::clause(s, k, d) matches Err(e) ==> small(e),
{
    match k.rule {
        Rule::MultiCallClause => {
            lemma_form_call_clause(s, k, d);
        },
        Rule::UnwindClause => {
            lemma_unwind_clause(s, k, d);
        },
        Rule::WithClause => {
            lemma_with_clause(s, k, d);
        },
        _ => {
            lemma_form_parts(s, k, false, d);
        },
    }
}

/// What [`forms::multi_from`] refuses is not refused for its size.
proof fn lemma_form_multi_from(
    s: Seq<char>,
    kids: Seq<PairView>,
    i: int,
    cs: Seq<ClauseView>,
    acc: PartsView,
    d: nat,
)
    ensures
        forms::multi_from(s, kids, i, cs, acc, d) matches Err(e) ==> small(e),
    decreases kids.len() - i,
{
    if !(i < 0 || i >= kids.len()) {
        if forms::is_clause(kids[i].rule) {
            lemma_form_clause(s, kids[i], d);
            match forms::clause(s, kids[i], d) {
                Ok(c) => {
                    lemma_form_multi_from(s, kids, i + 1, forms::with_clause(cs, c), acc, d);
                },
                _ => {},
            }
        } else {
            lemma_tail_step(s, acc, kids[i], d);
            match meaning::tail_step(s, acc, kids[i], d) {
                Ok(next) => {
                    lemma_form_multi_from(s, kids, i + 1, cs, next, d);
                },
                _ => {},
            }
        }
    }
}

/// What [`forms::multi_statement`] refuses is not refused for its size.
proof fn lemma_form_multi_statement(s: Seq<char>, p: PairView, d: nat)
    ensures
        forms::multi_statement(s, p, d) matches Err(e) ==> small(e),
{
    lemma_form_multi_from(s, p.children, 0, Seq::empty(), meaning::no_parts(false), d);
}

/// What [`forms::query`] refuses is not refused for its size.
proof fn lemma_form_query(s: Seq<char>, p: PairView, first: bool, d: nat)
    ensures
        forms::query(s, p, first, d) matches Err(e) ==> small(e),
{
    lemma_form_parts(s, p, first, d);
    match forms::parts(s, p, first, d) {
        Ok(m) => {
            lemma_form_match_statement(m);
        },
        _ => {},
    }
}

/// What [`forms::part_statement`] refuses is not refused for its size.
proof fn lemma_form_part_statement(r: Rule, m: PartsView)
    ensures
        forms::part_statement(r, m) matches Err(e) ==> small(e),
{
    match r {
        Rule::CreateStmt => {},
        Rule::MatchCreateStmt => {},
        Rule::MatchMergeStmt => {
            lemma_form_match_merge_statement(m);
        },
        Rule::DeleteStmt => {},
        Rule::SetStmt => {},
        Rule::RemoveStmt => {},
        Rule::MergeStmt => {
            lemma_form_merge_statement(m);
        },
        Rule::ReturnStmt => {
            lemma_form_return_statement(m);
        },
        Rule::MatchStmt => {
            lemma_form_match_statement(m);
        },
        Rule::WithStmt => {
            lemma_form_match_statement(m);
        },
        _ => {},
    }
}

/// What [`forms::plain_statement`] refuses is not refused for its size.
proof fn lemma_form_plain_statement(s: Seq<char>, p: PairView, d: nat)
    ensures
        forms::plain_statement(s, p, d) matches Err(e) ==> small(e),
{
    match p.rule {
        Rule::MultiClauseStmt => {
            lemma_form_multi_statement(s, p, d);
        },
        Rule::UnwindStmt => {
            lemma_form_unwind_statement(s, p, d);
        },
        Rule::CallStmt => {
            lemma_form_call_statement(s, p, d);
        },
        r => {
            if forms::has_parts(r) {
                lemma_form_parts(s, p, r == Rule::MatchStmt, d);
                match forms::parts(s, p, r == Rule::MatchStmt, d) {
                    Ok(m) => {
                        lemma_form_part_statement(r, m);
                    },
                    _ => {},
                }
            }
        },
    }
}

/// What [`forms::explain`] refuses is not refused for its size.
proof fn lemma_form_explain(s: Seq<char>, p: PairView, d: nat)
    ensures
        forms::explain(s, p, d) matches Err(e) ==> small(e),
{
    if p.children.len() != 0 {
        if !(!forms::explainable(p.children[0].rule)) {
            lemma_form_plain_statement(s, p.children[0], d);
        }
    }
}

/// What [`forms::single`] refuses is not refused for its size.
proof fn lemma_form_single(s: Seq<char>, p: PairView, d: nat)
    ensures
        forms::single(s, p, d) matches Err(e) ==> small(e),
{
    if p.rule == Rule::ExplainStmt {
        lemma_form_explain(s, p, d);
    } else {
        lemma_form_plain_statement(s, p, d);
    }
}

/// What [`forms::union_from`] refuses is not refused for its size.
proof fn lemma_form_union_from(
    s: Seq<char>,
    kids: Seq<PairView>,
    i: int,
    acc: forms::UnionView,
    d: nat,
)
    ensures
        forms::union_from(s, kids, i, acc, d) matches Err(e) ==> small(e),
    decreases kids.len() - i,
{
    if !(i < 0 || i >= kids.len()) {
        if kids[i].rule == Rule::SingleStmt {
            if kids[i].children.len() != 0 {
                lemma_form_single(s, kids[i].children[0], d);
                match forms::single(s, kids[i].children[0], d) {
                    Ok(x) => {
                        lemma_form_union_from(
                            s,
                            kids,
                            i + 1,
                            forms::UnionView { statements: acc.statements.push(x), ..acc },
                            d,
                        );
                    },
                    _ => {},
                }
            }
        } else if kids[i].rule == Rule::UnionOp {
            if text::contains_word(source::text_of(s, kids[i]), "all"@) {
                lemma_form_union_from(s, kids, i + 1, forms::UnionView { has_all: true, ..acc }, d);
            } else {
                lemma_form_union_from(
                    s,
                    kids,
                    i + 1,
                    forms::UnionView { has_plain: true, ..acc },
                    d,
                );
            }
        } else {
            lemma_form_union_from(s, kids, i + 1, acc, d);
        }
    }
}

/// What [`forms::union`] refuses is not refused for its size.
proof fn lemma_form_union(s: Seq<char>, p: PairView, d: nat)
    ensures
        forms::union(s, p, d) matches Err(e) ==> small(e),
{
    let none = forms::UnionView { statements: Seq::empty(), has_all: false, has_plain: false };
    lemma_form_union_from(s, p.children, 0, none, d);
}

/// What [`literal::hop_bound`] refuses is not refused for its size.
proof fn lemma_text_hop_bound(s: Seq<char>)
    ensures
        literal::hop_bound(s) matches Err(e) ==> small(e),
{
}

/// What [`literal::unescape_one`] refuses is not refused for its size.
proof fn lemma_text_unescape_one(s: Seq<char>, i: int)
    ensures
        literal::unescape_one(s, i) matches Err(e) ==> small(e),
{
}

/// What [`literal::unescaped`] refuses is not refused for its size.
proof fn lemma_text_unescaped(s: Seq<char>, i: int)
    ensures
        literal::unescaped(s, i) matches Err(e) ==> small(e),
    decreases s.len() - i,
{
    if !(i < 0 || i >= s.len()) {
        lemma_text_unescape_one(s, i);
        match literal::unescape_one(s, i) {
            Ok((_, next)) => {
                if i < next {
                    lemma_text_unescaped(s, next);
                }
            },
            _ => {},
        }
    }
}

/// A text is refused as too long, by its length in bytes, where it has more bytes than a query text
/// may have, and only there: a text of just as many bytes is not.
pub proof fn only_long_texts_are_too_long(s: Seq<char>)
    ensures
        encode_utf8(s).len() > MAX_QUERY_BYTES <==> (super::parsed(s) matches Err(
            ErrorView::SizeLimit { what, .. },
        ) && what == "Cypher query"@),
        encode_utf8(s).len() > MAX_QUERY_BYTES ==> super::parsed(s) == Err::<
            StatementView,
            ErrorView,
        >(super::too_long(encode_utf8(s).len() as usize)),
{
    lemma_depth();
    match super::matched(s) {
        (Some((_, roots)), _) => {
            if roots.len() > 0 {
                let root = roots[0];
                let i = meaning::first_place(root.children, Rule::UnionStmt, 0);
                if 0 <= i < root.children.len() {
                    lemma_form_union(s, root.children[i], 0);
                }
            }
        },
        _ => {},
    }
}

} // verus!
