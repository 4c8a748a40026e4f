//! Subqueries, comprehensions and quantifiers have the parts that are written for them.
use super::meaning;
use super::meaning::{Level, PartsView, ScopeView};
use super::peg::PairView;
use super::rule::Rule;
use super::source;
use crate::ast::BinOp;
use crate::ast_model::{
    ExprKindView, ExprView, IntermediateClauseView, PatternView, StatementView,
};
use crate::types::ErrorView;
use vstd::prelude::*;

verus! {

/// The parts of a subquery are read in turn.
pub proof fn subqueries_are_read_in_turn(
    s: Seq<char>,
    kids: Seq<PairView>,
    i: int,
    acc: PartsView,
    k: PairView,
    d: nat,
)
    requires
        0 <= i <= kids.len(),
    ensures
        meaning::subquery_from(s, kids.push(k), i, acc, d) == (match meaning::subquery_from(
            s,
            kids,
            i,
            acc,
            d,
        ) {
            Err(e) => Err(e),
            Ok(x) => meaning::subquery_step(s, x, k, d),
        }),
    decreases kids.len() - i,
{
    let all = kids.push(k);
    if i == kids.len() {
        assert(all[i] == k);
        assert(forall|x: PartsView| meaning::subquery_from(s, all, i + 1, x, d) == Ok::<
            PartsView,
            ErrorView,
        >(x));
    } else {
        assert(all[i] == kids[i]);
        if let Ok(next) = meaning::subquery_step(s, acc, kids[i], d) {
            subqueries_are_read_in_turn(s, kids, i + 1, next, k, d);
        }
    }
}

/// The first patterns of a subquery are its own, later ones stand among the clauses between; a
/// clause that writes is refused.
pub proof fn a_subquery_part_reads_as_written(s: Seq<char>, acc: PartsView, k: PairView, d: nat)
    ensures
        k.rule == Rule::PatternList && meaning::pattern_list(s, k, d) is Ok ==> (
        meaning::subquery_step(s, acc, k, d) matches Ok(x) && !x.first && (if acc.first {
            x.patterns == meaning::pattern_list(s, k, d)->Ok_0 && x.intermediate == acc.intermediate
        } else {
            x.patterns == acc.patterns && x.intermediate.len() == acc.intermediate.len() + 1 && (
            x.intermediate.last() matches IntermediateClauseView::Match(im) && im.patterns
                == meaning::pattern_list(s, k, d)->Ok_0 && im.where_clause is None)
        })),
        k.rule == Rule::MultiSetClause || k.rule == Rule::MultiDeleteClause || k.rule
            == Rule::MultiRemoveClause || k.rule == Rule::MultiCreateClause || k.rule
            == Rule::MultiMergeClause ==> meaning::subquery_step(s, acc, k, d) is Err,
{
}

/// A condition of a subquery belongs to the MATCH that it stands behind.
pub proof fn a_condition_goes_with_its_match(acc: PartsView, w: ExprView)
    ensures
        ({
            let x = meaning::with_condition(acc, w);
            let n = acc.intermediate.len();
            &&& x.patterns == acc.patterns
            &&& x.intermediate.len() == n
            &&& n == 0 ==> x.where_clause == Some(w)
            &&& n > 0 && (acc.intermediate[n - 1] matches IntermediateClauseView::Match(im)
                && im.where_clause is None) ==> (x.where_clause == acc.where_clause && (
            x.intermediate[n - 1] matches IntermediateClauseView::Match(im) && im.where_clause
                == Some(w)))
        }),
{
}

/// The statement of a subquery has the parts that were read for it.
pub proof fn a_subquery_has_its_parts(m: PartsView)
    ensures
        meaning::subquery_statement(m) matches StatementView::Match(x) && x.patterns == m.patterns
            && x.where_clause == m.where_clause && x.intermediate_clauses == m.intermediate
            && x.order_by == m.order_by && x.skip == m.skip && x.limit == m.limit && (
        m.return_clause matches Some(r) ==> x.return_clause == r),
{
}

/// `EXISTS { patterns WHERE condition }` has its patterns and its condition.
pub proof fn exists_reads_as_written(s: Seq<char>, p: PairView, d: nat)
    requires
        1 <= p.children.len() <= 2,
        p.children[0].rule == Rule::PatternList,
        p.children.len() == 2 ==> p.children[1].rule == Rule::WhereClause,
        meaning::exists_subquery(s, p, d) is Ok,
    ensures
        meaning::exists_subquery(s, p, d)->Ok_0.kind matches ExprKindView::Exists {
            patterns,
            where_clause,
        } && meaning::pattern_list(s, p.children[0], d) == Ok::<Seq<PatternView>, ErrorView>(
            patterns,
        ) && (p.children.len() == 1 ==> where_clause is None) && (p.children.len() == 2
            ==> where_clause is Some && meaning::where_clause(s, p.children[1], d) == Ok::<
            ExprView,
            ErrorView,
        >(*where_clause->0)),
{
    let kids = p.children;
    let ps = meaning::pattern_list(s, kids[0], d)->Ok_0;
    assert(meaning::exists_from(s, kids, 0, Seq::empty(), None, d) == meaning::exists_from(
        s,
        kids,
        1,
        ps,
        None,
        d,
    ));
    if kids.len() == 2 {
        let w = meaning::where_clause(s, kids[1], d)->Ok_0;
        assert(meaning::exists_from(s, kids, 1, ps, None, d) == meaning::exists_from(
            s,
            kids,
            2,
            ps,
            Some(Box::new(w)),
            d,
        ));
    }
}

/// `left IN right` means that the left is in the right.
pub proof fn in_reads_as_written(s: Seq<char>, p: PairView, d: nat)
    requires
        p.children.len() == 2,
        meaning::in_expr(s, p, d) is Ok,
    ensures
        meaning::in_expr(s, p, d)->Ok_0.kind matches ExprKindView::BinaryOp { left, op, right } && op
            == BinOp::In && meaning::chain(Level::Add, s, p.children[0], d) == Ok::<
            ExprView,
            ErrorView,
        >(*left) && meaning::chain(Level::Add, s, p.children[1], d) == Ok::<ExprView, ErrorView>(
            *right,
        ),
{
}

/// The parts of a pattern comprehension are read in turn.
pub proof fn pattern_scopes_are_read_in_turn(
    s: Seq<char>,
    kids: Seq<PairView>,
    i: int,
    acc: ScopeView,
    k: PairView,
    d: nat,
)
    requires
        0 <= i <= kids.len(),
    ensures
        meaning::pattern_scope_from(s, kids.push(k), i, acc, d) == (match meaning::pattern_scope_from(
            s,
            kids,
            i,
            acc,
            d,
        ) {
            Err(e) => Err(e),
            Ok(x) => match k.rule {
                Rule::Ident => Ok(ScopeView { variable: Some(meaning::name(s, k)), ..x }),
                Rule::Pattern => match meaning::pattern(s, k, d) {
                    Err(e) => Err(e),
                    Ok(y) => Ok(ScopeView { pattern: Some(y), ..x }),
                },
                Rule::BoolExpr => match meaning::bool_expr(s, k, d) {
                    Err(e) => Err(e),
                    Ok(y) => Ok(ScopeView { filter: Some(Box::new(y)), ..x }),
                },
                Rule::Expr => match meaning::expr(s, k, d) {
                    Err(e) => Err(e),
                    Ok(y) => Ok(ScopeView { map: Some(Box::new(y)), ..x }),
                },
                _ => Ok(x),
            },
        }),
    decreases kids.len() - i,
{
    let all = kids.push(k);
    if i == kids.len() {
        assert(all[i] == k);
        assert(forall|x: ScopeView| meaning::pattern_scope_from(s, all, i + 1, x, d) == Ok::<
            ScopeView,
            ErrorView,
        >(x));
    } else {
        assert(all[i] == kids[i]);
        if let Ok(next) = meaning::pattern_scope_step(s, acc, kids[i], d) {
            pattern_scopes_are_read_in_turn(s, kids, i + 1, next, k, d);
        }
    }
}

/// Comprehensions and quantifiers have the parts that were read for them.
pub proof fn scopes_have_their_parts(s: Seq<char>, p: PairView, d: nat)
    ensures
        meaning::list_comprehension(s, p, d) matches Ok(e) ==> ({
            let c = meaning::scope_from(s, p.children, 0, meaning::no_scope(), d);
            c is Ok && (e.kind matches ExprKindView::ListComprehension {
                variable,
                list_expr,
                filter,
                map_expr,
            } && c->Ok_0.variable == Some(variable) && c->Ok_0.list == Some(list_expr) && filter
                == c->Ok_0.filter && map_expr == c->Ok_0.map)
        }),
        meaning::quantifier(s, p, d) matches Ok(e) ==> ({
            let c = meaning::scope_from(s, p.children, 0, meaning::no_scope(), d);
            c is Ok && (e.kind matches ExprKindView::Quantifier {
                kind,
                variable,
                list_expr,
                predicate,
            } && c->Ok_0.kind == Some(kind) && c->Ok_0.variable == Some(variable) && c->Ok_0.list
                == Some(list_expr) && c->Ok_0.filter == Some(predicate))
        }),
        meaning::pattern_comprehension(s, p, d) matches Ok(e) ==> ({
            let c = meaning::pattern_scope_from(s, p.children, 0, meaning::no_scope(), d);
            c is Ok && (e.kind matches ExprKindView::PatternComprehension {
                path_variable,
                pattern,
                where_clause,
                map_expr,
            } && path_variable == c->Ok_0.variable && c->Ok_0.pattern == Some(pattern)
                && where_clause == c->Ok_0.filter && c->Ok_0.map == Some(map_expr))
        }),
        meaning::no_scope().kind is None,
        meaning::no_scope().variable is None,
        meaning::no_scope().filter is None,
        meaning::no_scope().map is None,
        meaning::no_scope().list is None,
{
}

/// A label test names its variable and each of its labels, in their order.
pub proof fn a_label_test_reads_as_written(s: Seq<char>, p: PairView, d: nat)
    requires
        p.rule == Rule::HasLabelExpr,
        p.children.len() >= 2,
    ensures
        meaning::atom(s, p, d) matches Ok(e) && e.kind matches ExprKindView::HasLabel(var, labels)
            && var == source::text_of(s, p.children[0]) && labels.len()
            == p.children[1].children.len() && forall|i: int|
            0 <= i < labels.len() ==> #[trigger] labels[i] == source::text_of(
                s,
                p.children[1].children[i],
            ),
{
}

/// Accesses behind a value are read from the left: with one more at the end it is the access to
/// what was meant before.
pub proof fn accesses_go_from_the_left(
    s: Seq<char>,
    kids: Seq<PairView>,
    i: int,
    base: ExprView,
    k: PairView,
    d: nat,
)
    requires
        0 <= i <= kids.len(),
        k.rule == Rule::DotAccess,
        k.children.len() > 0,
        meaning::postfix_from(s, kids, i, base, d) is Ok,
    ensures
        meaning::postfix_from(s, kids.push(k), i, base, d) matches Ok(e)
            && e.kind matches ExprKindView::DotAccess { expr, key } && *expr
            == meaning::postfix_from(s, kids, i, base, d)->Ok_0 && key == meaning::name(
            s,
            k.children[0],
        ),
    decreases kids.len() - i,
{
    let all = kids.push(k);
    if i == kids.len() {
        assert(all[i] == k);
        assert(meaning::postfix_from(s, all, i + 1, meaning::dotted(s, base, k), d) == Ok::<
            ExprView,
            ErrorView,
        >(meaning::dotted(s, base, k)));
    } else {
        assert(all[i] == kids[i]);
        if kids[i].rule == Rule::Subscript {
            let x = meaning::subscript(s, base, kids[i], d)->Ok_0;
            accesses_go_from_the_left(s, kids, i + 1, x, k, d);
        } else if kids[i].rule == Rule::DotAccess {
            accesses_go_from_the_left(s, kids, i + 1, meaning::dotted(s, base, kids[i]), k, d);
        } else {
            accesses_go_from_the_left(s, kids, i + 1, base, k, d);
        }
    }
}

} // verus!
