//! What statements and their clauses are made of: each part that is written stands where it
//! belongs, and no other is changed by it.
use super::forms;
use super::forms::{CallView, UnionView};
use super::list_laws;
use super::meaning;
use super::meaning::PartsView;
use super::peg::PairView;
use super::reading_laws;
use super::reading_laws::of_rule;
use super::rule::Rule;
use super::source;
use crate::ast_model::{
    ClauseView, ExprView, IntermediateClauseView, PatternView, RemoveItemView, SetItemView,
    StatementView,
};
use crate::text;
use crate::types::ErrorView;
use vstd::prelude::*;

verus! {

/// The items of a SET clause that are read are those that are written, each once and in their order,
/// behind what was read before.
pub proof fn each_set_item_is_read(
    s: Seq<char>,
    kids: Seq<PairView>,
    i: int,
    acc: Seq<SetItemView>,
    d: nat,
)
    requires
        0 <= i <= kids.len(),
        forms::set_items_from(s, kids, i, acc, d) is Ok,
    ensures
        ({
            let fit = kids.skip(i).filter(of_rule(Rule::SetItem));
            let out = forms::set_items_from(s, kids, i, acc, d)->Ok_0;
            &&& out.len() == acc.len() + fit.len()
            &&& forall|j: int| 0 <= j < acc.len() ==> #[trigger] out[j] == acc[j]
            &&& forall|j: int|
                acc.len() <= j < out.len() ==> forms::set_item(s, fit[j - acc.len()], d) == Ok::<
                    SetItemView,
                    ErrorView,
                >(#[trigger] out[j])
        }),
    decreases kids.len() - i,
{
    let p = of_rule(Rule::SetItem);
    let fit = kids.skip(i).filter(p);
    if i < kids.len() {
        list_laws::lemma_next_of_rule(kids, i, p);
        let rest = kids.skip(i + 1).filter(p);
        if kids[i].rule == Rule::SetItem {
            let x = forms::set_item(s, kids[i], d)->Ok_0;
            let more = acc.push(x);
            each_set_item_is_read(s, kids, i + 1, more, d);
            let out = forms::set_items_from(s, kids, i, acc, d)->Ok_0;
            assert(fit[0] == kids[i]);
            assert forall|j: int| 0 <= j < acc.len() implies #[trigger] out[j] == acc[j] by {
                assert(out[j] == more[j]);
            }
            assert forall|j: int| acc.len() <= j < out.len() implies forms::set_item(s, fit[j - acc.len()], d) == Ok::<
                SetItemView,
                ErrorView,
            >(#[trigger] out[j]) by {
                if j > acc.len() {
                    assert(fit[j - acc.len()] == rest[j - more.len()]);
                } else {
                    assert(out[j] == more[j]);
                }
            }
        } else {
            each_set_item_is_read(s, kids, i + 1, acc, d);
        }
    } else {
        assert(kids.skip(i) =~= Seq::<PairView>::empty());
        assert(fit =~= Seq::<PairView>::empty()) by {
            reveal(Seq::filter);
        }
    }
}

/// The items of a REMOVE clause that are read are those that are written, each once and in their order,
/// behind what was read before.
pub proof fn each_remove_item_is_read(
    s: Seq<char>,
    kids: Seq<PairView>,
    i: int,
    acc: Seq<RemoveItemView>,
)
    requires
        0 <= i <= kids.len(),
        forms::remove_items_from(s, kids, i, acc) is Ok,
    ensures
        ({
            let fit = kids.skip(i).filter(of_rule(Rule::RemoveItem));
            let out = forms::remove_items_from(s, kids, i, acc)->Ok_0;
            &&& out.len() == acc.len() + fit.len()
            &&& forall|j: int| 0 <= j < acc.len() ==> #[trigger] out[j] == acc[j]
            &&& forall|j: int|
                acc.len() <= j < out.len() ==> forms::remove_item(s, fit[j - acc.len()]) == Ok::<
                    RemoveItemView,
                    ErrorView,
                >(#[trigger] out[j])
        }),
    decreases kids.len() - i,
{
    let p = of_rule(Rule::RemoveItem);
    let fit = kids.skip(i).filter(p);
    if i < kids.len() {
        list_laws::lemma_next_of_rule(kids, i, p);
        let rest = kids.skip(i + 1).filter(p);
        if kids[i].rule == Rule::RemoveItem {
            let x = forms::remove_item(s, kids[i])->Ok_0;
            let more = acc.push(x);
            each_remove_item_is_read(s, kids, i + 1, more);
            let out = forms::remove_items_from(s, kids, i, acc)->Ok_0;
            assert(fit[0] == kids[i]);
            assert forall|j: int| 0 <= j < acc.len() implies #[trigger] out[j] == acc[j] by {
                assert(out[j] == more[j]);
            }
            assert forall|j: int| acc.len() <= j < out.len() implies forms::remove_item(s, fit[j - acc.len()]) == Ok::<
                RemoveItemView,
                ErrorView,
            >(#[trigger] out[j]) by {
                if j > acc.len() {
                    assert(fit[j - acc.len()] == rest[j - more.len()]);
                } else {
                    assert(out[j] == more[j]);
                }
            }
        } else {
            each_remove_item_is_read(s, kids, i + 1, acc);
        }
    } else {
        assert(kids.skip(i) =~= Seq::<PairView>::empty());
        assert(fit =~= Seq::<PairView>::empty()) by {
            reveal(Seq::filter);
        }
    }
}

/// The patterns of a CREATE clause that are read are those that are written, each once and in their order,
/// behind what was read before.
pub proof fn each_created_pattern_is_read(
    s: Seq<char>,
    kids: Seq<PairView>,
    i: int,
    acc: Seq<PatternView>,
    d: nat,
)
    requires
        0 <= i <= kids.len(),
        forms::creates_from(s, kids, i, acc, d) is Ok,
    ensures
        ({
            let fit = kids.skip(i).filter(of_rule(Rule::CreatePattern));
            let out = forms::creates_from(s, kids, i, acc, d)->Ok_0;
            &&& out.len() == acc.len() + fit.len()
            &&& forall|j: int| 0 <= j < acc.len() ==> #[trigger] out[j] == acc[j]
            &&& forall|j: int|
                acc.len() <= j < out.len() ==> meaning::pattern(s, fit[j - acc.len()], d) == Ok::<
                    PatternView,
                    ErrorView,
                >(#[trigger] out[j])
        }),
    decreases kids.len() - i,
{
    let p = of_rule(Rule::CreatePattern);
    let fit = kids.skip(i).filter(p);
    if i < kids.len() {
        list_laws::lemma_next_of_rule(kids, i, p);
        let rest = kids.skip(i + 1).filter(p);
        if kids[i].rule == Rule::CreatePattern {
            let x = meaning::pattern(s, kids[i], d)->Ok_0;
            let more = acc.push(x);
            each_created_pattern_is_read(s, kids, i + 1, more, d);
            let out = forms::creates_from(s, kids, i, acc, d)->Ok_0;
            assert(fit[0] == kids[i]);
            assert forall|j: int| 0 <= j < acc.len() implies #[trigger] out[j] == acc[j] by {
                assert(out[j] == more[j]);
            }
            assert forall|j: int| acc.len() <= j < out.len() implies meaning::pattern(s, fit[j - acc.len()], d) == Ok::<
                PatternView,
                ErrorView,
            >(#[trigger] out[j]) by {
                if j > acc.len() {
                    assert(fit[j - acc.len()] == rest[j - more.len()]);
                } else {
                    assert(out[j] == more[j]);
                }
            }
        } else {
            each_created_pattern_is_read(s, kids, i + 1, acc, d);
        }
    } else {
        assert(kids.skip(i) =~= Seq::<PairView>::empty());
        assert(fit =~= Seq::<PairView>::empty()) by {
            reveal(Seq::filter);
        }
    }
}

/// The parts of a statement are read in turn: with one more at the end it has what it had before
/// and what that part gives.
pub proof fn parts_are_read_in_turn(
    s: Seq<char>,
    kids: Seq<PairView>,
    i: int,
    acc: PartsView,
    k: PairView,
    d: nat,
)
    requires
        0 <= i <= kids.len(),
    ensures
        forms::parts_from(s, kids.push(k), i, acc, d) == (match forms::parts_from(
            s,
            kids,
            i,
            acc,
            d,
        ) {
            Err(e) => Err(e),
            Ok(x) => forms::part_step(s, x, k, d),
        }),
    decreases kids.len() - i,
{
    let all = kids.push(k);
    if i == kids.len() {
        assert(all[i] == k);
        assert(forall|x: PartsView| forms::parts_from(s, all, i + 1, x, d) == Ok::<
            PartsView,
            ErrorView,
        >(x));
    } else {
        assert(all[i] == kids[i]);
        if let Ok(next) = forms::part_step(s, acc, kids[i], d) {
            parts_are_read_in_turn(s, kids, i + 1, next, k, d);
        }
    }
}

/// What RETURN, ORDER BY, SKIP, LIMIT, WITH and UNWIND give stands where it belongs.
pub proof fn a_tail_part_reads_as_written(s: Seq<char>, acc: PartsView, k: PairView, d: nat)
    requires
        meaning::tail_step(s, acc, k, d) is Ok,
    ensures
        ({
            let x = meaning::tail_step(s, acc, k, d)->Ok_0;
            &&& x.return_clause == (if k.rule == Rule::ReturnClause {
                Some(meaning::return_clause(s, k, d)->Ok_0)
            } else {
                acc.return_clause
            })
            &&& x.order_by == (if k.rule == Rule::OrderByClause {
                meaning::order_by(s, k, d)->Ok_0
            } else {
                acc.order_by
            })
            &&& x.skip == (if k.rule == Rule::SkipClause {
                Some(meaning::expr_under(s, k.children, Rule::Expr, d)->Ok_0)
            } else {
                acc.skip
            })
            &&& x.limit == (if k.rule == Rule::LimitClause {
                Some(meaning::expr_under(s, k.children, Rule::Expr, d)->Ok_0)
            } else {
                acc.limit
            })
            &&& x.intermediate == (if k.rule == Rule::WithClause {
                acc.intermediate.push(
                    IntermediateClauseView::With(meaning::with_clause(s, k, d)->Ok_0),
                )
            } else if k.rule == Rule::UnwindClause {
                acc.intermediate.push(
                    IntermediateClauseView::Unwind(meaning::unwind_clause(s, k, d)->Ok_0),
                )
            } else {
                acc.intermediate
            })
            &&& x.patterns == acc.patterns
            &&& x.optional_patterns == acc.optional_patterns
            &&& x.where_clause == acc.where_clause
            &&& x.create_patterns == acc.create_patterns
            &&& x.merge_pattern == acc.merge_pattern
            &&& x.on_create == acc.on_create
            &&& x.on_match == acc.on_match
            &&& x.items == acc.items
            &&& x.removals == acc.removals
            &&& x.detach == acc.detach
            &&& x.exprs == acc.exprs
        }),
{
}

/// What the parts of writing clauses give stands where it belongs.
pub proof fn a_writing_part_reads_as_written(s: Seq<char>, acc: PartsView, k: PairView, d: nat)
    requires
        forms::part_step(s, acc, k, d) is Ok,
    ensures
        ({
            let x = forms::part_step(s, acc, k, d)->Ok_0;
            &&& x.detach == (acc.detach || k.rule == Rule::DetachKeyword)
            &&& x.merge_pattern == (if k.rule == Rule::PatternItem {
                Some(meaning::pattern_item(s, k, d)->Ok_0)
            } else {
                acc.merge_pattern
            })
            &&& x.on_create == (if k.rule == Rule::OnCreateClause {
                forms::assignments_under(s, k.children, d)->Ok_0
            } else {
                acc.on_create
            })
            &&& x.on_match == (if k.rule == Rule::OnMatchClause {
                forms::assignments_under(s, k.children, d)->Ok_0
            } else {
                acc.on_match
            })
            &&& x.items == (if k.rule == Rule::AssignmentList {
                forms::set_items_from(s, k.children, 0, Seq::empty(), d)->Ok_0
            } else {
                acc.items
            })
            &&& x.removals == (if k.rule == Rule::RemoveItemList {
                forms::remove_items_from(s, k.children, 0, acc.removals)->Ok_0
            } else {
                acc.removals
            })
            &&& x.exprs == (if k.rule == Rule::DeleteExprList {
                meaning::exprs_from(s, k.children, 0, acc.exprs, d)->Ok_0
            } else {
                acc.exprs
            })
            &&& x.create_patterns == (if k.rule == Rule::CreatePatternList {
                forms::creates_from(s, k.children, 0, acc.create_patterns, d)->Ok_0
            } else {
                acc.create_patterns
            })
        }),
{
    if meaning::tail_step(s, acc, k, d) is Ok {
        a_tail_part_reads_as_written(s, acc, k, d);
    }
}

/// What the parts of MATCH give stands where it belongs, before the items of a SET are read.
pub proof fn a_match_part_reads_as_written(s: Seq<char>, acc: PartsView, k: PairView, d: nat)
    requires
        !acc.closed,
        k.rule != Rule::MatchPart,
        forms::part_step(s, acc, k, d) is Ok,
    ensures
        ({
            let x = forms::part_step(s, acc, k, d)->Ok_0;
            &&& x.patterns == (if k.rule == Rule::PatternList {
                meaning::pattern_list(s, k, d)->Ok_0
            } else {
                acc.patterns
            })
            &&& x.where_clause == (if k.rule == Rule::WhereClause {
                Some(meaning::where_clause(s, k, d)->Ok_0)
            } else {
                acc.where_clause
            })
            &&& k.rule == Rule::OptionalMatchClause ==> ({
                let m = forms::parts_from(s, k.children, 0, meaning::no_parts(false), d);
                m is Ok && x.optional_patterns.len() == acc.optional_patterns.len() + 1
                    && x.optional_patterns.drop_last() == acc.optional_patterns
                    && x.optional_patterns.last().patterns == m->Ok_0.patterns
                    && x.optional_patterns.last().where_clause == m->Ok_0.where_clause
            })
            &&& k.rule != Rule::OptionalMatchClause ==> x.optional_patterns
                == acc.optional_patterns
        }),
{
    if meaning::tail_step(s, acc, k, d) is Ok {
        a_tail_part_reads_as_written(s, acc, k, d);
    }
    if k.rule == Rule::OptionalMatchClause {
        let x = forms::part_step(s, acc, k, d)->Ok_0;
        assert(x.optional_patterns.drop_last() =~= acc.optional_patterns);
    }
}

/// A first MATCH is the statement's own; a later one stands among the clauses between, with its
/// own patterns and its own condition.
pub proof fn a_match_stands_where_written(s: Seq<char>, acc: PartsView, k: PairView, d: nat)
    requires
        k.rule == Rule::MatchPart,
        forms::part_step(s, acc, k, d) is Ok,
    ensures
        ({
            let x = forms::part_step(s, acc, k, d)->Ok_0;
            let m = forms::parts_from(s, k.children, 0, meaning::no_parts(false), d);
            &&& m is Ok
            &&& !x.first
            &&& acc.first ==> x.patterns == m->Ok_0.patterns && x.optional_patterns
                == m->Ok_0.optional_patterns && x.where_clause == m->Ok_0.where_clause
                && x.intermediate == acc.intermediate
            &&& !acc.first ==> x.patterns == acc.patterns && x.optional_patterns
                == acc.optional_patterns && x.where_clause == acc.where_clause
                && x.intermediate.len() == acc.intermediate.len() + 1
                && x.intermediate.drop_last() == acc.intermediate && (
            x.intermediate.last() matches IntermediateClauseView::Match(im) && im.patterns
                == m->Ok_0.patterns && im.optional_patterns == m->Ok_0.optional_patterns
                && im.where_clause == m->Ok_0.where_clause)
        }),
{
    let x = forms::part_step(s, acc, k, d)->Ok_0;
    if !acc.first {
        assert(x.intermediate.drop_last() =~= acc.intermediate);
    }
}

/// A statement has the parts that were read for it, each in its place.
pub proof fn a_statement_has_its_parts(r: Rule, m: PartsView)
    requires
        forms::part_statement(r, m) is Ok,
    ensures
        match forms::part_statement(r, m)->Ok_0 {
            StatementView::Match(x) => (r == Rule::MatchStmt || r == Rule::WithStmt) && x.patterns
                == m.patterns && x.optional_patterns == m.optional_patterns && x.where_clause
                == m.where_clause && x.intermediate_clauses == m.intermediate && m.return_clause
                == Some(x.return_clause) && x.order_by == m.order_by && x.skip == m.skip && x.limit
                == m.limit,
            StatementView::Return(x) => r == Rule::ReturnStmt && m.return_clause == Some(
                x.return_clause,
            ) && x.order_by == m.order_by && x.skip == m.skip && x.limit == m.limit,
            StatementView::Create(x) => r == Rule::CreateStmt && x.patterns == m.create_patterns
                && x.return_clause == m.return_clause && x.order_by == m.order_by && x.skip
                == m.skip && x.limit == m.limit,
            StatementView::MatchCreate(x) => r == Rule::MatchCreateStmt && x.patterns == m.patterns
                && x.where_clause == m.where_clause && x.create_patterns == m.create_patterns
                && x.return_clause == m.return_clause && x.order_by == m.order_by && x.skip
                == m.skip && x.limit == m.limit,
            StatementView::MatchMerge(x) => r == Rule::MatchMergeStmt && x.patterns == m.patterns
                && x.where_clause == m.where_clause && m.merge_pattern == Some(x.merge_pattern)
                && x.on_create == m.on_create && x.on_match == m.on_match && x.return_clause
                == m.return_clause && x.order_by == m.order_by && x.skip == m.skip && x.limit
                == m.limit,
            StatementView::Merge(x) => r == Rule::MergeStmt && m.merge_pattern == Some(x.pattern)
                && x.on_create == m.on_create && x.on_match == m.on_match && x.return_clause
                == m.return_clause && x.order_by == m.order_by && x.skip == m.skip && x.limit
                == m.limit,
            StatementView::Delete(x) => r == Rule::DeleteStmt && x.patterns == m.patterns
                && x.optional_patterns == m.optional_patterns && x.where_clause == m.where_clause
                && x.detach == m.detach && x.exprs == m.exprs && x.return_clause == m.return_clause
                && x.order_by == m.order_by && x.skip == m.skip && x.limit == m.limit,
            StatementView::SetProps(x) => r == Rule::SetStmt && x.patterns == m.patterns
                && x.optional_patterns == m.optional_patterns && x.where_clause == m.where_clause
                && x.items == m.items && x.intermediate_clauses == m.intermediate
                && x.return_clause == m.return_clause && x.order_by == m.order_by && x.skip
                == m.skip && x.limit == m.limit,
            StatementView::Remove(x) => r == Rule::RemoveStmt && x.patterns == m.patterns
                && x.optional_patterns == m.optional_patterns && x.where_clause == m.where_clause
                && x.items == m.removals && x.return_clause == m.return_clause && x.order_by
                == m.order_by && x.skip == m.skip && x.limit == m.limit,
            _ => false,
        },
{
}

/// A clause of a longer statement has the parts that were read for it.
pub proof fn a_clause_has_its_parts(r: Rule, m: PartsView)
    ensures
        r == Rule::MultiMatchClause ==> forms::part_clause(r, m) == Some(
            ClauseView::Match {
                patterns: m.patterns,
                optional_patterns: m.optional_patterns,
                where_clause: m.where_clause,
            },
        ),
        r == Rule::MultiCreateClause ==> forms::part_clause(r, m) == Some(
            ClauseView::Create { patterns: m.create_patterns },
        ),
        r == Rule::MultiMergeClause && m.merge_pattern is Some ==> forms::part_clause(r, m) == Some(
            ClauseView::Merge {
                pattern: m.merge_pattern->0,
                on_create: m.on_create,
                on_match: m.on_match,
            },
        ),
        r == Rule::MultiSetClause ==> forms::part_clause(r, m) == Some(
            ClauseView::SetItems { items: m.items },
        ),
        r == Rule::MultiRemoveClause ==> forms::part_clause(r, m) == Some(
            ClauseView::Remove { items: m.removals },
        ),
        r == Rule::MultiDeleteClause ==> forms::part_clause(r, m) == Some(
            ClauseView::Delete { exprs: m.exprs, detach: m.detach },
        ),
{
}

/// The clauses of a longer statement stand in the order in which they are written: with one more
/// at the end it has that one more.
pub proof fn clauses_stand_in_order(
    s: Seq<char>,
    kids: Seq<PairView>,
    i: int,
    cs: Seq<ClauseView>,
    acc: PartsView,
    k: PairView,
    d: nat,
)
    requires
        0 <= i <= kids.len(),
    ensures
        forms::multi_from(s, kids.push(k), i, cs, acc, d) == (match forms::multi_from(
            s,
            kids,
            i,
            cs,
            acc,
            d,
        ) {
            Err(e) => Err(e),
            Ok((before, x)) => if forms::is_clause(k.rule) {
                match forms::clause(s, k, d) {
                    Err(e) => Err(e),
                    Ok(None) => Ok((before, x)),
                    Ok(Some(c)) => Ok((before.push(c), x)),
                }
            } else {
                match meaning::tail_step(s, x, k, d) {
                    Err(e) => Err(e),
                    Ok(y) => Ok((before, y)),
                }
            },
        }),
    decreases kids.len() - i,
{
    let all = kids.push(k);
    if i == kids.len() {
        assert(all[i] == k);
        assert(forall|c: Seq<ClauseView>, x: PartsView|
            forms::multi_from(s, all, i + 1, c, x, d) == Ok::<
                (Seq<ClauseView>, PartsView),
                ErrorView,
            >((c, x)));
    } else {
        assert(all[i] == kids[i]);
        if forms::is_clause(kids[i].rule) {
            if let Ok(c) = forms::clause(s, kids[i], d) {
                clauses_stand_in_order(
                    s,
                    kids,
                    i + 1,
                    forms::with_clause(cs, c),
                    acc,
                    k,
                    d,
                );
            }
        } else {
            if let Ok(next) = meaning::tail_step(s, acc, kids[i], d) {
                clauses_stand_in_order(s, kids, i + 1, cs, next, k, d);
            }
        }
    }
}

/// An assignment sets the property that stands before `=` to the expression behind it.
pub proof fn an_assignment_reads_as_written(s: Seq<char>, kids: Seq<PairView>, d: nat)
    requires
        kids.len() >= 2,
        kids[0].rule == Rule::PropertyAccess,
        kids[0].children.len() >= 2,
        meaning::expr(s, kids[1], d) is Ok,
    ensures
        forms::assignment(s, kids, d) matches Ok(a) && a.variable == source::text_of(
            s,
            kids[0].children[0],
        ) && a.property == source::text_of(s, kids[0].children[1]) && a.value == meaning::expr(
            s,
            kids[1],
            d,
        )->Ok_0,
{
}

/// An item of SET is what is written: labels, a map that is laid over or that replaces, or an
/// assignment.
pub proof fn a_set_item_reads_as_written(s: Seq<char>, p: PairView, d: nat)
    requires
        p.children.len() > 0,
        forms::set_item(s, p, d) is Ok,
    ensures
        ({
            let x = forms::set_item(s, p, d)->Ok_0;
            let k = p.children[0];
            &&& k.rule == Rule::SetMapMerge ==> (x matches SetItemView::MapMerge { variable, value }
                && variable == forms::variable_of(s, k.children) && meaning::expr_under(
                s,
                k.children,
                Rule::Expr,
                d,
            ) == Ok::<ExprView, ErrorView>(value))
            &&& k.rule == Rule::SetMap ==> (x matches SetItemView::MapOverwrite { variable, value }
                && variable == forms::variable_of(s, k.children) && meaning::expr_under(
                s,
                k.children,
                Rule::Expr,
                d,
            ) == Ok::<ExprView, ErrorView>(value))
            &&& k.rule == Rule::SetLabel ==> (x matches SetItemView::Label { variable, labels }
                && variable == forms::variable_of(s, k.children) && labels == forms::labels_of(
                s,
                k.children,
                k.children.len() as int,
            ))
            &&& k.rule == Rule::Assignment ==> (x matches SetItemView::Property(a)
                && forms::assignment(s, k.children, d) == Ok::<
                crate::ast_model::AssignmentView,
                ErrorView,
            >(a))
        }),
{
}

/// The variable and the labels of `variable:Label` are those that are written.
pub proof fn labels_read_as_written(s: Seq<char>, kids: Seq<PairView>)
    requires
        kids.len() == 2,
        kids[0].rule == Rule::Ident,
        kids[1].rule == Rule::LabelSpec,
    ensures
        forms::variable_of(s, kids) == meaning::name(s, kids[0]),
        forms::labels_of(s, kids, 2) == kids[1].children.map_values(
            |l: PairView| source::text_of(s, l),
        ),
{
    reading_laws::the_last_of_a_rule_is_last(kids, Rule::Ident, 2);
    reveal_with_fuel(forms::labels_of, 4);
    assert(forms::labels_of(s, kids, 1) =~= Seq::<Seq<char>>::empty());
    assert(forms::labels_of(s, kids, 2) =~= kids[1].children.map_values(
        |l: PairView| source::text_of(s, l),
    ));
}

/// An item of REMOVE is what is written: a property of a variable, or labels of one.
pub proof fn a_remove_item_reads_as_written(s: Seq<char>, p: PairView)
    requires
        p.children.len() > 0,
        forms::remove_item(s, p) is Ok,
    ensures
        ({
            let x = forms::remove_item(s, p)->Ok_0;
            let k = p.children[0];
            &&& k.rule == Rule::RemoveProperty ==> k.children.len() > 0
                && k.children[0].children.len() >= 2 && (x matches RemoveItemView::Property {
                variable,
                property,
            } && variable == source::text_of(s, k.children[0].children[0]) && property
                == source::text_of(s, k.children[0].children[1]))
            &&& k.rule == Rule::RemoveLabel ==> (x matches RemoveItemView::Label {
                variable,
                labels,
            } && variable == forms::variable_of(s, k.children) && labels == forms::labels_of(
                s,
                k.children,
                k.children.len() as int,
            ))
        }),
{
}

/// A CALL with one more part at its end: the name of the procedure, one more argument, or what it
/// yields.
pub proof fn a_call_clause_grows(
    s: Seq<char>,
    kids: Seq<PairView>,
    i: int,
    acc: CallView,
    k: PairView,
    d: nat,
)
    requires
        0 <= i <= kids.len(),
    ensures
        forms::call_from(s, kids.push(k), i, acc, d) == (match forms::call_from(
            s,
            kids,
            i,
            acc,
            d,
        ) {
            Err(e) => Err(e),
            Ok(x) => match k.rule {
                Rule::ProcedureName => Ok(
                    CallView { procedure_name: source::text_of(s, k), ..x },
                ),
                Rule::Expr => match meaning::expr(s, k, d) {
                    Err(e) => Err(e),
                    Ok(y) => Ok(CallView { args: x.args.push(y), ..x }),
                },
                Rule::YieldClause => Ok(
                    CallView {
                        yield_items: forms::yield_items(s, k.children),
                        yield_star: forms::yield_star(k.children),
                        ..x
                    },
                ),
                _ => Ok(x),
            },
        }),
    decreases kids.len() - i,
{
    let all = kids.push(k);
    if i == kids.len() {
        assert(all[i] == k);
        assert(forall|x: CallView| forms::call_from(s, all, i + 1, x, d) == Ok::<
            CallView,
            ErrorView,
        >(x));
    } else {
        assert(all[i] == kids[i]);
        match kids[i].rule {
            Rule::ProcedureName => {
                a_call_clause_grows(
                    s,
                    kids,
                    i + 1,
                    CallView { procedure_name: source::text_of(s, kids[i]), ..acc },
                    k,
                    d,
                );
            },
            Rule::Expr => {
                if let Ok(x) = meaning::expr(s, kids[i], d) {
                    a_call_clause_grows(
                        s,
                        kids,
                        i + 1,
                        CallView { args: acc.args.push(x), ..acc },
                        k,
                        d,
                    );
                }
            },
            Rule::YieldClause => {
                a_call_clause_grows(
                    s,
                    kids,
                    i + 1,
                    CallView {
                        yield_items: forms::yield_items(s, kids[i].children),
                        yield_star: forms::yield_star(kids[i].children),
                        ..acc
                    },
                    k,
                    d,
                );
            },
            _ => {
                a_call_clause_grows(s, kids, i + 1, acc, k, d);
            },
        }
    }
}

/// YIELD names its columns in order, each with the name that AS gives it.
pub proof fn yields_grow(
    s: Seq<char>,
    kids: Seq<PairView>,
    i: int,
    acc: Seq<(Seq<char>, Option<Seq<char>>)>,
    k: PairView,
)
    requires
        0 <= i <= kids.len(),
        k.rule == Rule::YieldItem,
        k.children.len() > 0,
    ensures
        forms::yields_from(s, kids.push(k), i, acc) == forms::yields_from(s, kids, i, acc).push(
            (
                source::text_of(s, k.children[0]),
                if k.children.len() > 1 {
                    Some(source::text_of(s, k.children[1]))
                } else {
                    None
                },
            ),
        ),
    decreases kids.len() - i,
{
    let all = kids.push(k);
    if i == kids.len() {
        assert(all[i] == k);
        let y = (
            source::text_of(s, k.children[0]),
            if k.children.len() > 1 {
                Some(source::text_of(s, k.children[1]))
            } else {
                None
            },
        );
        assert(forms::yields_from(s, all, i + 1, acc.push(y)) == acc.push(y));
    } else {
        assert(all[i] == kids[i]);
        if kids[i].rule == Rule::YieldItem && kids[i].children.len() > 0 {
            let names = kids[i].children;
            let alias = if names.len() > 1 {
                Some(source::text_of(s, names[1]))
            } else {
                None
            };
            yields_grow(s, kids, i + 1, acc.push((source::text_of(s, names[0]), alias)), k);
        } else {
            yields_grow(s, kids, i + 1, acc, k);
        }
    }
}

/// The statements of a UNION stand in the order in which they are written, and what is written
/// between them is noted.
pub proof fn a_union_grows(
    s: Seq<char>,
    kids: Seq<PairView>,
    i: int,
    acc: UnionView,
    k: PairView,
    d: nat,
)
    requires
        0 <= i <= kids.len(),
    ensures
        forms::union_from(s, kids.push(k), i, acc, d) == (match forms::union_from(
            s,
            kids,
            i,
            acc,
            d,
        ) {
            Err(e) => Err(e),
            Ok(x) => if k.rule == Rule::SingleStmt {
                if k.children.len() == 0 {
                    Err(meaning::malformed())
                } else {
                    match forms::single(s, k.children[0], d) {
                        Err(e) => Err(e),
                        Ok(y) => Ok(UnionView { statements: x.statements.push(y), ..x }),
                    }
                }
            } else if k.rule == Rule::UnionOp {
                if text::contains_word(source::text_of(s, k), "all"@) {
                    Ok(UnionView { has_all: true, ..x })
                } else {
                    Ok(UnionView { has_plain: true, ..x })
                }
            } else {
                Ok(x)
            },
        }),
    decreases kids.len() - i,
{
    let all = kids.push(k);
    if i == kids.len() {
        assert(all[i] == k);
        assert(forall|x: UnionView| forms::union_from(s, all, i + 1, x, d) == Ok::<
            UnionView,
            ErrorView,
        >(x));
    } else {
        assert(all[i] == kids[i]);
        if kids[i].rule == Rule::SingleStmt {
            if kids[i].children.len() > 0 {
                if let Ok(x) = forms::single(s, kids[i].children[0], d) {
                    a_union_grows(
                        s,
                        kids,
                        i + 1,
                        UnionView { statements: acc.statements.push(x), ..acc },
                        k,
                        d,
                    );
                }
            }
        } else if kids[i].rule == Rule::UnionOp {
            if text::contains_word(source::text_of(s, kids[i]), "all"@) {
                a_union_grows(s, kids, i + 1, UnionView { has_all: true, ..acc }, k, d);
            } else {
                a_union_grows(s, kids, i + 1, UnionView { has_plain: true, ..acc }, k, d);
            }
        } else {
            a_union_grows(s, kids, i + 1, acc, k, d);
        }
    }
}

/// A union of several statements keeps duplicates only where each UNION in it says ALL, and fails
/// where some do and some do not.
pub proof fn a_union_keeps_duplicates_where_written(s: Seq<char>, p: PairView, d: nat, u: UnionView)
    requires
        forms::union_from(
            s,
            p.children,
            0,
            UnionView { statements: Seq::empty(), has_all: false, has_plain: false },
            d,
        ) == Ok::<UnionView, ErrorView>(u),
    ensures
        u.statements.len() == 1 ==> forms::union(s, p, d) == Ok::<StatementView, ErrorView>(
            u.statements[0],
        ),
        u.statements.len() != 1 && u.has_all && u.has_plain ==> forms::union(s, p, d) is Err,
        u.statements.len() != 1 && u.has_plain && !u.has_all ==> forms::union(s, p, d) == Ok::<
            StatementView,
            ErrorView,
        >(StatementView::Union { statements: u.statements, all: false }),
        u.statements.len() != 1 && u.has_all && !u.has_plain ==> forms::union(s, p, d) == Ok::<
            StatementView,
            ErrorView,
        >(StatementView::Union { statements: u.statements, all: true }),
{
}

/// EXPLAIN explains the statement behind it.
pub proof fn explain_explains_its_statement(s: Seq<char>, p: PairView, d: nat)
    requires
        p.children.len() > 0,
        forms::explain(s, p, d) is Ok,
    ensures
        forms::explain(s, p, d)->Ok_0 matches StatementView::Explain(x)
            && forms::plain_statement(s, p.children[0], d) == Ok::<StatementView, ErrorView>(*x),
{
}

} // verus!
