//! What lists, patterns and clauses are read from: each part that is written is there, once, in
//! its place.
use super::literal;
use super::meaning;
use super::meaning::{ArgsView, CaseParts, PathParts, ScopeView};
use super::peg::PairView;
use super::reading_laws;
use super::reading_laws::of_rule;
use super::rule::Rule;
use super::source;
use crate::assoc;
use crate::ast::{BinOp, ShortestPathMode};
use crate::ast_model::{
    ExprKindView, ExprView, LiteralValueView, NodePatternView, PatternElementView, PatternView,
    RelPatternView, ReturnItemView, SortItemView, WithClauseView,
};
use crate::text;
use crate::types::ErrorView;
use vstd::prelude::*;

verus! {

/// The nodes of a rule from a place on, the first of them taken apart.
pub proof fn lemma_next_of_rule(kids: Seq<PairView>, i: int, p: spec_fn(PairView) -> bool)
    requires
        0 <= i < kids.len(),
    ensures
        kids.skip(i).filter(p) == (if p(kids[i]) {
            seq![kids[i]] + kids.skip(i + 1).filter(p)
        } else {
            kids.skip(i + 1).filter(p)
        }),
{
    assert(kids.skip(i) =~= seq![kids[i]] + kids.skip(i + 1));
    Seq::filter_distributes_over_add(seq![kids[i]], kids.skip(i + 1), p);
    reveal_with_fuel(Seq::<PairView>::filter, 2);
    assert(seq![kids[i]].drop_last() =~= Seq::<PairView>::empty());
    if !p(kids[i]) {
        assert(seq![kids[i]].filter(p) =~= Seq::<PairView>::empty());
        assert(Seq::<PairView>::empty() + kids.skip(i + 1).filter(p) =~= kids.skip(i + 1).filter(p));
    } else {
        assert(seq![kids[i]].filter(p) =~= seq![kids[i]]);
    }
}

/// The expressions that are read are those that are written, each once and in their order, behind
/// what was read before.
pub proof fn each_expression_of_a_list_is_read(
    s: Seq<char>,
    kids: Seq<PairView>,
    i: int,
    acc: Seq<ExprView>,
    d: nat,
)
    requires
        0 <= i <= kids.len(),
        meaning::exprs_from(s, kids, i, acc, d) is Ok,
    ensures
        ({
            let fit = kids.skip(i).filter(of_rule(Rule::Expr));
            let out = meaning::exprs_from(s, kids, i, acc, d)->Ok_0;
            &&& out.len() == acc.len() + fit.len()
            &&& forall|j: int| 0 <= j < acc.len() ==> #[trigger] out[j] == acc[j]
            &&& forall|j: int|
                acc.len() <= j < out.len() ==> meaning::expr(s, fit[j - acc.len()], d) == Ok::<
                    ExprView,
                    ErrorView,
                >(#[trigger] out[j])
        }),
    decreases kids.len() - i,
{
    let p = of_rule(Rule::Expr);
    let fit = kids.skip(i).filter(p);
    if i < kids.len() {
        lemma_next_of_rule(kids, i, p);
        let rest = kids.skip(i + 1).filter(p);
        if kids[i].rule == Rule::Expr {
            let x = meaning::expr(s, kids[i], d)->Ok_0;
            let more = acc.push(x);
            each_expression_of_a_list_is_read(s, kids, i + 1, more, d);
            let out = meaning::exprs_from(s, kids, i, acc, d)->Ok_0;
            assert(fit[0] == kids[i]);
            assert forall|j: int| 0 <= j < acc.len() implies #[trigger] out[j] == acc[j] by {
                assert(out[j] == more[j]);
            }
            assert forall|j: int| acc.len() <= j < out.len() implies meaning::expr(s, fit[j - acc.len()], d) == Ok::<
                ExprView,
                ErrorView,
            >(#[trigger] out[j]) by {
                if j > acc.len() {
                    assert(fit[j - acc.len()] == rest[j - more.len()]);
                } else {
                    assert(out[j] == more[j]);
                }
            }
        } else {
            each_expression_of_a_list_is_read(s, kids, i + 1, acc, d);
        }
    } else {
        assert(kids.skip(i) =~= Seq::<PairView>::empty());
        assert(fit =~= Seq::<PairView>::empty()) by {
            reveal(Seq::filter);
        }
    }
}

/// The entries of a map literal that are read are those that are written, each once and in their order, behind
/// what was read before.
pub proof fn each_entry_of_a_map_is_read(
    s: Seq<char>,
    kids: Seq<PairView>,
    i: int,
    acc: Seq<(Seq<char>, ExprView)>,
    d: nat,
)
    requires
        0 <= i <= kids.len(),
        meaning::map_from(s, kids, i, acc, d) is Ok,
    ensures
        ({
            let fit = kids.skip(i).filter(of_rule(Rule::MapPair));
            let out = meaning::map_from(s, kids, i, acc, d)->Ok_0;
            &&& out.len() == acc.len() + fit.len()
            &&& forall|j: int| 0 <= j < acc.len() ==> #[trigger] out[j] == acc[j]
            &&& forall|j: int|
                acc.len() <= j < out.len() ==> meaning::keyed(s, fit[j - acc.len()].children, d) == Ok::<
                    (Seq<char>, ExprView),
                    ErrorView,
                >(#[trigger] out[j])
        }),
    decreases kids.len() - i,
{
    let p = of_rule(Rule::MapPair);
    let fit = kids.skip(i).filter(p);
    if i < kids.len() {
        lemma_next_of_rule(kids, i, p);
        let rest = kids.skip(i + 1).filter(p);
        if kids[i].rule == Rule::MapPair {
            let x = meaning::keyed(s, kids[i].children, d)->Ok_0;
            let more = acc.push(x);
            each_entry_of_a_map_is_read(s, kids, i + 1, more, d);
            let out = meaning::map_from(s, kids, i, acc, d)->Ok_0;
            assert(fit[0] == kids[i]);
            assert forall|j: int| 0 <= j < acc.len() implies #[trigger] out[j] == acc[j] by {
                assert(out[j] == more[j]);
            }
            assert forall|j: int| acc.len() <= j < out.len() implies meaning::keyed(s, fit[j - acc.len()].children, d) == Ok::<
                (Seq<char>, ExprView),
                ErrorView,
            >(#[trigger] out[j]) by {
                if j > acc.len() {
                    assert(fit[j - acc.len()] == rest[j - more.len()]);
                } else {
                    assert(out[j] == more[j]);
                }
            }
        } else {
            each_entry_of_a_map_is_read(s, kids, i + 1, acc, d);
        }
    } else {
        assert(kids.skip(i) =~= Seq::<PairView>::empty());
        assert(fit =~= Seq::<PairView>::empty()) by {
            reveal(Seq::filter);
        }
    }
}

/// The projected items that are read are those that are written, each once and in their order, behind
/// what was read before.
pub proof fn each_item_is_read(
    s: Seq<char>,
    kids: Seq<PairView>,
    i: int,
    acc: Seq<ReturnItemView>,
    d: nat,
)
    requires
        0 <= i <= kids.len(),
        meaning::items_from(s, kids, i, acc, d) is Ok,
    ensures
        ({
            let fit = kids.skip(i).filter(of_rule(Rule::ReturnItem));
            let out = meaning::items_from(s, kids, i, acc, d)->Ok_0;
            &&& out.len() == acc.len() + fit.len()
            &&& forall|j: int| 0 <= j < acc.len() ==> #[trigger] out[j] == acc[j]
            &&& forall|j: int|
                acc.len() <= j < out.len() ==> meaning::item_from(s, fit[j - acc.len()].children, 0, None, None, d) == Ok::<
                    ReturnItemView,
                    ErrorView,
                >(#[trigger] out[j])
        }),
    decreases kids.len() - i,
{
    let p = of_rule(Rule::ReturnItem);
    let fit = kids.skip(i).filter(p);
    if i < kids.len() {
        lemma_next_of_rule(kids, i, p);
        let rest = kids.skip(i + 1).filter(p);
        if kids[i].rule == Rule::ReturnItem {
            let x = meaning::item_from(s, kids[i].children, 0, None, None, d)->Ok_0;
            let more = acc.push(x);
            each_item_is_read(s, kids, i + 1, more, d);
            let out = meaning::items_from(s, kids, i, acc, d)->Ok_0;
            assert(fit[0] == kids[i]);
            assert forall|j: int| 0 <= j < acc.len() implies #[trigger] out[j] == acc[j] by {
                assert(out[j] == more[j]);
            }
            assert forall|j: int| acc.len() <= j < out.len() implies meaning::item_from(s, fit[j - acc.len()].children, 0, None, None, d) == Ok::<
                ReturnItemView,
                ErrorView,
            >(#[trigger] out[j]) by {
                if j > acc.len() {
                    assert(fit[j - acc.len()] == rest[j - more.len()]);
                } else {
                    assert(out[j] == more[j]);
                }
            }
        } else {
            each_item_is_read(s, kids, i + 1, acc, d);
        }
    } else {
        assert(kids.skip(i) =~= Seq::<PairView>::empty());
        assert(fit =~= Seq::<PairView>::empty()) by {
            reveal(Seq::filter);
        }
    }
}

/// The sort keys that are read are those that are written, each once and in their order, behind
/// what was read before.
pub proof fn each_sort_key_is_read(
    s: Seq<char>,
    kids: Seq<PairView>,
    i: int,
    acc: Seq<SortItemView>,
    d: nat,
)
    requires
        0 <= i <= kids.len(),
        meaning::sorts_from(s, kids, i, acc, d) is Ok,
    ensures
        ({
            let fit = kids.skip(i).filter(of_rule(Rule::SortItem));
            let out = meaning::sorts_from(s, kids, i, acc, d)->Ok_0;
            &&& out.len() == acc.len() + fit.len()
            &&& forall|j: int| 0 <= j < acc.len() ==> #[trigger] out[j] == acc[j]
            &&& forall|j: int|
                acc.len() <= j < out.len() ==> meaning::sort_from(s, fit[j - acc.len()].children, 0, None, false, d) == Ok::<
                    SortItemView,
                    ErrorView,
                >(#[trigger] out[j])
        }),
    decreases kids.len() - i,
{
    let p = of_rule(Rule::SortItem);
    let fit = kids.skip(i).filter(p);
    if i < kids.len() {
        lemma_next_of_rule(kids, i, p);
        let rest = kids.skip(i + 1).filter(p);
        if kids[i].rule == Rule::SortItem {
            let x = meaning::sort_from(s, kids[i].children, 0, None, false, d)->Ok_0;
            let more = acc.push(x);
            each_sort_key_is_read(s, kids, i + 1, more, d);
            let out = meaning::sorts_from(s, kids, i, acc, d)->Ok_0;
            assert(fit[0] == kids[i]);
            assert forall|j: int| 0 <= j < acc.len() implies #[trigger] out[j] == acc[j] by {
                assert(out[j] == more[j]);
            }
            assert forall|j: int| acc.len() <= j < out.len() implies meaning::sort_from(s, fit[j - acc.len()].children, 0, None, false, d) == Ok::<
                SortItemView,
                ErrorView,
            >(#[trigger] out[j]) by {
                if j > acc.len() {
                    assert(fit[j - acc.len()] == rest[j - more.len()]);
                } else {
                    assert(out[j] == more[j]);
                }
            }
        } else {
            each_sort_key_is_read(s, kids, i + 1, acc, d);
        }
    } else {
        assert(kids.skip(i) =~= Seq::<PairView>::empty());
        assert(fit =~= Seq::<PairView>::empty()) by {
            reveal(Seq::filter);
        }
    }
}

/// The patterns that are read are those that are written, each once and in their order, behind
/// what was read before.
pub proof fn each_pattern_is_read(
    s: Seq<char>,
    kids: Seq<PairView>,
    i: int,
    acc: Seq<PatternView>,
    d: nat,
)
    requires
        0 <= i <= kids.len(),
        meaning::patterns_from(s, kids, i, acc, d) is Ok,
    ensures
        ({
            let fit = kids.skip(i).filter(of_rule(Rule::PatternItem));
            let out = meaning::patterns_from(s, kids, i, acc, d)->Ok_0;
            &&& out.len() == acc.len() + fit.len()
            &&& forall|j: int| 0 <= j < acc.len() ==> #[trigger] out[j] == acc[j]
            &&& forall|j: int|
                acc.len() <= j < out.len() ==> meaning::pattern_item(s, fit[j - acc.len()], d) == Ok::<
                    PatternView,
                    ErrorView,
                >(#[trigger] out[j])
        }),
    decreases kids.len() - i,
{
    let p = of_rule(Rule::PatternItem);
    let fit = kids.skip(i).filter(p);
    if i < kids.len() {
        lemma_next_of_rule(kids, i, p);
        let rest = kids.skip(i + 1).filter(p);
        if kids[i].rule == Rule::PatternItem {
            let x = meaning::pattern_item(s, kids[i], d)->Ok_0;
            let more = acc.push(x);
            each_pattern_is_read(s, kids, i + 1, more, d);
            let out = meaning::patterns_from(s, kids, i, acc, d)->Ok_0;
            assert(fit[0] == kids[i]);
            assert forall|j: int| 0 <= j < acc.len() implies #[trigger] out[j] == acc[j] by {
                assert(out[j] == more[j]);
            }
            assert forall|j: int| acc.len() <= j < out.len() implies meaning::pattern_item(s, fit[j - acc.len()], d) == Ok::<
                PatternView,
                ErrorView,
            >(#[trigger] out[j]) by {
                if j > acc.len() {
                    assert(fit[j - acc.len()] == rest[j - more.len()]);
                } else {
                    assert(out[j] == more[j]);
                }
            }
        } else {
            each_pattern_is_read(s, kids, i + 1, acc, d);
        }
    } else {
        assert(kids.skip(i) =~= Seq::<PairView>::empty());
        assert(fit =~= Seq::<PairView>::empty()) by {
            reveal(Seq::filter);
        }
    }
}

/// With one more part written at its end, a node pattern is what it was with that part set, and with
/// no other changed.
pub proof fn a_node_pattern_grows(
    s: Seq<char>,
    kids: Seq<PairView>,
    i: int,
    acc: NodePatternView,
    k: PairView,
    d: nat,
)
    requires
        0 <= i <= kids.len(),
    ensures
        meaning::node_from(s, kids.push(k), i, acc, d) == (match meaning::node_from(s, kids, i, acc, d) {
            Err(e) => Err(e),
            Ok(x) => match k.rule {
                Rule::Ident => Ok(NodePatternView { variable: Some(meaning::name(s, k)), ..x }),
                Rule::LabelSpec => Ok(
                    NodePatternView {
                        labels: x.labels + k.children.filter(
                            of_rule(Rule::SymbolicName),
                        ).map_values(|l: PairView| source::text_of(s, l)),
                        ..x
                    },
                ),
                Rule::PropertyMap => match meaning::property_map(s, k, d) {
                    Err(e) => Err(e),
                    Ok(y) => Ok(NodePatternView { properties: y, ..x }),
                },
                _ => Ok(x),
            },
        }),
    decreases kids.len() - i,
{
    let all = kids.push(k);
    reading_laws::each_node_of_a_rule_gives_its_text(
        s,
        k.children,
        Rule::SymbolicName,
        k.children.len() as int,
    );
    assert(k.children.take(k.children.len() as int) =~= k.children);
    if i == kids.len() {
        assert(all[i] == k);
        assert(forall|x: NodePatternView| meaning::node_from(s, all, i + 1, x, d) == Ok::<NodePatternView, ErrorView>(x));
    } else {
        assert(all[i] == kids[i]);
        match kids[i].rule {
            Rule::Ident => {
                a_node_pattern_grows(s, kids, i + 1, NodePatternView { variable: Some(meaning::name(s, kids[i])), ..acc }, k, d);
            },
            Rule::LabelSpec => {
                a_node_pattern_grows(s, kids, i + 1, NodePatternView {
                        labels: acc.labels + meaning::texts_of(
                            s,
                            kids[i].children,
                            Rule::SymbolicName,
                            kids[i].children.len() as int,
                        ),
                        ..acc
                    }, k, d);
            },
            Rule::PropertyMap => {
                if let Ok(y) = meaning::property_map(s, kids[i], d) {
                    a_node_pattern_grows(s, kids, i + 1, NodePatternView { properties: y, ..acc }, k, d);
                }
            },
            _ => {
                a_node_pattern_grows(s, kids, i + 1, acc, k, d);
            },
        }
    }
}

/// With one more part written at its end, a relationship pattern is what it was with that part set, and with
/// no other changed.
pub proof fn a_relationship_pattern_grows(
    s: Seq<char>,
    kids: Seq<PairView>,
    i: int,
    acc: RelPatternView,
    k: PairView,
    d: nat,
)
    requires
        0 <= i <= kids.len(),
    ensures
        meaning::rel_from(s, kids.push(k), i, acc, d) == (match meaning::rel_from(s, kids, i, acc, d) {
            Err(e) => Err(e),
            Ok(x) => match k.rule {
                Rule::Ident => Ok(RelPatternView { variable: Some(meaning::name(s, k)), ..x }),
                Rule::RelTypeSpec => Ok(
                    RelPatternView {
                        rel_types: meaning::with_types(
                            x.rel_types,
                            s,
                            k.children,
                            k.children.len() as int,
                        ),
                        ..x
                    },
                ),
                Rule::PropertyMap => match meaning::property_map(s, k, d) {
                    Err(e) => Err(e),
                    Ok(y) => Ok(RelPatternView { properties: y, ..x }),
                },
                Rule::VarLength => match meaning::var_length(s, k, d) {
                    Err(e) => Err(e),
                    Ok((range, y)) => Ok(
                        RelPatternView {
                            var_length: Some(range),
                            properties: meaning::extended(x.properties, y, y.len() as int),
                            ..x
                        },
                    ),
                },
                _ => Ok(x),
            },
        }),
    decreases kids.len() - i,
{
    let all = kids.push(k);
    if i == kids.len() {
        assert(all[i] == k);
        assert(forall|x: RelPatternView| meaning::rel_from(s, all, i + 1, x, d) == Ok::<RelPatternView, ErrorView>(x));
    } else {
        assert(all[i] == kids[i]);
        match kids[i].rule {
            Rule::Ident => {
                a_relationship_pattern_grows(s, kids, i + 1, RelPatternView { variable: Some(meaning::name(s, kids[i])), ..acc }, k, d);
            },
            Rule::RelTypeSpec => {
                a_relationship_pattern_grows(s, kids, i + 1, RelPatternView {
                        rel_types: meaning::with_types(
                            acc.rel_types,
                            s,
                            kids[i].children,
                            kids[i].children.len() as int,
                        ),
                        ..acc
                    }, k, d);
            },
            Rule::PropertyMap => {
                if let Ok(y) = meaning::property_map(s, kids[i], d) {
                    a_relationship_pattern_grows(s, kids, i + 1, RelPatternView { properties: y, ..acc }, k, d);
                }
            },
            Rule::VarLength => {
                if let Ok((range, y)) = meaning::var_length(s, kids[i], d) {
                    a_relationship_pattern_grows(s, kids, i + 1, RelPatternView {
                            var_length: Some(range),
                            properties: meaning::extended(acc.properties, y, y.len() as int),
                            ..acc
                        }, k, d);
                }
            },
            _ => {
                a_relationship_pattern_grows(s, kids, i + 1, acc, k, d);
            },
        }
    }
}

/// The parts of a CASE expression are read in turn: with one more at the end, it has what it had before
/// and what that part gives.
pub proof fn cases_are_read_in_turn(
    s: Seq<char>,
    kids: Seq<PairView>,
    i: int,
    acc: CaseParts,
    k: PairView,
    d: nat,
)
    requires
        0 <= i <= kids.len(),
    ensures
        meaning::case_from(s, kids.push(k), i, acc, d) == (match meaning::case_from(s, kids, i, acc, d) {
            Err(e) => Err(e),
            Ok(x) => meaning::case_step(s, x, k, d),
        }),
    decreases kids.len() - i,
{
    let all = kids.push(k);
    if i == kids.len() {
        assert(all[i] == k);
        assert(forall|x: CaseParts| meaning::case_from(s, all, i + 1, x, d) == Ok::<CaseParts, ErrorView>(x));
    } else {
        assert(all[i] == kids[i]);
        if let Ok(next) = meaning::case_step(s, acc, kids[i], d) {
            cases_are_read_in_turn(s, kids, i + 1, next, k, d);
        }
    }
}

/// The parts of a comprehension or a quantifier are read in turn: with one more at the end, it has what it had before
/// and what that part gives.
pub proof fn scopes_are_read_in_turn(
    s: Seq<char>,
    kids: Seq<PairView>,
    i: int,
    acc: ScopeView,
    k: PairView,
    d: nat,
)
    requires
        0 <= i <= kids.len(),
    ensures
        meaning::scope_from(s, kids.push(k), i, acc, d) == (match meaning::scope_from(s, kids, i, acc, d) {
            Err(e) => Err(e),
            Ok(x) => meaning::scope_step(s, x, k, d),
        }),
    decreases kids.len() - i,
{
    let all = kids.push(k);
    if i == kids.len() {
        assert(all[i] == k);
        assert(forall|x: ScopeView| meaning::scope_from(s, all, i + 1, x, d) == Ok::<ScopeView, ErrorView>(x));
    } else {
        assert(all[i] == kids[i]);
        if let Ok(next) = meaning::scope_step(s, acc, kids[i], d) {
            scopes_are_read_in_turn(s, kids, i + 1, next, k, d);
        }
    }
}

/// The parts of a WITH clause are read in turn: with one more at the end, it has what it had before
/// and what that part gives.
pub proof fn with_is_read_in_turn(
    s: Seq<char>,
    kids: Seq<PairView>,
    i: int,
    acc: WithClauseView,
    k: PairView,
    d: nat,
)
    requires
        0 <= i <= kids.len(),
    ensures
        meaning::with_from(s, kids.push(k), i, acc, d) == (match meaning::with_from(s, kids, i, acc, d) {
            Err(e) => Err(e),
            Ok(x) => meaning::with_step(s, x, k, d),
        }),
    decreases kids.len() - i,
{
    let all = kids.push(k);
    if i == kids.len() {
        assert(all[i] == k);
        assert(forall|x: WithClauseView| meaning::with_from(s, all, i + 1, x, d) == Ok::<WithClauseView, ErrorView>(x));
    } else {
        assert(all[i] == kids[i]);
        if let Ok(next) = meaning::with_step(s, acc, kids[i], d) {
            with_is_read_in_turn(s, kids, i + 1, next, k, d);
        }
    }
}

/// The parts of a named pattern are read in turn: with one more at the end, it has what it had before
/// and what that part gives.
pub proof fn paths_are_read_in_turn(
    s: Seq<char>,
    kids: Seq<PairView>,
    i: int,
    acc: PathParts,
    k: PairView,
    d: nat,
)
    requires
        0 <= i <= kids.len(),
    ensures
        meaning::path_from(s, kids.push(k), i, acc, d) == (match meaning::path_from(s, kids, i, acc, d) {
            Err(e) => Err(e),
            Ok(x) => meaning::path_step(s, x, k, d),
        }),
    decreases kids.len() - i,
{
    let all = kids.push(k);
    if i == kids.len() {
        assert(all[i] == k);
        assert(forall|x: PathParts| meaning::path_from(s, all, i + 1, x, d) == Ok::<PathParts, ErrorView>(x));
    } else {
        assert(all[i] == kids[i]);
        if let Ok(next) = meaning::path_step(s, acc, kids[i], d) {
            paths_are_read_in_turn(s, kids, i + 1, next, k, d);
        }
    }
}

/// What a part of a CASE expression gives: its operand; one more alternative, the condition
/// before THEN and the value behind it; or its default.
pub proof fn a_case_part_reads_as_written(s: Seq<char>, acc: CaseParts, k: PairView, d: nat)
    requires
        meaning::case_step(s, acc, k, d) is Ok,
    ensures
        ({
            let x = meaning::case_step(s, acc, k, d)->Ok_0;
            &&& k.rule == Rule::CaseWhenClause ==> (k.children.len() >= 2 && x.operand
                == acc.operand && x.default == acc.default && x.alternatives.len()
                == acc.alternatives.len() + 1 && x.alternatives.drop_last() == acc.alternatives
                && meaning::expr(s, k.children[0], d) == Ok::<ExprView, ErrorView>(
                x.alternatives.last().0,
            ) && meaning::expr(s, k.children[1], d) == Ok::<ExprView, ErrorView>(
                x.alternatives.last().1,
            ))
            &&& k.rule == Rule::CaseOperand ==> (k.children.len() > 0 && x.operand is Some
                && meaning::expr(s, k.children[0], d) == Ok::<ExprView, ErrorView>(*x.operand->0)
                && x.alternatives == acc.alternatives && x.default == acc.default)
            &&& k.rule == Rule::CaseElseClause ==> (k.children.len() > 0 && x.default is Some
                && meaning::expr(s, k.children[0], d) == Ok::<ExprView, ErrorView>(*x.default->0)
                && x.alternatives == acc.alternatives && x.operand == acc.operand)
        }),
{
}

/// What a part of a WITH clause gives.
pub proof fn a_with_part_reads_as_written(s: Seq<char>, acc: WithClauseView, k: PairView, d: nat)
    requires
        meaning::with_step(s, acc, k, d) is Ok,
    ensures
        ({
            let x = meaning::with_step(s, acc, k, d)->Ok_0;
            &&& x.distinct == (acc.distinct || k.rule == Rule::DistinctKeyword)
            &&& x.skip == (if k.rule == Rule::SkipClause {
                Some(meaning::expr_under(s, k.children, Rule::Expr, d)->Ok_0)
            } else {
                acc.skip
            })
            &&& x.limit == (if k.rule == Rule::LimitClause {
                Some(meaning::expr_under(s, k.children, Rule::Expr, d)->Ok_0)
            } else {
                acc.limit
            })
            &&& x.where_clause == (if k.rule == Rule::WhereClause {
                Some(meaning::where_clause(s, k, d)->Ok_0)
            } else {
                acc.where_clause
            })
            &&& x.order_by == (if k.rule == Rule::OrderByClause {
                meaning::order_by(s, k, d)->Ok_0
            } else {
                acc.order_by
            })
            &&& x.items == (if k.rule == Rule::ReturnItems {
                meaning::items_from(s, k.children, 0, Seq::empty(), d)->Ok_0
            } else {
                acc.items
            })
        }),
{
}

/// What a part of a comprehension or a quantifier gives.
pub proof fn a_scope_part_reads_as_written(s: Seq<char>, acc: ScopeView, k: PairView, d: nat)
    requires
        meaning::scope_step(s, acc, k, d) is Ok,
    ensures
        ({
            let x = meaning::scope_step(s, acc, k, d)->Ok_0;
            &&& x.variable == (if k.rule == Rule::Ident {
                Some(meaning::name(s, k))
            } else {
                acc.variable
            })
            &&& k.rule == Rule::Expr ==> x.list is Some && meaning::expr(s, k, d) == Ok::<
                ExprView,
                ErrorView,
            >(*x.list->0)
            &&& k.rule != Rule::Expr ==> x.list == acc.list
            &&& k.rule == Rule::WhereClause ==> x.filter is Some && meaning::where_clause(s, k, d)
                == Ok::<ExprView, ErrorView>(*x.filter->0)
            &&& k.rule == Rule::ListCompWhere ==> x.filter is Some && k.children.len() > 0
                && meaning::bool_expr(s, k.children[0], d) == Ok::<ExprView, ErrorView>(
                *x.filter->0,
            )
            &&& k.rule != Rule::WhereClause && k.rule != Rule::ListCompWhere ==> x.filter
                == acc.filter
            &&& k.rule == Rule::ListCompMap ==> x.map is Some && k.children.len() > 0
                && meaning::expr(s, k.children[0], d) == Ok::<ExprView, ErrorView>(*x.map->0)
            &&& k.rule != Rule::ListCompMap ==> x.map == acc.map
        }),
{
}

/// A search for paths is for one of them or for all, as its function says, and for the pattern
/// in its brackets.
pub proof fn a_path_search_reads_as_written(s: Seq<char>, acc: PathParts, k: PairView, d: nat)
    requires
        meaning::path_step(s, acc, k, d) is Ok,
    ensures
        ({
            let x = meaning::path_step(s, acc, k, d)->Ok_0;
            &&& x.mode == (if k.rule == Rule::ShortestPathFn {
                ShortestPathMode::Single
            } else if k.rule == Rule::AllShortestPathsFn {
                ShortestPathMode::All
            } else {
                acc.mode
            })
            &&& x.variable == (if k.rule == Rule::Ident {
                Some(meaning::name(s, k))
            } else {
                acc.variable
            })
            &&& k.rule == Rule::Pattern ==> x.pattern is Some && meaning::pattern(s, k, d) == Ok::<
                PatternView,
                ErrorView,
            >(x.pattern->0)
        }),
{
}

/// Relationship types are those that were there and those that are written, each once.
pub proof fn each_type_is_read_once(
    acc: Seq<Seq<char>>,
    s: Seq<char>,
    kids: Seq<PairView>,
    i: int,
    t: Seq<char>,
)
    requires
        0 <= i <= kids.len(),
        assoc::distinct(acc),
    ensures
        assoc::distinct(meaning::with_types(acc, s, kids, i)),
        meaning::with_types(acc, s, kids, i).contains(t) <==> (acc.contains(t) || exists|j: int|
            0 <= j < i && (#[trigger] kids[j]).rule == Rule::SymbolicName && source::text_of(
                s,
                kids[j],
            ) == t),
    decreases i,
{
    if i > 0 {
        let x = source::text_of(s, kids[i - 1]);
        each_type_is_read_once(acc, s, kids, i - 1, t);
        let before = meaning::with_types(acc, s, kids, i - 1);
        let all = meaning::with_types(acc, s, kids, i);
        if kids[i - 1].rule == Rule::SymbolicName && !before.contains(x) {
            assert(all == before.push(x));
            assert forall|a: int, b: int| 0 <= a < b < all.len() implies #[trigger] all[a]
                != #[trigger] all[b] by {
                if b < before.len() {
                    assert(before[a] != before[b]);
                } else {
                    assert(before[a] == all[a]);
                }
            }
            assert(all[before.len() as int] == x);
            if before.contains(t) {
                let a = choose|a: int| 0 <= a < before.len() && before[a] == t;
                assert(all[a] == t);
            }
            if all.contains(t) && t != x {
                let a = choose|a: int| 0 <= a < all.len() && all[a] == t;
                assert(before[a] == t);
            }
        }
    }
}

/// The range of a variable-length pattern: from the number before the dots, or one, to the number
/// behind them, or fifty.
pub proof fn a_hop_range_reads_as_written(s: Seq<char>, p: PairView)
    requires
        p.children.len() <= 2,
        forall|i: int|
            0 <= i < p.children.len() ==> (#[trigger] p.children[i]).rule == Rule::Integer,
        meaning::hop_range(s, p) is Ok,
    ensures
        ({
            let t = source::text_of(s, p);
            let (low, high) = meaning::hop_range(s, p)->Ok_0;
            if p.children.len() == 2 {
                &&& literal::hop_bound(source::text_of(s, p.children[0])) == Ok::<u32, ErrorView>(low)
                &&& literal::hop_bound(source::text_of(s, p.children[1])) == Ok::<u32, ErrorView>(
                    high,
                )
            } else if p.children.len() == 1 && text::begins(t, ".."@) {
                &&& low == 1
                &&& literal::hop_bound(source::text_of(s, p.children[0])) == Ok::<u32, ErrorView>(
                    high,
                )
            } else if p.children.len() == 1 {
                &&& literal::hop_bound(source::text_of(s, p.children[0])) == Ok::<u32, ErrorView>(low)
                &&& high == 50
            } else {
                low == 1 && high == 50
            }
        }),
{
    let kids = p.children;
    let t = source::text_of(s, p);
    reveal_strlit("..");
    if text::begins(t, ".."@) {
        assert(t.take(2)[0] == '.');
        assert(t.take(2)[1] == '.');
    }
    if t.len() >= 2 && t[0] == '.' && t[1] == '.' {
        assert(t.take(2) =~= ".."@);
    }
    let none = Seq::<u32>::empty();
    if kids.len() >= 1 {
        assert(kids[0].rule == Rule::Integer);
        let a = literal::hop_bound(source::text_of(s, kids[0]))->Ok_0;
        assert(meaning::bounds_from(s, kids, 0, none) == meaning::bounds_from(
            s,
            kids,
            1,
            none.push(a),
        ));
        if kids.len() == 2 {
            assert(kids[1].rule == Rule::Integer);
            let b = literal::hop_bound(source::text_of(s, kids[1]))->Ok_0;
            assert(meaning::bounds_from(s, kids, 1, none.push(a)) == meaning::bounds_from(
                s,
                kids,
                2,
                none.push(a).push(b),
            ));
        }
    }
}

/// A fixed length is its own lower and upper bound, and a bare star goes from one to fifty.
pub proof fn a_length_reads_as_written(s: Seq<char>, p: PairView, d: nat)
    requires
        p.children.len() <= 1,
        p.children.len() == 1 ==> p.children[0].rule == Rule::FixedLength || p.children[0].rule
            == Rule::IntRange,
        meaning::var_length(s, p, d) is Ok,
    ensures
        ({
            let (range, props) = meaning::var_length(s, p, d)->Ok_0;
            &&& props.len() == 0
            &&& p.children.len() == 0 ==> range.0 == 1 && range.1 == 50
            &&& p.children.len() == 1 && p.children[0].rule == Rule::FixedLength
                ==> literal::hop_bound(source::text_of(s, p.children[0])) == Ok::<u32, ErrorView>(
                range.0,
            ) && range.1 == range.0
            &&& p.children.len() == 1 && p.children[0].rule == Rule::IntRange ==> meaning::hop_range(
                s,
                p.children[0],
            ) == Ok::<(u32, u32), ErrorView>(range)
        }),
{
    let kids = p.children;
    let none = Seq::<(Seq<char>, ExprView)>::empty();
    if kids.len() == 1 {
        if kids[0].rule == Rule::FixedLength {
            let n = literal::hop_bound(source::text_of(s, kids[0]))->Ok_0;
            assert(meaning::length_from(s, kids, 1, (n, n), none, d) == Ok::<
                ((u32, u32), Seq<(Seq<char>, ExprView)>),
                ErrorView,
            >(((n, n), none)));
        } else {
            let r = meaning::hop_range(s, kids[0])->Ok_0;
            assert(meaning::length_from(s, kids, 1, r, none, d) == Ok::<
                ((u32, u32), Seq<(Seq<char>, ExprView)>),
                ErrorView,
            >((r, none)));
        }
    }
}

/// A property map with one more pair at its end reads that pair's value under its key, and all
/// else as before.
pub proof fn a_property_map_grows(
    s: Seq<char>,
    kids: Seq<PairView>,
    i: int,
    acc: Seq<(Seq<char>, ExprView)>,
    k: PairView,
    d: nat,
    other: Seq<char>,
)
    requires
        0 <= i <= kids.len(),
        k.rule == Rule::PropertyPair,
        meaning::props_from(s, kids.push(k), i, acc, d) is Ok,
    ensures
        meaning::props_from(s, kids, i, acc, d) is Ok,
        k.children.len() >= 2,
        meaning::expr(s, k.children[1], d) is Ok,
        assoc::lookup(meaning::props_from(s, kids.push(k), i, acc, d)->Ok_0, other) == (if other
            == meaning::name(s, k.children[0]) {
            Some(meaning::expr(s, k.children[1], d)->Ok_0)
        } else {
            assoc::lookup(meaning::props_from(s, kids, i, acc, d)->Ok_0, other)
        }),
    decreases kids.len() - i,
{
    let all = kids.push(k);
    if i == kids.len() {
        assert(all[i] == k);
        let (key, x) = meaning::keyed(s, k.children, d)->Ok_0;
        assert(meaning::props_from(s, all, i + 1, assoc::put(acc, key, x), d) == Ok::<
            Seq<(Seq<char>, ExprView)>,
            ErrorView,
        >(assoc::put(acc, key, x)));
        assoc::lemma_lookup_put(acc, key, x, other);
    } else {
        assert(all[i] == kids[i]);
        if kids[i].rule == Rule::PropertyPair {
            let (key, x) = meaning::keyed(s, kids[i].children, d)->Ok_0;
            a_property_map_grows(s, kids, i + 1, assoc::put(acc, key, x), k, d, other);
        } else {
            a_property_map_grows(s, kids, i + 1, acc, k, d, other);
        }
    }
}

/// A pair of a map is its name and the meaning of its expression.
pub proof fn a_pair_reads_as_written(s: Seq<char>, kids: Seq<PairView>, d: nat)
    requires
        meaning::keyed(s, kids, d) is Ok,
    ensures
        kids.len() >= 2,
        meaning::keyed(s, kids, d)->Ok_0.0 == meaning::name(s, kids[0]),
        meaning::expr(s, kids[1], d) == Ok::<ExprView, ErrorView>(
            meaning::keyed(s, kids, d)->Ok_0.1,
        ),
{
}

/// A pattern is its nodes and relationships in the order in which they are written: with one more
/// at its end it has that one more.
#[verifier::rlimit(60)]
pub proof fn a_pattern_grows(
    s: Seq<char>,
    kids: Seq<PairView>,
    i: int,
    acc: Seq<PatternElementView>,
    k: PairView,
    d: nat,
)
    requires
        0 <= i <= kids.len(),
    ensures
        meaning::elements_from(s, kids.push(k), i, acc, d) == (match meaning::elements_from(
            s,
            kids,
            i,
            acc,
            d,
        ) {
            Err(e) => Err(e),
            Ok(before) => if k.rule == Rule::NodePattern {
                match meaning::node_pattern(s, k, d) {
                    Err(e) => Err(e),
                    Ok(x) => Ok(before.push(PatternElementView::Node(x))),
                }
            } else if k.rule == Rule::RelPattern {
                match meaning::rel_pattern(s, k, d) {
                    Err(e) => Err(e),
                    Ok(x) => Ok(before.push(PatternElementView::Relationship(x))),
                }
            } else {
                Ok(before)
            },
        }),
    decreases kids.len() - i,
{
    let all = kids.push(k);
    if i == kids.len() {
        assert(all[i] == k);
        assert(forall|x: Seq<PatternElementView>|
            meaning::elements_from(s, all, i + 1, x, d) == Ok::<
                Seq<PatternElementView>,
                ErrorView,
            >(x));
    } else {
        assert(all[i] == kids[i]);
        if kids[i].rule == Rule::NodePattern {
            if let Ok(x) = meaning::node_pattern(s, kids[i], d) {
                a_pattern_grows(s, kids, i + 1, acc.push(PatternElementView::Node(x)), k, d);
            }
        } else if kids[i].rule == Rule::RelPattern {
            if let Ok(x) = meaning::rel_pattern(s, kids[i], d) {
                a_pattern_grows(s, kids, i + 1, acc.push(PatternElementView::Relationship(x)), k, d);
            }
        } else {
            a_pattern_grows(s, kids, i + 1, acc, k, d);
        }
    }
}

/// A relationship pattern has the direction of its arrow, whatever its details.
pub proof fn a_relationship_pattern_points_as_written(s: Seq<char>, p: PairView, d: nat)
    requires
        meaning::rel_pattern(s, p, d) is Ok,
    ensures
        p.children.len() > 0,
        meaning::direction_of(p.children[0].rule) == Some(
            meaning::rel_pattern(s, p, d)->Ok_0.direction,
        ),
{
    let direction = meaning::direction_of(p.children[0].rule)->0;
    lemma_details_keep_direction(
        s,
        p.children[0].children,
        0,
        RelPatternView {
            variable: None,
            rel_types: Seq::empty(),
            properties: Seq::empty(),
            direction,
            var_length: None,
        },
        d,
    );
}

/// Details leave the direction alone.
proof fn lemma_details_keep_direction(
    s: Seq<char>,
    kids: Seq<PairView>,
    i: int,
    acc: RelPatternView,
    d: nat,
)
    requires
        0 <= i <= kids.len(),
        meaning::details_from(s, kids, i, acc, d) is Ok,
    ensures
        meaning::details_from(s, kids, i, acc, d)->Ok_0.direction == acc.direction,
    decreases kids.len() - i,
{
    if i < kids.len() {
        if kids[i].rule == Rule::RelDetail {
            lemma_parts_keep_direction(s, kids[i].children, 0, acc, d);
            let next = meaning::rel_from(s, kids[i].children, 0, acc, d)->Ok_0;
            lemma_details_keep_direction(s, kids, i + 1, next, d);
        } else {
            lemma_details_keep_direction(s, kids, i + 1, acc, d);
        }
    }
}

/// Parts of a relationship pattern leave its direction alone.
proof fn lemma_parts_keep_direction(
    s: Seq<char>,
    kids: Seq<PairView>,
    i: int,
    acc: RelPatternView,
    d: nat,
)
    requires
        0 <= i <= kids.len(),
        meaning::rel_from(s, kids, i, acc, d) is Ok,
    ensures
        meaning::rel_from(s, kids, i, acc, d)->Ok_0.direction == acc.direction,
    decreases kids.len() - i,
{
    if i < kids.len() {
        let k = kids[i];
        match k.rule {
            Rule::Ident => {
                lemma_parts_keep_direction(
                    s,
                    kids,
                    i + 1,
                    RelPatternView { variable: Some(meaning::name(s, k)), ..acc },
                    d,
                );
            },
            Rule::RelTypeSpec => {
                lemma_parts_keep_direction(
                    s,
                    kids,
                    i + 1,
                    RelPatternView {
                        rel_types: meaning::with_types(
                            acc.rel_types,
                            s,
                            k.children,
                            k.children.len() as int,
                        ),
                        ..acc
                    },
                    d,
                );
            },
            Rule::PropertyMap => {
                let x = meaning::property_map(s, k, d)->Ok_0;
                lemma_parts_keep_direction(
                    s,
                    kids,
                    i + 1,
                    RelPatternView { properties: x, ..acc },
                    d,
                );
            },
            Rule::VarLength => {
                let (range, x) = meaning::var_length(s, k, d)->Ok_0;
                lemma_parts_keep_direction(
                    s,
                    kids,
                    i + 1,
                    RelPatternView {
                        var_length: Some(range),
                        properties: meaning::extended(acc.properties, x, x.len() as int),
                        ..acc
                    },
                    d,
                );
            },
            _ => {
                lemma_parts_keep_direction(s, kids, i + 1, acc, d);
            },
        }
    }
}

/// A slice goes from the expression before its dots to the one behind them; what is not written
/// is left open.
pub proof fn a_slice_reads_as_written(
    s: Seq<char>,
    base: ExprView,
    span: crate::types::Span,
    kids: Seq<PairView>,
    d: nat,
)
    requires
        kids.len() == 1,
        meaning::subscript_inner(s, base, span, kids, d) is Ok,
    ensures
        ({
            let e = meaning::subscript_inner(s, base, span, kids, d)->Ok_0;
            let inner = kids[0].children;
            &&& kids[0].rule == Rule::Expr ==> (e.kind matches ExprKindView::Index { expr, index }
                && *expr == base && meaning::expr(s, kids[0], d) == Ok::<ExprView, ErrorView>(
                *index,
            ))
            &&& kids[0].rule == Rule::SliceFull && inner.len() == 2 && inner[0].rule == Rule::Expr
                && inner[1].rule == Rule::Expr ==> (e.kind matches ExprKindView::Slice {
                expr,
                start: Some(a),
                end: Some(b),
            } && *expr == base && meaning::expr(s, inner[0], d) == Ok::<ExprView, ErrorView>(*a)
                && meaning::expr(s, inner[1], d) == Ok::<ExprView, ErrorView>(*b))
            &&& kids[0].rule == Rule::SliceFrom && inner.len() == 1 && inner[0].rule == Rule::Expr
                ==> (e.kind matches ExprKindView::Slice { expr, start: Some(a), end: None } && *expr
                == base && meaning::expr(s, inner[0], d) == Ok::<ExprView, ErrorView>(*a))
            &&& kids[0].rule == Rule::SliceTo && inner.len() == 1 && inner[0].rule == Rule::Expr
                ==> (e.kind matches ExprKindView::Slice { expr, start: None, end: Some(b) } && *expr
                == base && meaning::expr(s, inner[0], d) == Ok::<ExprView, ErrorView>(*b))
        }),
{
    let inner = kids[0].children;
    if inner.len() > 0 && inner[0].rule == Rule::Expr {
        assert(meaning::first_place(inner, Rule::Expr, 0) == 0);
        if inner.len() == 2 && inner[1].rule == Rule::Expr {
            assert(meaning::first_place(inner, Rule::Expr, 1) == 1);
        }
    }
}

/// A minus before an operand means nought less the operand.
pub proof fn a_minus_means_less(s: Seq<char>, p: PairView, d: nat)
    requires
        p.rule == Rule::UnaryMinusExpr,
        p.children.len() > 0,
        meaning::atom(s, p.children[0], d) is Ok,
    ensures
        meaning::atom(s, p, d) matches Ok(e) && e.kind matches ExprKindView::BinaryOp {
            left,
            op,
            right,
        } && left.kind == ExprKindView::Literal(LiteralValueView::I64(0)) && op == BinOp::Sub
            && *right == meaning::atom(s, p.children[0], d)->Ok_0,
{
}

/// A property of a variable is read as the variable and the property, in that order.
pub proof fn a_property_reads_as_written(s: Seq<char>, p: PairView, d: nat)
    requires
        p.rule == Rule::PropertyAccess,
        p.children.len() >= 2,
    ensures
        meaning::atom(s, p, d) matches Ok(e) && e.kind == ExprKindView::Property(
            meaning::name(s, p.children[0]),
            meaning::name(s, p.children[1]),
        ),
{
}

/// A RETURN clause is distinct where the word is written.
pub proof fn return_is_distinct_where_written(s: Seq<char>, p: PairView, d: nat)
    requires
        meaning::return_clause(s, p, d) is Ok,
    ensures
        meaning::return_clause(s, p, d)->Ok_0.distinct <==> exists|i: int|
            0 <= i < p.children.len() && (#[trigger] p.children[i]).rule == Rule::DistinctKeyword,
{
    let n = p.children.len() as int;
    reading_laws::each_node_of_a_rule_counts(p.children, Rule::DistinctKeyword, n);
    assert(p.children.take(n) =~= p.children);
    let f = of_rule(Rule::DistinctKeyword);
    let fit = p.children.filter(f);
    if fit.len() > 0 {
        p.children.lemma_filter_contains_rev(f, fit[0]);
        let i = choose|i: int| 0 <= i < n && p.children[i] == fit[0];
        p.children.lemma_filter_pred(f, 0);
        assert(p.children[i].rule == Rule::DistinctKeyword);
    }
    if exists|i: int|
        0 <= i < p.children.len() && (#[trigger] p.children[i]).rule == Rule::DistinctKeyword {
        let i = choose|i: int|
            0 <= i < p.children.len() && (#[trigger] p.children[i]).rule == Rule::DistinctKeyword;
        assert(f(p.children[i]));
        p.children.lemma_filter_contains(f, i);
    }
}

/// An item is its expression, under the name that AS gives it.
pub proof fn an_item_reads_as_written(s: Seq<char>, kids: Seq<PairView>, d: nat)
    requires
        1 <= kids.len() <= 2,
        kids[0].rule == Rule::Expr,
        kids.len() == 2 ==> kids[1].rule == Rule::Alias && kids[1].children.len() == 1
            && kids[1].children[0].rule == Rule::Ident,
        meaning::expr(s, kids[0], d) is Ok,
    ensures
        meaning::item_from(s, kids, 0, None, None, d) matches Ok(x) && x.expr == meaning::expr(
            s,
            kids[0],
            d,
        )->Ok_0 && x.alias == (if kids.len() == 2 {
            Some(meaning::name(s, kids[1].children[0]))
        } else {
            None
        }),
{
    let x = meaning::expr(s, kids[0], d)->Ok_0;
    assert(meaning::item_from(s, kids, 0, None, None, d) == meaning::item_from(
        s,
        kids,
        1,
        Some(x),
        None,
        d,
    ));
    if kids.len() == 2 {
        reading_laws::the_last_of_a_rule_is_last(kids[1].children, Rule::Ident, 1);
        let a = Some(meaning::name(s, kids[1].children[0]));
        assert(meaning::alias_of(s, kids[1].children, None) == a);
        assert(meaning::item_from(s, kids, 1, Some(x), None, d) == meaning::item_from(
            s,
            kids,
            2,
            Some(x),
            a,
            d,
        ));
    }
}

/// The arguments of a call: with one more at the end it has that one more, and it is distinct
/// where the word is written.
pub proof fn a_call_grows(
    s: Seq<char>,
    kids: Seq<PairView>,
    i: int,
    acc: ArgsView,
    k: PairView,
    d: nat,
)
    requires
        0 <= i <= kids.len(),
    ensures
        meaning::args_from(s, kids.push(k), i, acc, d) == (match meaning::args_from(
            s,
            kids,
            i,
            acc,
            d,
        ) {
            Err(e) => Err(e),
            Ok(x) => match k.rule {
                Rule::Star => Ok(
                    ArgsView { args: x.args.push(meaning::at(s, k, ExprKindView::Star)), ..x },
                ),
                Rule::DistinctKeyword => Ok(ArgsView { distinct: true, ..x }),
                Rule::ExprList => match meaning::exprs_from(s, k.children, 0, x.args, d) {
                    Err(e) => Err(e),
                    Ok(xs) => Ok(ArgsView { args: xs, ..x }),
                },
                Rule::Expr => match meaning::expr(s, k, d) {
                    Err(e) => Err(e),
                    Ok(y) => Ok(ArgsView { args: x.args.push(y), ..x }),
                },
                _ => Ok(x),
            },
        }),
    decreases kids.len() - i,
{
    let all = kids.push(k);
    if i == kids.len() {
        assert(all[i] == k);
        assert(forall|x: ArgsView| meaning::args_from(s, all, i + 1, x, d) == Ok::<
            ArgsView,
            ErrorView,
        >(x));
    } else {
        assert(all[i] == kids[i]);
        match kids[i].rule {
            Rule::Star => {
                a_call_grows(
                    s,
                    kids,
                    i + 1,
                    ArgsView {
                        args: acc.args.push(meaning::at(s, kids[i], ExprKindView::Star)),
                        ..acc
                    },
                    k,
                    d,
                );
            },
            Rule::DistinctKeyword => {
                a_call_grows(s, kids, i + 1, ArgsView { distinct: true, ..acc }, k, d);
            },
            Rule::ExprList => {
                if let Ok(xs) = meaning::exprs_from(s, kids[i].children, 0, acc.args, d) {
                    a_call_grows(s, kids, i + 1, ArgsView { args: xs, ..acc }, k, d);
                }
            },
            Rule::Expr => {
                if let Ok(x) = meaning::expr(s, kids[i], d) {
                    a_call_grows(s, kids, i + 1, ArgsView { args: acc.args.push(x), ..acc }, k, d);
                }
            },
            _ => {
                a_call_grows(s, kids, i + 1, acc, k, d);
            },
        }
    }
}

} // verus!
