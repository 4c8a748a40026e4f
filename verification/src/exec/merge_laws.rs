//! MERGE finds what its pattern describes, creates it where there is none, and finds what it
//! created.
use super::flow;
use super::flow_laws;
use crate::assoc;
use crate::ast::{Expr, NodePattern, RelPattern};
use crate::ast_model;
use crate::exec::change::ChangeView;
use crate::exec::merge;
use crate::exec::merge::{CandidatesView, FoundView};
use crate::exec::merge_rel;
use crate::exec::merge_rel::RelFoundView;
use crate::order;
use crate::record::Row;
use crate::row_laws;
use crate::source::Model;
use crate::types::{ErrorView, NodeId};
use crate::value::{NodeView, ValueView};
use vstd::prelude::*;

verus! {

/// Each property has a name of its own.
proof fn lemma_wanted_distinct(s: Seq<(String, Expr)>, rec: Row, m: Model)
    ensures
        merge::wanted(s, rec, m) matches Ok(want) ==> assoc::distinct(assoc::keys(want)),
    decreases s.len(),
{
    if s.len() > 0 {
        lemma_wanted_distinct(s.drop_last(), rec, m);
        match (merge::wanted(s.drop_last(), rec, m), (m.eval)(s.last().1@, rec)) {
            (Ok(p), Ok(v)) => {
                assoc::binding_keeps_keys_distinct(p, s.last().0@, v);
            },
            _ => {},
        }
    } else {
        assert(assoc::keys(Row::empty()).len() == 0);
    }
}

/// Each value equals itself. NaN does not, nor does what holds it.
pub open spec fn equal_to_themselves(row: Row) -> bool {
    forall|i: int| 0 <= i < row.len() ==> order::same((#[trigger] row[i]).1, row[i].1)
}

/// Properties hold their own values.
proof fn lemma_has_own(want: Row)
    requires
        assoc::distinct(assoc::keys(want)),
        equal_to_themselves(want),
    ensures
        merge::has_props(want, want),
{
    let ks = assoc::keys(want);
    assert forall|i: int| 0 <= i < want.len() implies (match assoc::lookup(
        want,
        (#[trigger] want[i]).0,
    ) {
        Some(v) => order::same(v, want[i].1),
        None => false,
    }) by {
        assert(ks[i] == want[i].0);
        assoc::lemma_place_is(ks, want[i].0, i);
    }
}

/// What one item gives is among what all give.
proof fn lemma_each_has<T, U>(
    s: Seq<T>,
    f: spec_fn(T) -> Result<Seq<U>, ErrorView>,
    i: int,
    x: U,
)
    requires
        0 <= i < s.len(),
        forall|j: int| 0 <= j < s.len() ==> f(#[trigger] s[j]) is Ok,
        f(s[i])->Ok_0.contains(x),
    ensures
        flow::each(s, f) is Ok,
        flow::each(s, f)->Ok_0.contains(x),
    decreases s.len(),
{
    let t = s.drop_last();
    assert forall|j: int| 0 <= j < t.len() implies f(#[trigger] t[j]) is Ok by {
        assert(t[j] == s[j]);
    }
    assert(s.last() == s[s.len() - 1]);
    lemma_each_ok(t, f);
    let a = flow::each(t, f)->Ok_0;
    let b = f(s.last())->Ok_0;
    assert(flow::each(s, f)->Ok_0 == a + b);
    if i < t.len() {
        assert(t[i] == s[i]);
        lemma_each_has(t, f, i, x);
        let k = choose|k: int| 0 <= k < a.len() && a[k] == x;
        assert((a + b)[k] == x);
    } else {
        let k = choose|k: int| 0 <= k < b.len() && b[k] == x;
        assert((a + b)[a.len() + k] == x);
    }
}

/// Where no item fails, all together do not.
proof fn lemma_each_ok<T, U>(s: Seq<T>, f: spec_fn(T) -> Result<Seq<U>, ErrorView>)
    requires
        forall|j: int| 0 <= j < s.len() ==> f(#[trigger] s[j]) is Ok,
    ensures
        flow::each(s, f) is Ok,
    decreases s.len(),
{
    if s.len() > 0 {
        let t = s.drop_last();
        assert forall|j: int| 0 <= j < t.len() implies f(#[trigger] t[j]) is Ok by {
            assert(t[j] == s[j]);
        }
        assert(s.last() == s[s.len() - 1]);
        lemma_each_ok(t, f);
    }
}

/// A node is among the candidates, and each of them can be read.
pub open spec fn listed(n: NodeView, c: Result<CandidatesView, ErrorView>, m: Model) -> bool {
    match c {
        Ok(CandidatesView::Ids(ids)) => {
            &&& forall|i: int| 0 <= i < ids.len() ==> (m.node)(#[trigger] ids[i]) is Ok
            &&& exists|i: int|
                0 <= i < ids.len() && (m.node)(#[trigger] ids[i]) == Ok::<NodeView, ErrorView>(n)
        },
        Ok(CandidatesView::Nodes(nodes)) => nodes.contains(n),
        Err(_) => false,
    }
}

/// A listed node that holds the wanted values is found.
proof fn lemma_matched(n: NodeView, label: Seq<char>, want: Row, m: Model)
    requires
        listed(n, merge::candidates(label, want, m), m),
        merge::has_props(n.properties, want),
    ensures
        merge::matches(label, want, m) is Ok,
        merge::matches(label, want, m)->Ok_0.contains(n),
{
    assert(seq![n].contains(n)) by {
        assert(seq![n][0] == n);
    }
    match merge::candidates(label, want, m) {
        Ok(CandidatesView::Ids(ids)) => {
            let f = |id: NodeId| merge::id_if(id, want, m);
            let i = choose|i: int|
                0 <= i < ids.len() && (m.node)(#[trigger] ids[i]) == Ok::<NodeView, ErrorView>(n);
            assert forall|j: int| 0 <= j < ids.len() implies f(#[trigger] ids[j]) is Ok by {
                assert((m.node)(ids[j]) is Ok);
            }
            assert(f(ids[i]) == merge::node_if(n, want));
            lemma_each_has(ids, f, i, n);
        },
        Ok(CandidatesView::Nodes(nodes)) => {
            let f = |n: NodeView| merge::node_if(n, want);
            let i = choose|i: int| 0 <= i < nodes.len() && nodes[i] == n;
            assert(f(nodes[i]) == merge::node_if(n, want));
            lemma_each_has(nodes, f, i, n);
        },
        Err(_) => {},
    }
}

/// Where a node carries all labels, one is found.
proof fn lemma_labelled(nodes: Seq<NodeView>, labels: Seq<Seq<char>>, n: NodeView)
    requires
        nodes.contains(n),
        merge::has_labels(n, labels),
    ensures
        merge::first_labelled(nodes, labels) is Some,
    decreases nodes.len(),
{
    let i = choose|i: int| 0 <= i < nodes.len() && nodes[i] == n;
    if !merge::has_labels(nodes[0], labels) {
        assert(nodes.drop_first()[i - 1] == n);
        lemma_labelled(nodes.drop_first(), labels, n);
    }
}

/// A MERGE of a node that is made twice creates one node at most: where it called for a node,
/// the same MERGE calls for none in a graph that lists the node. The values of the pattern are
/// the same both times, and each equals itself.
pub proof fn merged_node_is_found_again(p: NodePattern, before: Model, after: Model, n: NodeView)
    requires
        merge::node_merged(p, before) == Ok::<FoundView, ErrorView>(
            FoundView::Missing(
                ChangeView::AddNode { labels: n.labels, properties: n.properties },
            ),
        ),
        merge::wanted(p.properties.entries@, Row::empty(), after) == merge::wanted(
            p.properties.entries@,
            Row::empty(),
            before,
        ),
        equal_to_themselves(n.properties),
        listed(
            n,
            merge::candidates(
                merge::first_label(ast_model::texts(p.labels@)),
                n.properties,
                after,
            ),
            after,
        ),
    ensures
        merge::node_merged(p, after) matches Ok(FoundView::Nodes(ids)) && ids.len() == 1,
{
    let labels = ast_model::texts(p.labels@);
    lemma_wanted_distinct(p.properties.entries@, Row::empty(), before);
    lemma_has_own(n.properties);
    lemma_matched(n, merge::first_label(labels), n.properties, after);
    assert(merge::has_labels(n, labels)) by {
        assert forall|i: int| 0 <= i < labels.len() implies n.labels.contains(
            #[trigger] labels[i],
        ) by {}
    }
    lemma_labelled(
        merge::matches(merge::first_label(labels), n.properties, after)->Ok_0,
        labels,
        n,
    );
}

/// The same of a MERGE for a row: the node that it called for is among those that it finds.
pub proof fn merged_row_is_found_again(
    p: NodePattern,
    rec: Row,
    before: Model,
    after: Model,
    n: NodeView,
)
    requires
        merge::row_merged(p, rec, before) == Ok::<FoundView, ErrorView>(
            FoundView::Missing(
                ChangeView::AddNode { labels: n.labels, properties: n.properties },
            ),
        ),
        merge::wanted(p.properties.entries@, rec, after) == merge::wanted(
            p.properties.entries@,
            rec,
            before,
        ),
        equal_to_themselves(n.properties),
        listed(
            n,
            merge::candidates(
                merge::first_label(ast_model::texts(p.labels@)),
                n.properties,
                after,
            ),
            after,
        ),
    ensures
        merge::row_merged(p, rec, after) matches Ok(FoundView::Nodes(ids)) && ids.contains(n.id),
{
    let label = merge::first_label(ast_model::texts(p.labels@));
    lemma_wanted_distinct(p.properties.entries@, rec, before);
    lemma_has_own(n.properties);
    lemma_matched(n, label, n.properties, after);
    let nodes = merge::matches(label, n.properties, after)->Ok_0;
    let i = choose|i: int| 0 <= i < nodes.len() && nodes[i] == n;
    assert(merge::node_ids(nodes)[i] == n.id);
}

/// A MERGE of a relationship between two nodes that is made twice creates one at most: where
/// it called for a relationship, the same MERGE calls for none in a graph that has it.
pub proof fn merged_edge_is_found_again(
    rel: RelPattern,
    src: NodeId,
    dst: NodeId,
    properties: Row,
    before: Model,
    after: Model,
)
    requires
        merge_rel::edge_merged(rel, src, dst, before) == Ok::<Option<ChangeView>, ErrorView>(
            Some(merge_rel::new_edge(src, dst, merge_rel::rel_type(rel), properties)),
        ),
        merge::wanted(rel.properties.entries@, Row::empty(), after) == merge::wanted(
            rel.properties.entries@,
            Row::empty(),
            before,
        ),
        equal_to_themselves(properties),
        (after.edge_exists)(src, dst, merge_rel::rel_type(rel)) == Ok::<bool, ErrorView>(true),
        (after.edge_properties)(src, dst, merge_rel::rel_type(rel)) == Ok::<Row, ErrorView>(
            properties,
        ),
    ensures
        merge_rel::edge_merged(rel, src, dst, after) == Ok::<Option<ChangeView>, ErrorView>(None),
{
    lemma_wanted_distinct(rel.properties.entries@, Row::empty(), before);
    lemma_has_own(properties);
}

/// A relationship that holds the wanted values is among the hits.
proof fn lemma_hit(src: NodeId, dst: NodeId, all: Seq<(u64, Row)>, want: Row, i: int)
    requires
        0 <= i < all.len(),
        merge::has_props(all[i].1, want),
    ensures
        merge_rel::hits(src, dst, all, want).contains((src, dst, all[i].0)),
    decreases all.len(),
{
    let t = all.drop_last();
    let hits = merge_rel::hits(src, dst, all, want);
    if i < t.len() {
        lemma_hit(src, dst, t, want, i);
        let so_far = merge_rel::hits(src, dst, t, want);
        let k = choose|k: int| 0 <= k < so_far.len() && so_far[k] == (src, dst, t[i].0);
        assert(hits[k] == (src, dst, all[i].0));
    } else {
        assert(hits.last() == (src, dst, all[i].0));
    }
}

/// The same of a MERGE of a relationship for a row: the relationship that it called for is
/// among those that it finds.
pub proof fn merged_row_edge_is_found_again(
    rec: Row,
    src_var: Seq<char>,
    rel: RelPattern,
    dst_var: Seq<char>,
    src: NodeId,
    dst: NodeId,
    all: Seq<(u64, Row)>,
    i: int,
    before: Model,
    after: Model,
)
    requires
        0 <= i < all.len(),
        merge_rel::row_rel_merged(rec, src_var, rel, dst_var, before) == Ok::<
            RelFoundView,
            ErrorView,
        >(
            RelFoundView::Missing(
                merge_rel::new_edge(src, dst, merge_rel::rel_type(rel), all[i].1),
            ),
        ),
        merge::wanted(rel.properties.entries@, rec, after) == merge::wanted(
            rel.properties.entries@,
            rec,
            before,
        ),
        equal_to_themselves(all[i].1),
        (after.all_edge_props)(src, dst, merge_rel::rel_type(rel)) == Ok::<
            Seq<(u64, Row)>,
            ErrorView,
        >(all),
        (after.all_edge_props)(dst, src, merge_rel::rel_type(rel)) is Ok,
    ensures
        merge_rel::row_rel_merged(rec, src_var, rel, dst_var, after) matches Ok(
            RelFoundView::Edges(hits),
        ) && hits.contains((src, dst, all[i].0)),
{
    let want = all[i].1;
    lemma_wanted_distinct(rel.properties.entries@, rec, before);
    lemma_has_own(want);
    lemma_hit(src, dst, all, want, i);
    let there = merge_rel::hits(src, dst, all, want);
    let k = choose|k: int| 0 <= k < there.len() && there[k] == (src, dst, all[i].0);
    match merge_rel::row_rel_merged(rec, src_var, rel, dst_var, after) {
        Ok(RelFoundView::Edges(hits)) => {
            assert(hits[k] == (src, dst, all[i].0));
        },
        _ => {},
    }
}

/// No later entry has the key of this one.
pub open spec fn decides(s: Seq<(String, Expr)>, i: int) -> bool {
    0 <= i < s.len() && forall|j: int| i < j < s.len() ==> (#[trigger] s[j]).0@ != s[i].0@
}

/// Properties hold what a pattern asks for on a row: under each key of the pattern, a value that
/// equals the one that the pattern gives for the key, which is not null.
pub open spec fn match_pattern(props: Row, s: Seq<(String, Expr)>, rec: Row, m: Model) -> bool {
    forall|i: int| #[trigger]
        decides(s, i) ==> ((m.eval)(s[i].1@, rec) matches Ok(v) && !(v is Null) && (assoc::lookup(
            props,
            s[i].0@,
        ) matches Some(w) && order::same(w, v)))
}

/// Properties are what a pattern gives on a row: under each key of the pattern, its value.
pub open spec fn given_by_pattern(props: Row, s: Seq<(String, Expr)>, rec: Row, m: Model) -> bool {
    forall|i: int| #[trigger]
        decides(s, i) ==> ((m.eval)(s[i].1@, rec) matches Ok(v) && !(v is Null) && assoc::lookup(
            props,
            s[i].0@,
        ) == Some(v))
}

/// Some entry decides for each key that occurs.
proof fn lemma_decided(s: Seq<(String, Expr)>, i: int) -> (k: int)
    requires
        0 <= i < s.len(),
    ensures
        decides(s, k),
        s[k].0@ == s[i].0@,
    decreases s.len() - i,
{
    if decides(s, i) {
        i
    } else {
        let j = choose|j: int| i < j < s.len() && (#[trigger] s[j]).0@ == s[i].0@;
        lemma_decided(s, j)
    }
}

/// What is wanted is what the pattern gives, and nothing else is wanted.
proof fn lemma_wanted_given(s: Seq<(String, Expr)>, rec: Row, m: Model)
    requires
        merge::wanted(s, rec, m) is Ok,
    ensures
        given_by_pattern(merge::wanted(s, rec, m)->Ok_0, s, rec, m),
        forall|k: Seq<char>| #[trigger]
            assoc::lookup(merge::wanted(s, rec, m)->Ok_0, k) is Some ==> exists|i: int|
                decides(s, i) && (#[trigger] s[i]).0@ == k,
    decreases s.len(),
{
    let want = merge::wanted(s, rec, m)->Ok_0;
    if s.len() > 0 {
        let t = s.drop_last();
        lemma_wanted_given(t, rec, m);
        let so_far = merge::wanted(t, rec, m)->Ok_0;
        let key = s.last().0@;
        let v = (m.eval)(s.last().1@, rec)->Ok_0;
        assert forall|i: int| #[trigger] decides(s, i) implies ((m.eval)(s[i].1@, rec) matches Ok(
            v,
        ) && !(v is Null) && assoc::lookup(want, s[i].0@) == Some(v)) by {
            assoc::lemma_lookup_put(so_far, key, v, s[i].0@);
            if i < t.len() {
                assert(s[s.len() - 1].0@ != s[i].0@);
                assert(decides(t, i)) by {
                    assert forall|j: int| i < j < t.len() implies (#[trigger] t[j]).0@
                        != t[i].0@ by {
                        assert(s[j].0@ != s[i].0@);
                    }
                }
                assert(t[i] == s[i]);
            }
        }
        assert forall|k: Seq<char>| #[trigger] assoc::lookup(want, k) is Some implies exists|
            i: int,
        |
            decides(s, i) && (#[trigger] s[i]).0@ == k by {
            assoc::lemma_lookup_put(so_far, key, v, k);
            if k == key {
                assert(decides(s, s.len() - 1));
                assert(s[s.len() - 1].0@ == k);
            } else {
                let i = choose|i: int| decides(t, i) && (#[trigger] t[i]).0@ == k;
                assert(s[i] == t[i]);
                let j = lemma_decided(s, i);
                assert(s[j].0@ == k);
            }
        }
    } else {
        assert forall|k: Seq<char>| #[trigger] assoc::lookup(want, k) is None by {
            row_laws::only_bound_names_read(want, k);
        }
    }
}

/// Holding what is wanted is holding what the pattern asks for.
proof fn lemma_pattern_held(props: Row, s: Seq<(String, Expr)>, rec: Row, m: Model)
    requires
        merge::wanted(s, rec, m) is Ok,
    ensures
        merge::has_props(props, merge::wanted(s, rec, m)->Ok_0) <==> match_pattern(
            props,
            s,
            rec,
            m,
        ),
{
    let want = merge::wanted(s, rec, m)->Ok_0;
    lemma_wanted_given(s, rec, m);
    if merge::has_props(props, want) {
        assert forall|i: int| #[trigger] decides(s, i) implies ((m.eval)(s[i].1@, rec) matches Ok(
            v,
        ) && !(v is Null) && (assoc::lookup(props, s[i].0@) matches Some(w) && order::same(
            w,
            v,
        ))) by {
            let v = (m.eval)(s[i].1@, rec)->Ok_0;
            row_laws::only_bound_names_read(want, s[i].0@);
            let e = (s[i].0@, v);
            let j = choose|j: int| 0 <= j < want.len() && want[j] == e;
            assert(want[j].0 == s[i].0@);
        }
    }
    if match_pattern(props, s, rec, m) {
        assert forall|j: int| 0 <= j < want.len() implies (match assoc::lookup(
            props,
            (#[trigger] want[j]).0,
        ) {
            Some(v) => order::same(v, want[j].1),
            None => false,
        }) by {
            lemma_wanted_distinct(s, rec, m);
            let ks = assoc::keys(want);
            assert forall|k: int| 0 <= k < j implies (#[trigger] want[k]).0 != want[j].0 by {
                assert(ks[k] != ks[j]);
            }
            row_laws::the_first_entry_of_a_name_is_read(want, j);
            let i = choose|i: int| decides(s, i) && (#[trigger] s[i]).0@ == want[j].0;
            assert(decides(s, i));
        }
    }
}

/// The node is one that the graph holds: it is listed under the label, or it is read by its id.
pub open spec fn in_graph(n: NodeView, label: Seq<char>, m: Model) -> bool {
    ||| (m.nodes_by_label)(label) matches Ok(nodes) && nodes.contains(n)
    ||| exists|id: NodeId| #[trigger] (m.node)(id) == Ok::<NodeView, ErrorView>(n)
}

/// The nodes that a search finds are in the graph and hold what is wanted.
proof fn lemma_matches_hold(label: Seq<char>, want: Row, m: Model, n: NodeView)
    requires
        merge::matches(label, want, m) is Ok,
        merge::matches(label, want, m)->Ok_0.contains(n),
    ensures
        in_graph(n, label, m),
        merge::has_props(n.properties, want),
{
    match merge::candidates(label, want, m) {
        Ok(CandidatesView::Ids(ids)) => {
            let f = |id: NodeId| merge::id_if(id, want, m);
            flow_laws::nothing_is_made_up(ids, f, n);
            let i = choose|i: int|
                0 <= i < ids.len() && f(#[trigger] ids[i]) is Ok && f(ids[i])->Ok_0.contains(n);
            let found = (m.node)(ids[i])->Ok_0;
            assert(f(ids[i]) == merge::node_if(found, want));
            assert((m.node)(ids[i]) == Ok::<NodeView, ErrorView>(found));
        },
        Ok(CandidatesView::Nodes(nodes)) => {
            let f = |x: NodeView| merge::node_if(x, want);
            flow_laws::nothing_is_made_up(nodes, f, n);
            let i = choose|i: int|
                0 <= i < nodes.len() && f(#[trigger] nodes[i]) is Ok && f(nodes[i])->Ok_0.contains(
                    n,
                );
            assert(f(nodes[i]) == merge::node_if(nodes[i], want));
            assert(nodes.contains(n));
        },
        Err(_) => {},
    }
}

/// The first node with all labels is one of the nodes, and has them.
proof fn lemma_first_labelled(nodes: Seq<NodeView>, labels: Seq<Seq<char>>)
    ensures
        merge::first_labelled(nodes, labels) matches Some(n) ==> nodes.contains(n)
            && merge::has_labels(n, labels),
    decreases nodes.len(),
{
    if nodes.len() > 0 && !merge::has_labels(nodes[0], labels) {
        let t = nodes.drop_first();
        lemma_first_labelled(t, labels);
        match merge::first_labelled(nodes, labels) {
            Some(n) => {
                let i = choose|i: int| 0 <= i < t.len() && t[i] == n;
                assert(nodes[i + 1] == n);
            },
            None => {},
        }
    }
}

/// What a MERGE of a node on its own finds is what its pattern describes: one node of the graph
/// that carries every label of the pattern and holds every property of it.
pub proof fn a_found_node_matches_the_pattern(p: NodePattern, m: Model, ids: Seq<NodeId>)
    requires
        merge::node_merged(p, m) == Ok::<FoundView, ErrorView>(FoundView::Nodes(ids)),
    ensures
        ids.len() == 1,
        exists|n: NodeView|
            {
                &&& n.id == ids[0]
                &&& #[trigger] match_pattern(n.properties, p.properties.entries@, Row::empty(), m)
                &&& forall|i: int|
                    0 <= i < p.labels@.len() ==> n.labels.contains((#[trigger] p.labels@[i])@)
                &&& in_graph(
                    n,
                    if p.labels@.len() > 0 {
                        p.labels@[0]@
                    } else {
                        ""@
                    },
                    m,
                )
            },
{
    let labels = ast_model::texts(p.labels@);
    let want = merge::wanted(p.properties.entries@, Row::empty(), m)->Ok_0;
    let label = merge::first_label(labels);
    let nodes = merge::matches(label, want, m)->Ok_0;
    lemma_first_labelled(nodes, labels);
    let n = merge::first_labelled(nodes, labels)->0;
    lemma_matches_hold(label, want, m, n);
    lemma_pattern_held(n.properties, p.properties.entries@, Row::empty(), m);
    assert forall|i: int| 0 <= i < p.labels@.len() implies n.labels.contains(
        (#[trigger] p.labels@[i])@,
    ) by {
        assert(labels[i] == p.labels@[i]@);
    }
    assert(match_pattern(n.properties, p.properties.entries@, Row::empty(), m));
}

/// What a MERGE of a node for a row finds are nodes that its pattern describes: each is in the
/// graph and holds every property that the pattern gives on the row.
pub proof fn found_nodes_match_the_pattern(
    p: NodePattern,
    rec: Row,
    m: Model,
    ids: Seq<NodeId>,
    i: int,
)
    requires
        merge::row_merged(p, rec, m) == Ok::<FoundView, ErrorView>(FoundView::Nodes(ids)),
        0 <= i < ids.len(),
    ensures
        exists|n: NodeView|
            {
                &&& n.id == ids[i]
                &&& #[trigger] match_pattern(n.properties, p.properties.entries@, rec, m)
                &&& in_graph(
                    n,
                    if p.labels@.len() > 0 {
                        p.labels@[0]@
                    } else {
                        ""@
                    },
                    m,
                )
            },
{
    let labels = ast_model::texts(p.labels@);
    let want = merge::wanted(p.properties.entries@, rec, m)->Ok_0;
    let label = merge::first_label(labels);
    let nodes = merge::matches(label, want, m)->Ok_0;
    let n = nodes[i];
    assert(nodes.contains(n));
    lemma_matches_hold(label, want, m, n);
    lemma_pattern_held(n.properties, p.properties.entries@, rec, m);
    assert(match_pattern(n.properties, p.properties.entries@, rec, m));
}

/// What is found first is in the graph and holds what is wanted.
proof fn lemma_first_holds(label: Seq<char>, want: Row, m: Model)
    ensures
        merge::first_match(label, want, m) matches Ok(Some(n)) ==> in_graph(n, label, m)
            && merge::has_props(n.properties, want),
{
    match merge::candidates(label, want, m) {
        Ok(CandidatesView::Ids(ids)) => {
            lemma_first_of_ids(ids, want, m);
        },
        Ok(CandidatesView::Nodes(nodes)) => {
            lemma_first_of_nodes(nodes, want);
        },
        Err(_) => {},
    }
}

/// The first of some ids.
proof fn lemma_first_of_ids(ids: Seq<NodeId>, want: Row, m: Model)
    ensures
        merge::first_of_ids(ids, want, m) matches Ok(Some(n)) ==> merge::has_props(
            n.properties,
            want,
        ) && exists|id: NodeId| #[trigger] (m.node)(id) == Ok::<NodeView, ErrorView>(n),
    decreases ids.len(),
{
    if ids.len() > 0 {
        lemma_first_of_ids(ids.drop_first(), want, m);
        assert((m.node)(ids[0]) == (m.node)(ids[0]));
    }
}

/// The first of some nodes.
proof fn lemma_first_of_nodes(nodes: Seq<NodeView>, want: Row)
    ensures
        merge::first_of_nodes(nodes, want) matches Some(n) ==> merge::has_props(
            n.properties,
            want,
        ) && nodes.contains(n),
        merge::first_of_nodes(nodes, want) is None ==> forall|i: int|
            0 <= i < nodes.len() ==> !merge::has_props((#[trigger] nodes[i]).properties, want),
    decreases nodes.len(),
{
    if nodes.len() > 0 {
        let t = nodes.drop_first();
        lemma_first_of_nodes(t, want);
        if !merge::has_props(nodes[0].properties, want) {
            match merge::first_of_nodes(t, want) {
                Some(n) => {
                    let i = choose|i: int| 0 <= i < t.len() && t[i] == n;
                    assert(nodes[i + 1] == n);
                },
                None => {
                    assert forall|i: int| 0 <= i < nodes.len() implies !merge::has_props(
                        (#[trigger] nodes[i]).properties,
                        want,
                    ) by {
                        if i > 0 {
                            assert(t[i - 1] == nodes[i]);
                        }
                    }
                },
            }
        } else {
            assert(nodes[0] == nodes[0]);
        }
    }
}

/// What the MERGE of an end of a relationship finds is a node of the graph that holds every
/// property of its pattern.
pub proof fn a_found_end_matches_the_pattern(p: NodePattern, m: Model, ids: Seq<NodeId>)
    requires
        merge::end_merged(p, m) == Ok::<FoundView, ErrorView>(FoundView::Nodes(ids)),
    ensures
        ids.len() == 1,
        exists|n: NodeView|
            {
                &&& n.id == ids[0]
                &&& #[trigger] match_pattern(n.properties, p.properties.entries@, Row::empty(), m)
                &&& in_graph(
                    n,
                    if p.labels@.len() > 0 {
                        p.labels@[0]@
                    } else {
                        ""@
                    },
                    m,
                )
            },
{
    let label = merge::first_label(ast_model::texts(p.labels@));
    let want = merge::wanted(p.properties.entries@, Row::empty(), m)->Ok_0;
    lemma_first_holds(label, want, m);
    let n = merge::first_match(label, want, m)->Ok_0->0;
    lemma_pattern_held(n.properties, p.properties.entries@, Row::empty(), m);
    assert(match_pattern(n.properties, p.properties.entries@, Row::empty(), m));
}

/// A MERGE that creates a node creates what its pattern describes: a node with the labels and
/// the properties of the pattern.
pub proof fn a_created_node_matches_the_pattern(
    p: NodePattern,
    rec: Row,
    m: Model,
    labels: Seq<Seq<char>>,
    props: Row,
)
    ensures
        merge::node_merged(p, m) == Ok::<FoundView, ErrorView>(
            FoundView::Missing(ChangeView::AddNode { labels, properties: props }),
        ) ==> {
            &&& given_by_pattern(props, p.properties.entries@, Row::empty(), m)
            &&& labels.len() == p.labels@.len()
            &&& forall|i: int| 0 <= i < labels.len() ==> #[trigger] labels[i] == p.labels@[i]@
        },
        merge::end_merged(p, m) == Ok::<FoundView, ErrorView>(
            FoundView::Missing(ChangeView::AddNode { labels, properties: props }),
        ) ==> {
            &&& given_by_pattern(props, p.properties.entries@, Row::empty(), m)
            &&& p.labels@.len() > 0 && p.labels@[0]@.len() > 0 ==> labels == seq![p.labels@[0]@]
        },
        merge::row_merged(p, rec, m) == Ok::<FoundView, ErrorView>(
            FoundView::Missing(ChangeView::AddNode { labels, properties: props }),
        ) ==> {
            &&& given_by_pattern(props, p.properties.entries@, rec, m)
            &&& p.labels@.len() > 0 && p.labels@[0]@.len() > 0 ==> labels == seq![p.labels@[0]@]
        },
        merge::node_merged(p, m) matches Ok(FoundView::Missing(c)) ==> c is AddNode,
        merge::end_merged(p, m) matches Ok(FoundView::Missing(c)) ==> c is AddNode,
        merge::row_merged(p, rec, m) matches Ok(FoundView::Missing(c)) ==> c is AddNode,
{
    let s = p.properties.entries@;
    if merge::wanted(s, Row::empty(), m) is Ok {
        lemma_wanted_given(s, Row::empty(), m);
    }
    if merge::wanted(s, rec, m) is Ok {
        lemma_wanted_given(s, rec, m);
    }
}

/// A MERGE creates nothing that is there: where no index is asked, and a node that is listed
/// under the label of the pattern carries its labels and holds its properties, the MERGE finds.
pub proof fn what_is_there_is_found(p: NodePattern, rec: Row, m: Model, nodes: Seq<NodeView>, n: NodeView)
    requires
        (m.indexes)(
            if p.labels@.len() > 0 {
                p.labels@[0]@
            } else {
                ""@
            },
        ) == Ok::<Seq<Seq<Seq<char>>>, ErrorView>(Seq::empty()),
        (m.nodes_by_label)(
            if p.labels@.len() > 0 {
                p.labels@[0]@
            } else {
                ""@
            },
        ) == Ok::<Seq<NodeView>, ErrorView>(nodes),
        nodes.contains(n),
        forall|i: int| 0 <= i < p.labels@.len() ==> n.labels.contains((#[trigger] p.labels@[i])@),
    ensures
        merge::node_merged(p, m) is Ok && match_pattern(
            n.properties,
            p.properties.entries@,
            Row::empty(),
            m,
        ) ==> merge::node_merged(p, m)->Ok_0 is Nodes,
        merge::end_merged(p, m) is Ok && match_pattern(
            n.properties,
            p.properties.entries@,
            Row::empty(),
            m,
        ) ==> merge::end_merged(p, m)->Ok_0 is Nodes,
        merge::row_merged(p, rec, m) is Ok && match_pattern(
            n.properties,
            p.properties.entries@,
            rec,
            m,
        ) ==> (merge::row_merged(p, rec, m)->Ok_0 matches FoundView::Nodes(ids) && ids.contains(
            n.id,
        )),
{
    let labels = ast_model::texts(p.labels@);
    let label = merge::first_label(labels);
    let s = p.properties.entries@;
    assert(merge::has_labels(n, labels)) by {
        assert forall|i: int| 0 <= i < labels.len() implies n.labels.contains(
            #[trigger] labels[i],
        ) by {
            assert(labels[i] == p.labels@[i]@);
        }
    }
    if merge::wanted(s, Row::empty(), m) is Ok {
        let want = merge::wanted(s, Row::empty(), m)->Ok_0;
        lemma_no_index(want, 0);
        lemma_pattern_held(n.properties, s, Row::empty(), m);
        if merge::has_props(n.properties, want) {
            lemma_matched(n, label, want, m);
            lemma_labelled(merge::matches(label, want, m)->Ok_0, labels, n);
            lemma_first_of_nodes(nodes, want);
            let i = choose|i: int| 0 <= i < nodes.len() && nodes[i] == n;
            assert(merge::has_props(nodes[i].properties, want));
        }
    }
    if merge::wanted(s, rec, m) is Ok {
        let want = merge::wanted(s, rec, m)->Ok_0;
        lemma_no_index(want, 0);
        lemma_pattern_held(n.properties, s, rec, m);
        if merge::has_props(n.properties, want) {
            lemma_matched(n, label, want, m);
            let found = merge::matches(label, want, m)->Ok_0;
            let i = choose|i: int| 0 <= i < found.len() && found[i] == n;
            assert(merge::node_ids(found)[i] == n.id);
        }
    }
}

/// Without indexes none is chosen.
proof fn lemma_no_index(want: Row, i: int)
    requires
        0 <= i,
    ensures
        merge::index_choice(want, Seq::empty(), i) is None,
    decreases want.len() - i,
{
    if i < want.len() {
        lemma_no_index(want, i + 1);
    }
}

/// The type of a MERGE pattern: the first that it names.
pub open spec fn named_type(rel: RelPattern) -> Seq<char> {
    if rel.rel_types@.len() > 0 {
        rel.rel_types@[0]@
    } else {
        ""@
    }
}

/// A MERGE of a relationship between two nodes creates none only where there is one from the
/// one to the other, of the type of the pattern, that holds every property of it; and what it
/// creates has these ends, this type and these properties.
pub proof fn a_found_relationship_matches_the_pattern(
    rel: RelPattern,
    src: NodeId,
    dst: NodeId,
    m: Model,
)
    ensures
        merge_rel::edge_merged(rel, src, dst, m) == Ok::<Option<ChangeView>, ErrorView>(None) ==> {
            &&& (m.edge_exists)(src, dst, named_type(rel)) == Ok::<bool, ErrorView>(true)
            &&& rel.properties.entries@.len() > 0 ==> ((m.edge_properties)(
                src,
                dst,
                named_type(rel),
            ) matches Ok(props) && match_pattern(
                props,
                rel.properties.entries@,
                Row::empty(),
                m,
            ))
        },
        merge_rel::edge_merged(rel, src, dst, m) matches Ok(Some(c)) ==> (c matches
            ChangeView::AddEdge { src: s, dst: d, label, properties } && s == src && d == dst
            && label == named_type(rel) && given_by_pattern(
            properties,
            rel.properties.entries@,
            Row::empty(),
            m,
        )),
        (m.edge_exists)(src, dst, named_type(rel)) == Ok::<bool, ErrorView>(true) && ((
        m.edge_properties)(src, dst, named_type(rel)) matches Ok(props) && match_pattern(
            props,
            rel.properties.entries@,
            Row::empty(),
            m,
        )) ==> !(merge_rel::edge_merged(rel, src, dst, m) matches Ok(Some(_))),
{
    let s = rel.properties.entries@;
    if merge::wanted(s, Row::empty(), m) is Ok {
        let want = merge::wanted(s, Row::empty(), m)->Ok_0;
        lemma_wanted_given(s, Row::empty(), m);
        match (m.edge_properties)(src, dst, named_type(rel)) {
            Ok(props) => {
                lemma_pattern_held(props, s, Row::empty(), m);
            },
            Err(_) => {},
        }
        if want.len() == 0 && s.len() > 0 {
            assert(decides(s, s.len() - 1));
            row_laws::only_bound_names_read(want, s[s.len() - 1].0@);
        }
    }
}

/// The relationships that hold what is wanted are hits, and no others are.
proof fn lemma_hits(src: NodeId, dst: NodeId, all: Seq<(u64, Row)>, want: Row, h: (NodeId, NodeId, u64))
    ensures
        merge_rel::hits(src, dst, all, want).contains(h) <==> h.0 == src && h.1 == dst && exists|
            i: int,
        |
            0 <= i < all.len() && (#[trigger] all[i]).0 == h.2 && merge::has_props(all[i].1, want),
    decreases all.len(),
{
    let hs = merge_rel::hits(src, dst, all, want);
    if all.len() > 0 {
        let t = all.drop_last();
        lemma_hits(src, dst, t, want, h);
        let so_far = merge_rel::hits(src, dst, t, want);
        if hs.contains(h) {
            let k = choose|k: int| 0 <= k < hs.len() && hs[k] == h;
            if k < so_far.len() {
                assert(so_far[k] == h);
                let i = choose|i: int|
                    0 <= i < t.len() && (#[trigger] t[i]).0 == h.2 && merge::has_props(
                        t[i].1,
                        want,
                    );
                assert(all[i] == t[i]);
            } else {
                assert(all[all.len() - 1] == all.last());
            }
        }
        if h.0 == src && h.1 == dst && exists|i: int|
            0 <= i < all.len() && (#[trigger] all[i]).0 == h.2 && merge::has_props(
                all[i].1,
                want,
            ) {
            let i = choose|i: int|
                0 <= i < all.len() && (#[trigger] all[i]).0 == h.2 && merge::has_props(
                    all[i].1,
                    want,
                );
            if i < t.len() {
                assert(t[i] == all[i]);
                let k = choose|k: int| 0 <= k < so_far.len() && so_far[k] == h;
                assert(hs[k] == h);
            } else {
                assert(hs[hs.len() - 1] == h);
            }
        }
    }
}

/// The relationship with a number from one node to another holds what a pattern asks for on a
/// row.
pub open spec fn relationship_matches(
    h: (NodeId, NodeId, u64),
    rel: RelPattern,
    rec: Row,
    m: Model,
) -> bool {
    (m.all_edge_props)(h.0, h.1, named_type(rel)) matches Ok(all) && exists|i: int|
        0 <= i < all.len() && (#[trigger] all[i]).0 == h.2 && match_pattern(
            all[i].1,
            rel.properties.entries@,
            rec,
            m,
        )
}

/// A MERGE of a relationship on a row finds exactly the relationships that its pattern
/// describes: those from the source to the target of the row, and back where the pattern has no
/// direction, of the pattern's type, that hold every property of it. Only where there is none it
/// creates one, with these ends, this type and these properties.
pub proof fn found_relationships_match_the_pattern(
    rec: Row,
    src_var: Seq<char>,
    rel: RelPattern,
    dst_var: Seq<char>,
    m: Model,
    src: i64,
    dst: i64,
    h: (NodeId, NodeId, u64),
)
    requires
        assoc::lookup(rec, src_var) == Some(ValueView::I64(src)),
        assoc::lookup(rec, dst_var) == Some(ValueView::I64(dst)),
        merge_rel::row_rel_merged(rec, src_var, rel, dst_var, m) is Ok,
    ensures
        ({
            let s = NodeId(src as u64);
            let d = NodeId(dst as u64);
            let there = ((h.0 == s && h.1 == d) || (rel.direction is Undirected && h.0 == d && h.1
                == s)) && relationship_matches(h, rel, rec, m);
            match merge_rel::row_rel_merged(rec, src_var, rel, dst_var, m)->Ok_0 {
                RelFoundView::Edges(hits) => hits.contains(h) <==> there,
                RelFoundView::Missing(c) => !there && (c matches ChangeView::AddEdge {
                    src: cs,
                    dst: cd,
                    label,
                    properties,
                } && cs == s && cd == d && label == named_type(rel) && given_by_pattern(
                    properties,
                    rel.properties.entries@,
                    rec,
                    m,
                )),
                RelFoundView::NoEnds => false,
            }
        }),
{
    let s = NodeId(src as u64);
    let d = NodeId(dst as u64);
    let es = rel.properties.entries@;
    let label = named_type(rel);
    let want = merge::wanted(es, rec, m)->Ok_0;
    lemma_wanted_given(es, rec, m);
    let all = (m.all_edge_props)(s, d, label)->Ok_0;
    lemma_hits(s, d, all, want, h);
    if (h.0 == s && h.1 == d) || (rel.direction is Undirected && h.0 == d && h.1 == s) {
        lemma_relationship(h, rel, rec, m, want);
    }
    let there = merge_rel::hits(s, d, all, want);
    if rel.direction is Undirected {
        let round = (m.all_edge_props)(d, s, label)->Ok_0;
        lemma_hits(d, s, round, want, h);
        let back = merge_rel::hits(d, s, round, want);
        lemma_either(there, back, h);
    } else {
        lemma_either(there, Seq::empty(), h);
    }
}

/// What is in one list or the other is in both together.
proof fn lemma_either(a: Seq<(NodeId, NodeId, u64)>, b: Seq<(NodeId, NodeId, u64)>, h: (NodeId, NodeId, u64))
    ensures
        (a + b).contains(h) <==> a.contains(h) || b.contains(h),
        (a + b).len() == 0 ==> !a.contains(h) && !b.contains(h),
{
    if a.contains(h) {
        let k = choose|k: int| 0 <= k < a.len() && a[k] == h;
        assert((a + b)[k] == h);
    }
    if b.contains(h) {
        let k = choose|k: int| 0 <= k < b.len() && b[k] == h;
        assert((a + b)[a.len() + k] == h);
    }
    if (a + b).contains(h) {
        let k = choose|k: int| 0 <= k < (a + b).len() && (a + b)[k] == h;
        if k < a.len() {
            assert(a[k] == h);
        } else {
            assert(b[k - a.len()] == h);
        }
    }
}

/// A relationship that holds what is wanted holds what the pattern asks for.
proof fn lemma_relationship(h: (NodeId, NodeId, u64), rel: RelPattern, rec: Row, m: Model, want: Row)
    requires
        merge::wanted(rel.properties.entries@, rec, m) == Ok::<Row, ErrorView>(want),
        (m.all_edge_props)(h.0, h.1, named_type(rel)) is Ok,
    ensures
        relationship_matches(h, rel, rec, m) <==> exists|i: int|
            0 <= i < (m.all_edge_props)(h.0, h.1, named_type(rel))->Ok_0.len() && (#[trigger] (
            m.all_edge_props)(h.0, h.1, named_type(rel))->Ok_0[i]).0 == h.2 && merge::has_props(
                (m.all_edge_props)(h.0, h.1, named_type(rel))->Ok_0[i].1,
                want,
            ),
{
    let all = (m.all_edge_props)(h.0, h.1, named_type(rel))->Ok_0;
    let es = rel.properties.entries@;
    if relationship_matches(h, rel, rec, m) {
        let i = choose|i: int|
            0 <= i < all.len() && (#[trigger] all[i]).0 == h.2 && match_pattern(
                all[i].1,
                es,
                rec,
                m,
            );
        lemma_pattern_held(all[i].1, es, rec, m);
        assert(all[i].0 == h.2);
    }
    if exists|i: int|
        0 <= i < all.len() && (#[trigger] all[i]).0 == h.2 && merge::has_props(all[i].1, want) {
        let i = choose|i: int|
            0 <= i < all.len() && (#[trigger] all[i]).0 == h.2 && merge::has_props(
                all[i].1,
                want,
            );
        lemma_pattern_held(all[i].1, es, rec, m);
        assert(all[i].0 == h.2);
    }
}

} // verus!
