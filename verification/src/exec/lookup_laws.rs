//! What lookups, subqueries, paths and procedure calls give.
use super::call;
use super::expand;
use super::flow;
use super::flow_laws;
use super::inner;
use super::join_laws;
use super::match_laws;
use super::path;
use super::path::PathSearchView;
use super::read;
use super::read::TextSearchView;
use super::run;
use crate::assoc;
use crate::ast_model::ExprView;
use crate::binding;
use crate::plan::{ExecContext, FullTextOp};
use crate::record;
use crate::record::Row;
use crate::source::{Model, ProcedureView};
use crate::text;
use crate::types::{ErrorView, NodeId};
use crate::value::{EdgeView, Float, NodeView, PathValueView, ValueView};
use vstd::prelude::*;

verus! {

/// The row of a node on its own.
pub open spec fn lone(n: NodeView, alias: Seq<char>) -> Row {
    binding::node_row(Row::empty(), n, alias)
}

/// A lookup by id gives the node with that id where there is one, and no row for what is no id.
pub proof fn an_id_finds_its_node(alias: Seq<char>, e: ExprView, rec: Row, m: Model, n: i64)
    requires
        (m.eval)(e, rec) == Ok::<ValueView, ErrorView>(ValueView::I64(n)),
    ensures
        n >= 0 ==> ((m.node)(NodeId(n as u64)) matches Ok(found) ==> read::looked_up(
            alias,
            e,
            rec,
            m,
        ) == Ok::<Seq<Row>, ErrorView>(seq![lone(found, alias)])),
        n < 0 ==> read::looked_up(alias, e, rec, m) == Ok::<Seq<Row>, ErrorView>(Seq::empty()),
{
}

/// A lookup in an index gives the node of each id that the index gives, in their order, where the
/// rest of the condition holds on it.
pub proof fn an_index_finds_its_nodes(
    label: Seq<char>,
    alias: Seq<char>,
    properties: Seq<Seq<char>>,
    keys: Row,
    rest: Option<ExprView>,
    m: Model,
)
    requires
        read::indexed(label, alias, properties, keys, rest, m) is Ok,
    ensures
        (m.index_ids)(label, properties, keys) is Ok,
        ({
            let ids = (m.index_ids)(label, properties, keys)->Ok_0;
            &&& forall|i: int| 0 <= i < ids.len() ==> (m.node)(#[trigger] ids[i]) is Ok
            &&& read::indexed(label, alias, properties, keys, rest, m)->Ok_0 == ids.filter(
                |id: NodeId| join_laws::passes(lone((m.node)(id)->Ok_0, alias), rest, m),
            ).map_values(|id: NodeId| lone((m.node)(id)->Ok_0, alias))
        }),
{
    let ids = (m.index_ids)(label, properties, keys)->Ok_0;
    let f = |id: NodeId| read::indexed_row(id, alias, rest, m);
    let p = |id: NodeId| join_laws::passes(lone((m.node)(id)->Ok_0, alias), rest, m);
    let g = |id: NodeId| lone((m.node)(id)->Ok_0, alias);
    assert forall|i: int| 0 <= i < ids.len() implies (m.node)(#[trigger] ids[i]) is Ok && f(ids[i])
        == Ok::<Seq<Row>, ErrorView>(
        if p(ids[i]) {
            seq![g(ids[i])]
        } else {
            Seq::empty()
        },
    ) by {
        flow_laws::nothing_given_is_lost(ids, f, i);
    }
    flow_laws::one_or_none_is_a_selection(ids, f, p, g);
}

/// A text begins with a term, ends with it, or has it somewhere inside.
pub proof fn texts_stand_to_terms_as_named(s: Seq<char>, term: Seq<char>)
    ensures
        read::text_matches(s, FullTextOp::StartsWith, term) <==> exists|b: Seq<char>|
            s == #[trigger] (term + b),
        read::text_matches(s, FullTextOp::EndsWith, term) <==> exists|a: Seq<char>|
            s == #[trigger] (a + term),
        read::text_matches(s, FullTextOp::Contains, term) <==> exists|a: Seq<char>, b: Seq<char>|
            s == #[trigger] (a + term + b),
{
    let n = term.len() as int;
    if read::text_matches(s, FullTextOp::StartsWith, term) {
        assert(s =~= term + s.skip(n));
    }
    if exists|b: Seq<char>| s == #[trigger] (term + b) {
        let b = choose|b: Seq<char>| s == #[trigger] (term + b);
        assert(s.take(n) =~= term);
    }
    if read::text_matches(s, FullTextOp::EndsWith, term) {
        assert(s =~= s.take(s.len() - n) + term);
    }
    if exists|a: Seq<char>| s == #[trigger] (a + term) {
        let a = choose|a: Seq<char>| s == #[trigger] (a + term);
        assert(s.skip(s.len() - n) =~= term);
    }
    if read::text_matches(s, FullTextOp::Contains, term) {
        let at = choose|at: int| text::part_at(s, at, term);
        assert(s =~= s.take(at) + term + s.skip(at + n));
    }
    if exists|a: Seq<char>, b: Seq<char>| s == #[trigger] (a + term + b) {
        let (a, b) = choose|a: Seq<char>, b: Seq<char>| s == #[trigger] (a + term + b);
        assert(s.subrange(a.len() as int, a.len() + n) =~= term);
        assert(text::part_at(s, a.len() as int, term));
    }
}

/// The node has a text for the property that stands to the term as the search asks.
pub open spec fn meets(n: NodeView, x: TextSearchView) -> bool {
    assoc::lookup(n.properties, x.property) matches Some(ValueView::String(s))
        && read::text_matches(s, x.op, x.term)
}

/// Where the index does not answer, a full-text search gives each node with the label whose
/// property meets the term and on which the rest of the condition holds.
pub proof fn a_text_search_finds_its_nodes(x: TextSearchView, m: Model)
    requires
        (m.fulltext)(x.label, x.property, x.term) matches Ok(None),
        (m.nodes_by_label)(x.label) is Ok,
    ensures
        read::searched(x, None, m) is Ok,
        ({
            let nodes = (m.nodes_by_label)(x.label)->Ok_0;
            let fit = nodes.filter(|n: NodeView| meets(n, x));
            let out = read::searched(x, None, m)->Ok_0;
            &&& out.len() == fit.len()
            &&& forall|i: int, k: Seq<char>|
                #![trigger assoc::lookup(out[i], k)]
                0 <= i < out.len() && k != x.alias + "."@ + "__fts_score"@ ==> assoc::lookup(
                    out[i],
                    k,
                ) == assoc::lookup(lone(fit[i], x.alias), k)
        }),
{
    let nodes = (m.nodes_by_label)(x.label)->Ok_0;
    let f = |n: NodeView| read::found_row(n, x, None, m);
    let p = |n: NodeView| meets(n, x);
    let key = text::dotted(x.alias, "__fts_score"@);
    let v = ValueView::F64(Float { bits: 0 });
    let g = |n: NodeView| assoc::put(lone(n, x.alias), key, v);
    flow_laws::one_or_none_is_a_selection(nodes, f, p, g);
    let fit = nodes.filter(p);
    let out = read::searched(x, None, m)->Ok_0;
    assert(out == fit.map_values(g));
    assert forall|i: int, k: Seq<char>|
        #![trigger assoc::lookup(out[i], k)]
        0 <= i < out.len() && k != x.alias + "."@ + "__fts_score"@ implies assoc::lookup(out[i], k)
        == assoc::lookup(lone(fit[i], x.alias), k) by {
        assoc::lemma_lookup_put(lone(fit[i], x.alias), key, v, k);
    }
}

/// A filter inside a subquery keeps the rows on which the predicate holds with the row outside in
/// sight, in their order, and no others.
pub proof fn an_inner_filter_keeps_what_holds(rs: Seq<Row>, outer: Row, e: ExprView, m: Model)
    requires
        flow::each(rs, |rec: Row| run::inner_kept(rec, outer, e, m)) is Ok,
    ensures
        flow::each(rs, |rec: Row| run::inner_kept(rec, outer, e, m))->Ok_0 == rs.filter(
            |rec: Row|
                (m.holds)(e, record::filled(rec, outer)) == Ok::<bool, ErrorView>(true),
        ),
{
    let f = |rec: Row| run::inner_kept(rec, outer, e, m);
    let p = |rec: Row| (m.holds)(e, record::filled(rec, outer)) == Ok::<bool, ErrorView>(true);
    let g = |rec: Row| rec;
    assert forall|i: int| 0 <= i < rs.len() implies f(#[trigger] rs[i]) == Ok::<
        Seq<Row>,
        ErrorView,
    >(
        if p(rs[i]) {
            seq![g(rs[i])]
        } else {
            Seq::empty()
        },
    ) by {
        flow_laws::nothing_given_is_lost(rs, f, i);
    }
    flow_laws::one_or_none_is_a_selection(rs, f, p, g);
    assert(rs.filter(p).map_values(g) =~= rs.filter(p));
}

/// A scan inside a subquery gives the node that its variable is bound to outside, where it has
/// the label that is asked for; nothing where the variable is null outside; and scans where the
/// variable is not bound.
pub proof fn an_inner_scan_heeds_the_row_outside(
    label: Seq<char>,
    alias: Seq<char>,
    outer: Row,
    ctx: ExecContext,
    m: Model,
)
    ensures
        assoc::lookup(outer, alias) matches Some(ValueView::I64(id)) ==> ((m.node)(
            NodeId(id as u64),
        ) matches Ok(n) ==> run::inner_scanned(label, alias, outer, ctx, m) == Ok::<
            Seq<Row>,
            ErrorView,
        >(
            if label.len() == 0 || n.labels.contains(label) {
                seq![lone(n, alias)]
            } else {
                Seq::empty()
            },
        )),
        assoc::lookup(outer, alias) == Some(ValueView::Null) ==> run::inner_scanned(
            label,
            alias,
            outer,
            ctx,
            m,
        ) == Ok::<Seq<Row>, ErrorView>(Seq::empty()),
        assoc::lookup(outer, alias) is None ==> run::inner_scanned(label, alias, outer, ctx, m)
            == read::scanned(label, alias, ctx, m),
{
}

/// Inside a subquery too, an expansion by one hop reaches every neighbour by every type that is
/// asked for. The far end is not bound, and the relationship has no variable.
pub proof fn every_neighbour_is_reached_inside(
    rec: Row,
    outer: Row,
    x: expand::ExpansionView,
    work: u64,
    m: Model,
    src: NodeId,
    label: Seq<char>,
    to: NodeId,
)
    requires
        inner::expanded(rec, outer, x, work, m) is Ok,
        !x.var_length,
        x.min_hops == 1,
        x.max_hops == 1,
        x.rel_alias is None,
        assoc::lookup(rec, x.src_alias) == Some(ValueView::I64(src.0 as i64)),
        src.0 <= i64::MAX,
        assoc::lookup(rec, x.dst_alias) is None,
        assoc::lookup(outer, x.dst_alias) is None,
        match_laws::asks_for(x, src, label, m),
        (m.neighbors)(src, label, x.direction) matches Ok(all) && all.contains(to),
    ensures
        (m.node)(to) is Ok,
        inner::expanded(rec, outer, x, work, m)->Ok_0.contains(
            binding::node_row(rec, (m.node)(to)->Ok_0, x.dst_alias),
        ),
{
    assert(NodeId((src.0 as i64) as u64) == src);
    let labels = expand::types_from(src, x, m)->Ok_0;
    assert(labels.contains(label));
    let i = choose|i: int| 0 <= i < labels.len() && labels[i] == label;
    let f = |l: Seq<char>| inner::short_rows(rec, src, l, None, x, m);
    flow_laws::nothing_given_is_lost(labels, f, i);
    let all = (m.neighbors)(src, label, x.direction)->Ok_0;
    let j = choose|j: int| 0 <= j < all.len() && all[j] == to;
    let g = |t: NodeId| inner::short_row(rec, src, t, label, None, x, m);
    flow_laws::nothing_given_is_lost(all, g, j);
    let row = binding::node_row(rec, (m.node)(to)->Ok_0, x.dst_alias);
    assert(g(all[j])->Ok_0[0] == row);
    assert(g(all[j])->Ok_0.contains(row));
    assert(flow::each(all, g)->Ok_0.contains(row));
    assert(f(labels[i])->Ok_0.contains(row));
}

/// Nodes that are asked for by their ids come in the order of the ids.
pub proof fn nodes_come_in_order(ids: Seq<NodeId>, m: Model)
    requires
        path::nodes_at(ids, m) is Ok,
    ensures
        path::nodes_at(ids, m)->Ok_0.len() == ids.len(),
        forall|i: int|
            0 <= i < ids.len() ==> (m.node)(ids[i]) == Ok::<NodeView, ErrorView>(
                #[trigger] path::nodes_at(ids, m)->Ok_0[i],
            ),
    decreases ids.len(),
{
    if ids.len() > 0 {
        let t = ids.drop_last();
        nodes_come_in_order(t, m);
        let out = path::nodes_at(ids, m)->Ok_0;
        let so_far = path::nodes_at(t, m)->Ok_0;
        assert forall|i: int| 0 <= i < ids.len() implies (m.node)(ids[i]) == Ok::<
            NodeView,
            ErrorView,
        >(#[trigger] out[i]) by {
            if i < t.len() {
                assert(out[i] == so_far[i]);
                assert(t[i] == ids[i]);
            }
        }
    }
}

/// The relationship joins two nodes by a type: from the one to the other where there is such a
/// one, and from the other to the one where there is not.
pub open spec fn joins(e: EdgeView, a: NodeId, b: NodeId, label: Seq<char>, m: Model) -> bool {
    &&& e.label == label
    &&& (m.edge_exists)(a, b, label) is Ok
    &&& if (m.edge_exists)(a, b, label)->Ok_0 {
        e.src == a && e.dst == b
    } else {
        e.src == b && e.dst == a
    }
    &&& (m.edge_properties)(e.src, e.dst, label) == Ok::<Row, ErrorView>(e.properties)
}

/// The relationships along a path join each node with the next.
proof fn lemma_edges_join(ids: Seq<NodeId>, n: int, label: Seq<char>, m: Model)
    requires
        0 <= n < ids.len(),
        path::edges_along(ids, n, label, m) is Ok,
    ensures
        path::edges_along(ids, n, label, m)->Ok_0.len() == n,
        forall|i: int|
            0 <= i < n ==> joins(
                #[trigger] path::edges_along(ids, n, label, m)->Ok_0[i],
                ids[i],
                ids[i + 1],
                label,
                m,
            ),
    decreases n,
{
    if n > 0 {
        lemma_edges_join(ids, n - 1, label, m);
        let out = path::edges_along(ids, n, label, m)->Ok_0;
        let so_far = path::edges_along(ids, n - 1, label, m)->Ok_0;
        assert forall|i: int| 0 <= i < n implies joins(
            #[trigger] out[i],
            ids[i],
            ids[i + 1],
            label,
            m,
        ) by {
            if i < n - 1 {
                assert(out[i] == so_far[i]);
            }
        }
    }
}

/// The path is the one through the nodes with the ids: those nodes in that order, and between
/// each and the next a relationship of the type that joins them.
pub open spec fn goes_through(p: PathValueView, ids: Seq<NodeId>, label: Seq<char>, m: Model) -> bool {
    &&& p.nodes.len() == ids.len()
    &&& forall|i: int|
        0 <= i < ids.len() ==> (m.node)(ids[i]) == Ok::<NodeView, ErrorView>(#[trigger] p.nodes[i])
    &&& ids.len() > 0 ==> p.edges.len() == ids.len() - 1
    &&& forall|i: int|
        0 <= i < p.edges.len() ==> joins(#[trigger] p.edges[i], ids[i], ids[i + 1], label, m)
}

/// A path through ids goes through them.
pub proof fn a_path_goes_through_its_nodes(ids: Seq<NodeId>, label: Seq<char>, m: Model)
    requires
        ids.len() > 0,
        path::path_through(ids, label, m) is Ok,
    ensures
        goes_through(path::path_through(ids, label, m)->Ok_0, ids, label, m),
{
    nodes_come_in_order(ids, m);
    lemma_edges_join(ids, ids.len() - 1, label, m);
}

/// A search for all shortest paths between the two nodes of a row gives a row for each of them,
/// with the path bound; where there is none, one row with null in its place.
pub proof fn each_shortest_path_gives_a_row(
    rec: Row,
    x: PathSearchView,
    m: Model,
    src: NodeId,
    dst: NodeId,
)
    requires
        binding::node_in(assoc::lookup(rec, x.src_alias)) == Some(src),
        binding::node_in(assoc::lookup(rec, x.dst_alias)) == Some(dst),
        path::shortest_rows(rec, x, true, m) is Ok,
    ensures
        ({
            let ways = (m.all_shortest_paths)(src, dst, x.label, x.direction, x.max_hops);
            let out = path::shortest_rows(rec, x, true, m)->Ok_0;
            &&& ways is Ok
            &&& ways->Ok_0.len() == 0 ==> out.len() == 1 && assoc::lookup(out[0], x.path_alias)
                == Some(ValueView::Null)
            &&& ways->Ok_0.len() > 0 ==> out.len() == ways->Ok_0.len() && forall|i: int|
                0 <= i < out.len() && ways->Ok_0[i].len() > 0 ==> (assoc::lookup(
                    #[trigger] out[i],
                    x.path_alias,
                ) matches Some(ValueView::Path(p)) && goes_through(p, ways->Ok_0[i], x.label, m))
        }),
{
    let ways = (m.all_shortest_paths)(src, dst, x.label, x.direction, x.max_hops)->Ok_0;
    let out = path::shortest_rows(rec, x, true, m)->Ok_0;
    if ways.len() == 0 {
        assoc::lemma_lookup_put(rec, x.path_alias, ValueView::Null, x.path_alias);
    } else {
        let f = |ids: Seq<NodeId>| path::way_row(rec, ids, x, m);
        let g = |ids: Seq<NodeId>|
            assoc::put(
                rec,
                x.path_alias,
                ValueView::Path(path::path_through(ids, x.label, m)->Ok_0),
            );
        assert forall|i: int| 0 <= i < ways.len() implies f(#[trigger] ways[i]) == Ok::<
            Seq<Row>,
            ErrorView,
        >(seq![g(ways[i])]) && path::path_through(ways[i], x.label, m) is Ok by {
            flow_laws::nothing_given_is_lost(ways, f, i);
        }
        flow_laws::one_each_is_place_by_place(ways, f, g);
        assert forall|i: int| 0 <= i < out.len() && ways[i].len() > 0 implies (assoc::lookup(
            #[trigger] out[i],
            x.path_alias,
        ) matches Some(ValueView::Path(p)) && goes_through(p, ways[i], x.label, m)) by {
            assert(out[i] == g(ways[i]));
            assert(f(ways[i]) == Ok::<Seq<Row>, ErrorView>(seq![g(ways[i])]));
            let p = path::path_through(ways[i], x.label, m)->Ok_0;
            assoc::lemma_lookup_put(rec, x.path_alias, ValueView::Path(p), x.path_alias);
            a_path_goes_through_its_nodes(ways[i], x.label, m);
        }
    }
}

/// A search for one shortest path between the two nodes of a row gives one row, with that path
/// bound or with null in its place.
pub proof fn the_shortest_path_gives_a_row(
    rec: Row,
    x: PathSearchView,
    m: Model,
    src: NodeId,
    dst: NodeId,
)
    requires
        binding::node_in(assoc::lookup(rec, x.src_alias)) == Some(src),
        binding::node_in(assoc::lookup(rec, x.dst_alias)) == Some(dst),
        path::shortest_rows(rec, x, false, m) is Ok,
    ensures
        ({
            let way = (m.shortest_path)(src, dst, x.label, x.direction, x.max_hops);
            let out = path::shortest_rows(rec, x, false, m)->Ok_0;
            &&& way is Ok
            &&& out.len() == 1
            &&& way->Ok_0 is None ==> assoc::lookup(out[0], x.path_alias) == Some(ValueView::Null)
            &&& way->Ok_0 is Some && way->Ok_0->0.len() > 0 ==> (assoc::lookup(
                out[0],
                x.path_alias,
            ) matches Some(ValueView::Path(p)) && goes_through(p, way->Ok_0->0, x.label, m))
        }),
{
    let way = (m.shortest_path)(src, dst, x.label, x.direction, x.max_hops)->Ok_0;
    match way {
        None => {
            assoc::lemma_lookup_put(rec, x.path_alias, ValueView::Null, x.path_alias);
        },
        Some(ids) => {
            let p = path::path_through(ids, x.label, m)->Ok_0;
            assoc::lemma_lookup_put(rec, x.path_alias, ValueView::Path(p), x.path_alias);
            if ids.len() > 0 {
                a_path_goes_through_its_nodes(ids, x.label, m);
            }
        },
    }
}

/// The nodes of a path along relationships: it begins where it begins, and each relationship
/// leads from one node to its other end.
pub proof fn a_walk_follows_its_relationships(start: NodeView, edges: Seq<EdgeView>, m: Model)
    requires
        path::walked(start, edges, false, m) is Ok,
    ensures
        ({
            let ns = path::walked(start, edges, false, m)->Ok_0;
            &&& ns.len() == edges.len() + 1
            &&& ns[0] == start
            &&& forall|i: int|
                0 <= i < edges.len() ==> (m.node)(
                    if ns[i].id == (#[trigger] edges[i]).src {
                        edges[i].dst
                    } else {
                        edges[i].src
                    },
                ) == Ok::<NodeView, ErrorView>(ns[i + 1])
        }),
    decreases edges.len(),
{
    if edges.len() > 0 {
        let t = edges.drop_last();
        a_walk_follows_its_relationships(start, t, m);
        let so_far = path::walked(start, t, false, m)->Ok_0;
        let ns = path::walked(start, edges, false, m)->Ok_0;
        assert forall|i: int| 0 <= i < edges.len() implies (m.node)(
            if ns[i].id == (#[trigger] edges[i]).src {
                edges[i].dst
            } else {
                edges[i].src
            },
        ) == Ok::<NodeView, ErrorView>(ns[i + 1]) by {
            if i < t.len() {
                assert(t[i] == edges[i]);
                assert(ns[i] == so_far[i]);
                assert(ns[i + 1] == so_far[i + 1]);
            } else {
                assert(ns[i] == so_far.last());
            }
        }
    }
}

/// A named path has the nodes that its node variables are bound to, in their order.
pub proof fn a_named_path_has_its_nodes(rec: Row, vars: Seq<Seq<char>>, ids: Seq<i64>, m: Model)
    requires
        ids.len() == vars.len(),
        forall|i: int|
            0 <= i < vars.len() ==> assoc::lookup(rec, #[trigger] vars[i]) != Some(ValueView::Null),
        forall|i: int|
            0 <= i < vars.len() ==> assoc::lookup(rec, (#[trigger] vars[i]) + "."@ + "__id"@)
                == Some(ValueView::I64(ids[i])) && (m.node)(NodeId(ids[i] as u64)) is Ok,
    ensures
        ({
            let f = path::found_nodes(rec, vars, m);
            &&& !f.null && !f.stopped
            &&& f.nodes.len() == vars.len()
            &&& forall|i: int|
                0 <= i < vars.len() ==> (m.node)(NodeId(ids[i] as u64)) == Ok::<
                    NodeView,
                    ErrorView,
                >(#[trigger] f.nodes[i])
        }),
    decreases vars.len(),
{
    if vars.len() > 0 {
        let t = vars.drop_last();
        let u = ids.drop_last();
        let n = vars.len() - 1;
        assert forall|i: int| 0 <= i < t.len() implies assoc::lookup(rec, #[trigger] t[i]) != Some(
            ValueView::Null,
        ) by {
            assert(t[i] == vars[i]);
        }
        assert forall|i: int| 0 <= i < t.len() implies assoc::lookup(
            rec,
            (#[trigger] t[i]) + "."@ + "__id"@,
        ) == Some(ValueView::I64(u[i])) && (m.node)(NodeId(u[i] as u64)) is Ok by {
            assert(t[i] == vars[i]);
            assert(u[i] == ids[i]);
        }
        a_named_path_has_its_nodes(rec, t, u, m);
        assert(vars[n] == vars.last());
        let so_far = path::found_nodes(rec, t, m);
        let f = path::found_nodes(rec, vars, m);
        assert forall|i: int| 0 <= i < vars.len() implies (m.node)(NodeId(ids[i] as u64)) == Ok::<
            NodeView,
            ErrorView,
        >(#[trigger] f.nodes[i]) by {
            if i < n {
                assert(f.nodes[i] == so_far.nodes[i]);
                assert(u[i] == ids[i]);
            }
        }
    }
}

/// A named path is null where one of its nodes is.
pub proof fn a_named_path_is_null_with_a_node(rec: Row, vars: Seq<Seq<char>>, m: Model, i: int)
    requires
        0 <= i < vars.len(),
        assoc::lookup(rec, vars[i]) == Some(ValueView::Null),
        forall|j: int|
            0 <= j < i ==> assoc::lookup(rec, (#[trigger] vars[j]) + "."@ + "__id"@) is None,
    ensures
        path::found_nodes(rec, vars, m).null,
    decreases vars.len(),
{
    let t = vars.drop_last();
    if i < t.len() {
        assert(t[i] == vars[i]);
        assert forall|j: int| 0 <= j < i implies assoc::lookup(
            rec,
            (#[trigger] t[j]) + "."@ + "__id"@,
        ) is None by {
            assert(t[j] == vars[j]);
        }
        a_named_path_is_null_with_a_node(rec, t, m, i);
        lemma_null_stops(rec, t, m);
    } else {
        lemma_null_stops(rec, t, m);
    }
}

/// What was found null stopped the search.
proof fn lemma_null_stops(rec: Row, vars: Seq<Seq<char>>, m: Model)
    ensures
        path::found_nodes(rec, vars, m).null ==> path::found_nodes(rec, vars, m).stopped,
        (forall|j: int|
            0 <= j < vars.len() ==> assoc::lookup(rec, (#[trigger] vars[j]) + "."@ + "__id"@) is None)
            ==> (path::found_nodes(rec, vars, m).stopped ==> path::found_nodes(rec, vars, m).null),
    decreases vars.len(),
{
    if vars.len() > 0 {
        let t = vars.drop_last();
        lemma_null_stops(rec, t, m);
        if forall|j: int|
            0 <= j < vars.len() ==> assoc::lookup(rec, (#[trigger] vars[j]) + "."@ + "__id"@) is None {
            assert forall|j: int| 0 <= j < t.len() implies assoc::lookup(
                rec,
                (#[trigger] t[j]) + "."@ + "__id"@,
            ) is None by {
                assert(t[j] == vars[j]);
            }
            assert(vars[vars.len() - 1] == vars.last());
        }
    }
}

/// The arguments of a call are the values of their expressions, in their order.
pub proof fn arguments_are_given_in_order(rec: Row, args: Seq<ExprView>, m: Model)
    requires
        call::arguments(rec, args, m) is Ok,
    ensures
        call::arguments(rec, args, m)->Ok_0.len() == args.len(),
        forall|i: int|
            0 <= i < args.len() ==> (m.eval)(args[i], rec) == Ok::<ValueView, ErrorView>(
                #[trigger] call::arguments(rec, args, m)->Ok_0[i],
            ),
    decreases args.len(),
{
    if args.len() > 0 {
        let t = args.drop_last();
        arguments_are_given_in_order(rec, t, m);
        let out = call::arguments(rec, args, m)->Ok_0;
        let so_far = call::arguments(rec, t, m)->Ok_0;
        assert forall|i: int| 0 <= i < args.len() implies (m.eval)(args[i], rec) == Ok::<
            ValueView,
            ErrorView,
        >(#[trigger] out[i]) by {
            if i < t.len() {
                assert(out[i] == so_far[i]);
                assert(t[i] == args[i]);
            }
        }
    }
}

/// Of the table of a procedure those rows count that go with every argument, in their order.
pub proof fn matching_rows_are_selected(rows: Seq<Row>, inputs: Seq<Seq<char>>, args: Seq<ValueView>)
    ensures
        call::matching(rows, inputs, args) == rows.filter(
            |row: Row|
                forall|i: int|
                    0 <= i < inputs.len() && i < args.len() ==> (match assoc::lookup(
                        row,
                        #[trigger] inputs[i],
                    ) {
                        Some(v) => call::goes_with(v, args[i]),
                        None => true,
                    }),
        ),
    decreases rows.len(),
{
    reveal(Seq::filter);
    if rows.len() > 0 {
        matching_rows_are_selected(rows.drop_last(), inputs, args);
    }
}

/// A call yields each of its columns under its name, null where the table has no such column,
/// and leaves the rest of the row alone.
pub proof fn yielded_columns_are_in_the_row(
    rec: Row,
    row: Row,
    ys: Seq<(Seq<char>, Option<Seq<char>>)>,
    k: Seq<char>,
)
    ensures
        forall|i: int|
            0 <= i < ys.len() && (forall|j: int|
                i < j < ys.len() ==> yield_name(#[trigger] ys[j]) != yield_name(ys[i]))
                ==> assoc::lookup(call::yielded(rec, row, ys), yield_name(#[trigger] ys[i])) == Some(
                match assoc::lookup(row, ys[i].0) {
                    Some(v) => v,
                    None => ValueView::Null,
                },
            ),
        (forall|i: int| 0 <= i < ys.len() ==> yield_name(#[trigger] ys[i]) != k) ==> assoc::lookup(
            call::yielded(rec, row, ys),
            k,
        ) == assoc::lookup(rec, k),
    decreases ys.len(),
{
    let out = call::yielded(rec, row, ys);
    if ys.len() > 0 {
        let t = ys.drop_last();
        let n = ys.len() - 1;
        yielded_columns_are_in_the_row(rec, row, t, k);
        let so_far = call::yielded(rec, row, t);
        assert(ys[n] == ys.last());
        let v = match assoc::lookup(row, ys.last().0) {
            Some(v) => v,
            None => ValueView::Null,
        };
        assert forall|i: int|
            0 <= i < ys.len() && (forall|j: int|
                i < j < ys.len() ==> yield_name(#[trigger] ys[j]) != yield_name(ys[i])) implies assoc::lookup(
        out, yield_name(#[trigger] ys[i])) == Some(
            match assoc::lookup(row, ys[i].0) {
                Some(v) => v,
                None => ValueView::Null,
            },
        ) by {
            assoc::lemma_lookup_put(so_far, yield_name(ys.last()), v, yield_name(ys[i]));
            if i < n {
                assert(yield_name(ys[n]) != yield_name(ys[i]));
                assert(t[i] == ys[i]);
                assert forall|j: int| i < j < t.len() implies yield_name(#[trigger] t[j])
                    != yield_name(t[i]) by {
                    assert(t[j] == ys[j]);
                }
            }
        }
        if forall|i: int| 0 <= i < ys.len() ==> yield_name(#[trigger] ys[i]) != k {
            assert(yield_name(ys[n]) != k);
            assert forall|i: int| 0 <= i < t.len() implies yield_name(#[trigger] t[i]) != k by {
                assert(t[i] == ys[i]);
            }
            assoc::lemma_lookup_put(so_far, yield_name(ys.last()), v, k);
        }
    }
}

/// The name that a yielded column has in the row.
pub open spec fn yield_name(y: (Seq<char>, Option<Seq<char>>)) -> Seq<char> {
    match y.1 {
        Some(a) => a,
        None => y.0,
    }
}

/// A call gives a row for each row of the table that goes with its arguments.
pub proof fn a_call_gives_a_row_each(
    rec: Row,
    name: Seq<char>,
    p: ProcedureView,
    args: Seq<ExprView>,
    ys: Seq<(Seq<char>, Option<Seq<char>>)>,
    m: Model,
)
    requires
        !p.builtin,
        p.inputs.len() > 0,
        args.len() > 0,
        ys.len() > 0,
        call::called(rec, name, p, args, ys, m) is Ok,
    ensures
        call::arguments(rec, args, m) is Ok,
        ({
            let fit = call::matching(p.rows, p.inputs, call::arguments(rec, args, m)->Ok_0);
            let out = call::called(rec, name, p, args, ys, m)->Ok_0;
            out.len() == fit.len() && forall|i: int|
                0 <= i < out.len() ==> #[trigger] out[i] == call::yielded(rec, fit[i], ys)
        }),
{
    arguments_are_given_in_order(rec, args, m);
}

} // verus!
