//! What CREATE, SET, REMOVE and DELETE ask for, and what rows read afterwards.
use super::arrange;
use super::assign;
use super::change;
use super::change::{Bindings, ChangeView, CreationView, EdgeRef};
use super::join_laws;
use super::merge_set;
use super::merge_set::OwnerView;
use super::sort_laws;
use super::write_run;
use crate::assoc;
use crate::ast::{Assignment, Expr, ExprKind, RemoveItem, SetItem};
use crate::binding_laws;
use crate::plan::LogicalOp;
use crate::record;
use crate::record::Row;
use crate::row_laws;
use crate::source::Model;
use crate::text;
use crate::types::{ErrorView, NodeId};
use crate::value::ValueView;
use vstd::prelude::*;

verus! {

/// Taking a name out of entries whose names differ.
pub proof fn a_name_taken_out_is_gone(s: Row, k: Seq<char>, other: Seq<char>)
    requires
        assoc::distinct(assoc::keys(s)),
    ensures
        assoc::distinct(assoc::keys(assoc::swapped_out(s, k))),
        assoc::lookup(assoc::swapped_out(s, k), k) is None,
        other != k ==> assoc::lookup(assoc::swapped_out(s, k), other) == assoc::lookup(s, other),
{
    let ks = assoc::keys(s);
    let t = assoc::swapped_out(s, k);
    let kt = assoc::keys(t);
    assoc::lemma_place(ks, k);
    let i = assoc::place(ks, k) as int;
    if i < s.len() {
        assert forall|j: int| 0 <= j < t.len() implies t[j] == (if j == i {
            s[s.len() - 1]
        } else {
            s[j]
        }) by {}
        assert forall|a: int, b: int| 0 <= a < b < kt.len() implies #[trigger] kt[a]
            != #[trigger] kt[b] by {
            let x = if a == i { s.len() - 1 } else { a };
            let y = if b == i { s.len() - 1 } else { b };
            assert(kt[a] == ks[x] && kt[b] == ks[y]);
            assert(x != y);
            if x < y {
                assert(ks[x] != ks[y]);
            } else {
                assert(ks[y] != ks[x]);
            }
        }
        assert(row_laws::free_of(t, k)) by {
            assert forall|j: int| 0 <= j < t.len() implies (#[trigger] t[j]).0 != k by {
                let x = if j == i { s.len() - 1 } else { j };
                assert(t[j] == s[x]);
                assert(x != i);
                if x < i {
                    assert(ks[x] != ks[i]);
                } else {
                    assert(ks[i] != ks[x]);
                }
            }
        }
        row_laws::only_bound_names_read(t, k);
        if other != k {
            row_laws::only_bound_names_read(s, other);
            row_laws::only_bound_names_read(t, other);
            match assoc::lookup(s, other) {
                Some(v) => {
                    let x = choose|x: int| 0 <= x < s.len() && s[x] == (other, v);
                    let j = if x == s.len() - 1 { i } else { x };
                    assert(x != i);
                    assert(t[j] == s[x]);
                    assert forall|a: int| 0 <= a < j implies (#[trigger] t[a]).0 != t[j].0 by {
                        assert(kt[a] != kt[j]);
                    }
                    row_laws::the_first_entry_of_a_name_is_read(t, j);
                },
                None => {
                    assert(row_laws::free_of(t, other)) by {
                        assert forall|j: int| 0 <= j < t.len() implies (#[trigger] t[j]).0
                            != other by {
                            let x = if j == i { s.len() - 1 } else { j };
                            assert(t[j] == s[x]);
                            assert(s[x].0 != other);
                        }
                    }
                },
            }
        }
    } else {
        row_laws::only_bound_names_read(s, k);
        assert(row_laws::free_of(s, k)) by {
            assert forall|j: int| 0 <= j < s.len() implies (#[trigger] s[j]).0 != k by {
                assert(ks[j] != k);
            }
        }
    }
}

/// Setting an entry sets it; null takes it out; no other changes.
pub proof fn an_entry_set_reads_back(s: Row, key: Seq<char>, v: ValueView, other: Seq<char>)
    requires
        assoc::distinct(assoc::keys(s)),
    ensures
        assoc::distinct(assoc::keys(assign::with_entry(s, key, v))),
        assoc::lookup(assign::with_entry(s, key, v), other) == (if other == key {
            if v is Null {
                None
            } else {
                Some(v)
            }
        } else {
            assoc::lookup(s, other)
        }),
{
    if v is Null {
        a_name_taken_out_is_gone(s, key, other);
    } else {
        assoc::lemma_lookup_put(s, key, v, other);
        assoc::binding_keeps_keys_distinct(s, key, v);
    }
}

/// Of several bindings of a variable the last counts, and only its own.
pub proof fn the_last_binding_counts(s: Bindings, var: Seq<char>)
    ensures
        match change::bound(s, var) {
            Some(id) => exists|i: int|
                0 <= i < s.len() && #[trigger] s[i] == (var, id) && forall|j: int|
                    i < j < s.len() ==> (#[trigger] s[j]).0 != var,
            None => forall|i: int| 0 <= i < s.len() ==> (#[trigger] s[i]).0 != var,
        },
    decreases s.len(),
{
    if s.len() > 0 {
        let n = s.len() - 1;
        if s.last().0 == var {
            assert(s[n] == (var, s.last().1));
        } else {
            let t = s.drop_last();
            the_last_binding_counts(t, var);
            match change::bound(t, var) {
                Some(id) => {
                    let i = choose|i: int|
                        0 <= i < t.len() && #[trigger] t[i] == (var, id) && forall|j: int|
                            i < j < t.len() ==> (#[trigger] t[j]).0 != var;
                    assert(s[i] == (var, id));
                    assert forall|j: int| i < j < s.len() implies (#[trigger] s[j]).0 != var by {
                        if j < t.len() {
                            assert(t[j] == s[j]);
                        }
                    }
                },
                None => {
                    assert forall|i: int| 0 <= i < s.len() implies (#[trigger] s[i]).0 != var by {
                        if i < t.len() {
                            assert(t[i] == s[i]);
                        }
                    }
                },
            }
        }
    }
}

/// No property is listed twice.
pub open spec fn names_differ(s: Seq<(String, Expr)>) -> bool {
    forall|i: int, j: int| 0 <= i < j < s.len() ==> (#[trigger] s[i]).0@ != (#[trigger] s[j]).0@
}

/// Properties are given as their expressions say: each has the value of its expression on the
/// row, one that is null is left out, and there are no others.
pub proof fn properties_are_given_as_written(
    s: Seq<(String, Expr)>,
    rec: Row,
    m: Model,
    k: Seq<char>,
)
    requires
        names_differ(s),
        change::evaluated(s, rec, m) is Ok,
    ensures
        forall|i: int|
            0 <= i < s.len() ==> ((m.eval)((#[trigger] s[i]).1@, rec) is Ok && assoc::lookup(
                change::evaluated(s, rec, m)->Ok_0,
                s[i].0@,
            ) == (if (m.eval)(s[i].1@, rec)->Ok_0 is Null {
                None
            } else {
                Some((m.eval)(s[i].1@, rec)->Ok_0)
            })),
        (forall|i: int| 0 <= i < s.len() ==> (#[trigger] s[i]).0@ != k) ==> assoc::lookup(
            change::evaluated(s, rec, m)->Ok_0,
            k,
        ) is None,
    decreases s.len(),
{
    let p = change::evaluated(s, rec, m)->Ok_0;
    if s.len() > 0 {
        let t = s.drop_last();
        let n = s.len() - 1;
        let so_far = change::evaluated(t, rec, m)->Ok_0;
        let v = (m.eval)(s.last().1@, rec)->Ok_0;
        assert(names_differ(t)) by {
            assert forall|i: int, j: int| 0 <= i < j < t.len() implies (#[trigger] t[i]).0@
                != (#[trigger] t[j]).0@ by {
                assert(s[i].0@ != s[j].0@);
            }
        }
        properties_are_given_as_written(t, rec, m, k);
        properties_are_given_as_written(t, rec, m, s.last().0@);
        assert(forall|i: int| 0 <= i < t.len() ==> (#[trigger] t[i]).0@ != s.last().0@) by {
            assert forall|i: int| 0 <= i < t.len() implies (#[trigger] t[i]).0@ != s.last().0@ by {
                assert(s[i].0@ != s[n].0@);
            }
        }
        assert forall|i: int| 0 <= i < s.len() implies ((m.eval)((#[trigger] s[i]).1@, rec) is Ok
            && assoc::lookup(p, s[i].0@) == (if (m.eval)(s[i].1@, rec)->Ok_0 is Null {
            None
        } else {
            Some((m.eval)(s[i].1@, rec)->Ok_0)
        })) by {
            assoc::lemma_lookup_put(so_far, s.last().0@, v, s[i].0@);
            if i < n {
                assert(t[i] == s[i]);
                assert(s[i].0@ != s[n].0@);
            }
        }
        if forall|i: int| 0 <= i < s.len() ==> (#[trigger] s[i]).0@ != k {
            assert forall|i: int| 0 <= i < t.len() implies (#[trigger] t[i]).0@ != k by {
                assert(s[i].0@ != k);
            }
            assert(s[n].0@ != k);
            assoc::lemma_lookup_put(so_far, s.last().0@, v, k);
        }
    } else {
        row_laws::only_bound_names_read(p, k);
    }
}

/// CREATE of a node asks for a node with the labels and the properties of the pattern, unless its
/// variable is bound already and bound variables are kept.
pub proof fn a_node_is_created_as_written(
    op: LogicalOp,
    c: CreationView,
    from: Row,
    keep_bound: bool,
    m: Model,
)
    requires
        op is CreateNode,
        change::creation(op, c, from, keep_bound, m) is Ok,
    ensures
        ({
            let there = keep_bound && op->CreateNode_alias is Some && exists|i: int|
                0 <= i < c.bindings.len() && (#[trigger] c.bindings[i]).0
                    == op->CreateNode_alias->0@;
            let made = change::creation(op, c, from, keep_bound, m)->Ok_0;
            &&& there ==> made is None
            &&& !there ==> (made matches Some(ChangeView::AddNode { labels, properties })
                && labels.len() == op->CreateNode_labels@.len() && (forall|i: int|
                0 <= i < labels.len() ==> #[trigger] labels[i] == op->CreateNode_labels@[i]@)
                && change::evaluated(op->CreateNode_properties.entries@, from, m) == Ok::<
                Row,
                ErrorView,
            >(properties))
        }),
{
    if op->CreateNode_alias is Some {
        the_last_binding_counts(c.bindings, op->CreateNode_alias->0@);
    }
}

/// CREATE of a relationship asks for one of the type of the pattern, from the node that the first
/// variable is bound to, to the node that the second is bound to.
pub proof fn a_relationship_is_created_as_written(
    op: LogicalOp,
    c: CreationView,
    from: Row,
    keep_bound: bool,
    m: Model,
)
    requires
        op is CreateEdge,
        change::creation(op, c, from, keep_bound, m) is Ok,
    ensures
        change::creation(op, c, from, keep_bound, m)->Ok_0 matches Some(
            ChangeView::AddEdge { src, dst, label, properties },
        ) && change::bound(c.bindings, op->CreateEdge_src_alias@) == Some(src) && change::bound(
            c.bindings,
            op->CreateEdge_dst_alias@,
        ) == Some(dst) && label == op->CreateEdge_edge_type@ && change::evaluated(
            op->CreateEdge_properties.entries@,
            from,
            m,
        ) == Ok::<Row, ErrorView>(properties),
{
}

/// A node that was created is bound to its variable from then on, and the row holds its id.
pub proof fn a_created_node_is_bound(
    op: LogicalOp,
    c: CreationView,
    labels: Seq<Seq<char>>,
    properties: Row,
    id: NodeId,
)
    requires
        op is CreateNode,
        op->CreateNode_alias is Some,
        binding_laws::plain_keys(properties),
    ensures
        ({
            let var = op->CreateNode_alias->0@;
            let after = change::noted(op, c, ChangeView::AddNode { labels, properties }, id);
            &&& change::bound(after.bindings, var) == Some(id)
            &&& assoc::lookup(after.row, var) == Some(ValueView::I64(id.0 as i64))
            &&& forall|other: Seq<char>|
                other != var ==> #[trigger] change::bound(after.bindings, other) == change::bound(
                    c.bindings,
                    other,
                )
        }),
{
    let var = op->CreateNode_alias->0@;
    let after = change::noted(op, c, ChangeView::AddNode { labels, properties }, id);
    assert(after.bindings.drop_last() =~= c.bindings);
    let fs = record::fields_of(var, properties);
    let named = assoc::put(c.row, var, ValueView::I64(id.0 as i64));
    let numbered = assoc::put(named, text::dotted(var, "__id"@), ValueView::I64(id.0 as i64));
    assert forall|i: int| 0 <= i < fs.len() implies (#[trigger] fs[i]).0 != var by {
        reveal_strlit(".");
        assert(fs[i].0.len() > var.len());
    }
    binding_laws::lemma_put_all_other(numbered, fs, var);
    assoc::lemma_lookup_put(c.row, var, ValueView::I64(id.0 as i64), var);
    assoc::lemma_lookup_put(
        named,
        text::dotted(var, "__id"@),
        ValueView::I64(id.0 as i64),
        var,
    );
    assert(text::dotted(var, "__id"@) != var) by {
        reveal_strlit(".");
        assert(text::dotted(var, "__id"@).len() > var.len());
    }
}

/// A node that a value names, itself or within a list or a path.
pub open spec fn names_node(v: ValueView, id: NodeId) -> bool
    decreases v,
{
    match v {
        ValueView::Node(n) => n.id == id,
        ValueView::I64(n) => id == NodeId(n as u64),
        ValueView::Path(p) => exists|i: int|
            0 <= i < p.nodes.len() && (#[trigger] p.nodes[i]).id == id,
        ValueView::List(items) => exists|i: int| 0 <= i < items.len() && names_node(items[i], id),
        _ => false,
    }
}

/// A relationship that a value names, itself or within a list or a path.
pub open spec fn names_edge(v: ValueView, s: NodeId, d: NodeId, t: Seq<char>) -> bool
    decreases v,
{
    match v {
        ValueView::Edge(e) => e.src == s && e.dst == d && e.label == t,
        ValueView::Path(p) => exists|i: int|
            0 <= i < p.edges.len() && (#[trigger] p.edges[i]).src == s && p.edges[i].dst == d
                && p.edges[i].label == t,
        ValueView::List(items) => exists|i: int|
            0 <= i < items.len() && names_edge(items[i], s, d, t),
        _ => false,
    }
}

/// What is in one of two lists is in the two together.
proof fn lemma_in_either<T>(a: Seq<T>, b: Seq<T>, x: T)
    ensures
        (a + b).contains(x) <==> a.contains(x) || b.contains(x),
{
    if a.contains(x) {
        let i = choose|i: int| 0 <= i < a.len() && a[i] == x;
        assert((a + b)[i] == x);
    }
    if b.contains(x) {
        let i = choose|i: int| 0 <= i < b.len() && b[i] == x;
        assert((a + b)[a.len() + i] == x);
    }
}

/// DELETE of a value deletes every node and every relationship that the value names, and no
/// others.
pub proof fn what_is_named_is_deleted(v: ValueView, id: NodeId, s: NodeId, d: NodeId, t: Seq<char>)
    ensures
        change::value_deletion(v).nodes.contains(id) <==> names_node(v, id),
        change::value_deletion(v).edges.contains((s, d, t, None::<u64>)) <==> names_edge(v, s, d, t),
    decreases v, 0int,
{
    let x = change::value_deletion(v);
    let e: EdgeRef = (s, d, t, None);
    match v {
        ValueView::Node(n) => {
            if n.id == id {
                assert(x.nodes[0] == id);
            }
        },
        ValueView::I64(n) => {
            if id == NodeId(n as u64) {
                assert(x.nodes[0] == id);
            }
        },
        ValueView::Edge(f) => {
            if names_edge(v, s, d, t) {
                assert(x.edges[0] == e);
            }
        },
        ValueView::Path(p) => {
            if names_node(v, id) {
                let i = choose|i: int| 0 <= i < p.nodes.len() && (#[trigger] p.nodes[i]).id == id;
                assert(x.nodes[i] == id);
            }
            if x.nodes.contains(id) {
                let i = choose|i: int| 0 <= i < x.nodes.len() && x.nodes[i] == id;
                assert(p.nodes[i].id == id);
            }
            if names_edge(v, s, d, t) {
                let i = choose|i: int|
                    0 <= i < p.edges.len() && (#[trigger] p.edges[i]).src == s && p.edges[i].dst
                        == d && p.edges[i].label == t;
                assert(x.edges[i] == e);
            }
            if x.edges.contains(e) {
                let i = choose|i: int| 0 <= i < x.edges.len() && x.edges[i] == e;
                assert(p.edges[i].src == s && p.edges[i].dst == d && p.edges[i].label == t);
            }
        },
        ValueView::List(items) => {
            lemma_list_named(items, id, s, d, t);
        },
        _ => {},
    }
}

/// DELETE of a list deletes what its items name.
proof fn lemma_list_named(items: Seq<ValueView>, id: NodeId, s: NodeId, d: NodeId, t: Seq<char>)
    ensures
        change::list_deletion(items).nodes.contains(id) <==> exists|i: int|
            0 <= i < items.len() && names_node(items[i], id),
        change::list_deletion(items).edges.contains((s, d, t, None::<u64>)) <==> exists|i: int|
            0 <= i < items.len() && names_edge(items[i], s, d, t),
    decreases items, 1int,
{
    let e: EdgeRef = (s, d, t, None);
    if items.len() > 0 {
        let u = items.drop_last();
        let n = items.len() - 1;
        let a = change::list_deletion(u);
        let b = change::value_deletion(items.last());
        assert(items.last() == items[n]);
        assert(decreases_to!(items => items[n]));
        lemma_list_named(u, id, s, d, t);
        what_is_named_is_deleted(items[n], id, s, d, t);
        lemma_in_either(a.nodes, b.nodes, id);
        lemma_in_either(a.edges, b.edges, e);
        if exists|i: int| 0 <= i < u.len() && names_node(u[i], id) {
            let i = choose|i: int| 0 <= i < u.len() && names_node(u[i], id);
            assert(names_node(items[i], id));
        }
        if exists|i: int| 0 <= i < items.len() && names_node(items[i], id) {
            let i = choose|i: int| 0 <= i < items.len() && names_node(items[i], id);
            if i < n {
                assert(names_node(u[i], id));
            }
        }
        if exists|i: int| 0 <= i < u.len() && names_edge(u[i], s, d, t) {
            let i = choose|i: int| 0 <= i < u.len() && names_edge(u[i], s, d, t);
            assert(names_edge(items[i], s, d, t));
        }
        if exists|i: int| 0 <= i < items.len() && names_edge(items[i], s, d, t) {
            let i = choose|i: int| 0 <= i < items.len() && names_edge(items[i], s, d, t);
            if i < n {
                assert(names_edge(u[i], s, d, t));
            }
        }
    }
}

/// A variable that is bound to a relationship names that relationship for deletion, by its
/// number where it is noted.
pub proof fn a_bound_relationship_is_deleted(
    rec: Row,
    var: Seq<char>,
    s: i64,
    d: i64,
    t: Seq<char>,
    q: i64,
)
    requires
        join_laws::names_relationship(rec, var, s, d, t, q as u64),
        assoc::lookup(rec, var + "."@ + "__edge_seq"@) == Some(ValueView::I64(q)),
    ensures
        change::var_deletion(rec, var).edges == seq![
            (NodeId(s as u64), NodeId(d as u64), t, Some(q as u64)),
        ],
        change::var_deletion(rec, var).nodes.len() == 0,
{
}

/// A variable that is bound to no relationship names what its value names.
pub proof fn a_bound_value_is_deleted(rec: Row, var: Seq<char>, v: ValueView)
    requires
        assoc::lookup(rec, var) == Some(v),
        !(assoc::lookup(rec, var + "."@ + "__src"@) matches Some(ValueView::I64(_))),
    ensures
        change::var_deletion(rec, var) == change::value_deletion(v),
{
}

/// DELETE with several expressions deletes what each of them names, in turn: with one more it
/// deletes what it deleted before and what the new one names. A variable is marked as deleted.
pub proof fn each_expression_of_delete_counts(rec: Row, exprs: Seq<Expr>, x: Expr, m: Model)
    requires
        change::marked(rec, exprs.push(x), m) is Ok,
    ensures
        change::marked(rec, exprs, m) is Ok,
        ({
            let before = change::marked(rec, exprs, m)->Ok_0;
            let after = change::marked(rec, exprs.push(x), m)->Ok_0;
            match x.kind {
                ExprKind::Variable(var) => {
                    &&& after.deletion.nodes == before.deletion.nodes + change::var_deletion(
                        before.row,
                        var@,
                    ).nodes
                    &&& after.deletion.edges == before.deletion.edges + change::var_deletion(
                        before.row,
                        var@,
                    ).edges
                    &&& assoc::lookup(after.row, var@ + "."@ + "__deleted"@) == Some(
                        ValueView::Bool(true),
                    )
                },
                _ => {
                    &&& (m.eval)(x@, before.row) is Ok
                    &&& after.row == before.row
                    &&& after.deletion.nodes == before.deletion.nodes + change::value_deletion(
                        (m.eval)(x@, before.row)->Ok_0,
                    ).nodes
                    &&& after.deletion.edges == before.deletion.edges + change::value_deletion(
                        (m.eval)(x@, before.row)->Ok_0,
                    ).edges
                },
            }
        }),
{
    let all = exprs.push(x);
    assert(all.drop_last() =~= exprs);
    assert(all.last() == x);
    let before = change::marked(rec, exprs, m)->Ok_0;
    if let ExprKind::Variable(var) = x.kind {
        let k = text::dotted(var@, "__deleted"@);
        assoc::lemma_lookup_put(before.row, k, ValueView::Bool(true), k);
    }
}

/// DELETE goes through the rows in turn: with one row more it deletes what it deleted before and
/// what is named on the new row.
pub proof fn each_row_of_delete_counts(rs: Seq<Row>, r: Row, exprs: Seq<Expr>, m: Model)
    requires
        write_run::all_marked(rs.push(r), exprs, m) is Ok,
    ensures
        write_run::all_marked(rs, exprs, m) is Ok,
        change::marked(r, exprs, m) is Ok,
        ({
            let (done, d) = write_run::all_marked(rs, exprs, m)->Ok_0;
            let (all, e) = write_run::all_marked(rs.push(r), exprs, m)->Ok_0;
            let one = change::marked(r, exprs, m)->Ok_0;
            &&& all == done.push(one.row)
            &&& e.nodes == d.nodes + one.deletion.nodes
            &&& e.edges == d.edges + one.deletion.edges
        }),
{
    assert(rs.push(r).drop_last() =~= rs);
}

/// A list can be stored where each of its items can.
pub proof fn a_list_is_storable_item_by_item(s: Seq<ValueView>)
    ensures
        assign::storable(ValueView::List(s)) <==> forall|i: int|
            0 <= i < s.len() ==> assign::storable(#[trigger] s[i]),
    decreases s.len(),
{
    if s.len() > 0 {
        let t = s.drop_last();
        a_list_is_storable_item_by_item(t);
        assert(s.last() == s[s.len() - 1]);
        if forall|i: int| 0 <= i < s.len() ==> assign::storable(#[trigger] s[i]) {
            assert forall|i: int| 0 <= i < t.len() implies assign::storable(#[trigger] t[i]) by {
                assert(assign::storable(s[i]));
            }
        }
        if assign::storable(ValueView::List(s)) {
            assert forall|i: int| 0 <= i < s.len() implies assign::storable(#[trigger] s[i]) by {
                if i < t.len() {
                    assert(assign::storable(t[i]));
                }
            }
        }
    }
}

/// The variable is bound to a node: it holds an id, and no relationship is noted for it.
pub open spec fn binds_node(rec: Row, var: Seq<char>, id: i64) -> bool {
    &&& assoc::lookup(rec, var) == Some(ValueView::I64(id))
    &&& !(assoc::lookup(rec, var + "."@ + "__src"@) matches Some(ValueView::I64(_)))
}

/// SET of a property of a node sets that property of that node to the value of the expression,
/// where it can be stored, and the row reads it from then on; nothing else in the row changes.
pub proof fn a_node_property_is_set_as_written(
    rec: Row,
    a: Assignment,
    id: i64,
    m: Model,
    k: Seq<char>,
)
    requires
        assoc::distinct(assoc::keys(rec)),
        binds_node(rec, a.variable@, id),
        assign::assigned(rec, a, m) is Ok,
    ensures
        ({
            let v = (m.eval)(a.value@, rec);
            let p = assign::assigned(rec, a, m)->Ok_0;
            &&& v is Ok
            &&& assign::storable(v->Ok_0)
            &&& p.changes.len() == 2
            &&& p.changes[0] == (ChangeView::SetNodeProperty {
                id: NodeId(id as u64),
                property: a.property@,
                value: v->Ok_0,
            })
            &&& (m.node)(NodeId(id as u64)) is Ok
            &&& p.changes[1] matches ChangeView::Reindex { id: x, labels, old: was, new: is }
                && x == NodeId(id as u64) && was == (m.node)(x)->Ok_0.properties && is
                == assign::with_entry(was, a.property@, v->Ok_0)
            &&& assoc::lookup(p.row, k) == (if k == a.variable@ + "."@ + a.property@ {
                if v->Ok_0 is Null {
                    None
                } else {
                    Some(v->Ok_0)
                }
            } else {
                assoc::lookup(rec, k)
            })
        }),
{
    let v = (m.eval)(a.value@, rec)->Ok_0;
    an_entry_set_reads_back(rec, text::dotted(a.variable@, a.property@), v, k);
}

/// SET of a property of a relationship sets that property of that relationship.
pub proof fn a_relationship_property_is_set_as_written(
    rec: Row,
    a: Assignment,
    s: i64,
    d: i64,
    t: Seq<char>,
    q: i64,
    m: Model,
    k: Seq<char>,
)
    requires
        assoc::distinct(assoc::keys(rec)),
        join_laws::names_relationship(rec, a.variable@, s, d, t, q as u64),
        assoc::lookup(rec, a.variable@ + "."@ + "__edge_seq"@) == Some(ValueView::I64(q)),
        assign::assigned(rec, a, m) is Ok,
    ensures
        ({
            let v = (m.eval)(a.value@, rec);
            let p = assign::assigned(rec, a, m)->Ok_0;
            &&& v is Ok
            &&& assign::storable(v->Ok_0)
            &&& p.changes.len() == 1
            &&& p.changes[0] == (ChangeView::SetEdgeProperty {
                src: NodeId(s as u64),
                dst: NodeId(d as u64),
                label: t,
                seq: Some(q as u64),
                property: a.property@,
                value: v->Ok_0,
            })
            &&& assoc::lookup(p.row, k) == (if k == a.variable@ + "."@ + a.property@ {
                if v->Ok_0 is Null {
                    None
                } else {
                    Some(v->Ok_0)
                }
            } else {
                assoc::lookup(rec, k)
            })
        }),
{
    let v = (m.eval)(a.value@, rec)->Ok_0;
    an_entry_set_reads_back(rec, text::dotted(a.variable@, a.property@), v, k);
}

/// SET and REMOVE leave alone what a variable that is bound to nothing would change.
pub proof fn nothing_is_changed_through_null(rec: Row, a: Assignment, m: Model)
    requires
        assoc::lookup(rec, a.variable@) == Some(ValueView::Null),
        !(assoc::lookup(rec, a.variable@ + "."@ + "__src"@) matches Some(ValueView::I64(_))),
    ensures
        assign::assigned(rec, a, m) matches Ok(p) && p.changes.len() == 0 && p.row == rec,
{
}

/// Properties with those of a map set over them: one that the map names has the map's value, one
/// that the map sets to null is gone, and all others stay.
pub proof fn a_map_is_set_over_properties(base: Row, map: Row, check: bool, k: Seq<char>)
    requires
        assoc::distinct(assoc::keys(base)),
        assoc::distinct(assoc::keys(map)),
        assign::merged(base, map, check) is Ok,
    ensures
        assoc::distinct(assoc::keys(assign::merged(base, map, check)->Ok_0)),
        assoc::lookup(assign::merged(base, map, check)->Ok_0, k) == (match assoc::lookup(map, k) {
            Some(ValueView::Null) => None,
            Some(v) => Some(v),
            None => assoc::lookup(base, k),
        }),
        check ==> forall|i: int| 0 <= i < map.len() ==> assign::storable((#[trigger] map[i]).1),
    decreases map.len(),
{
    if map.len() > 0 {
        let t = map.drop_last();
        let e = map.last();
        lemma_fewer_differ(map);
        a_map_is_set_over_properties(base, t, check, k);
        let so_far = assign::merged(base, t, check)->Ok_0;
        an_entry_set_reads_back(so_far, e.0, e.1, k);
        assert(t.push(e) =~= map);
        row_laws::lemma_lookup_push(t, e, k);
        if e.0 == k {
            row_laws::only_bound_names_read(t, k);
            assert(row_laws::free_of(t, k)) by {
                assert forall|j: int| 0 <= j < t.len() implies (#[trigger] t[j]).0 != k by {
                    assert(assoc::keys(map)[j] != assoc::keys(map)[map.len() - 1]);
                }
            }
        }
        assert forall|i: int| check && 0 <= i < map.len() implies assign::storable(
            (#[trigger] map[i]).1,
        ) by {
            if i < t.len() {
                assert(t[i] == map[i]);
            }
        }
    } else {
        row_laws::only_bound_names_read(map, k);
    }
}

/// Without the last entry names still differ.
proof fn lemma_fewer_differ(s: Row)
    requires
        s.len() > 0,
        assoc::distinct(assoc::keys(s)),
    ensures
        assoc::distinct(assoc::keys(s.drop_last())),
{
    let t = s.drop_last();
    assert forall|i: int, j: int| 0 <= i < j < t.len() implies #[trigger] assoc::keys(t)[i]
        != #[trigger] assoc::keys(t)[j] by {
        assert(assoc::keys(s)[i] != assoc::keys(s)[j]);
    }
}

/// ON CREATE and ON MATCH set a map over properties in the same way.
pub proof fn a_map_is_laid_over_properties(base: Row, map: Row)
    ensures
        assign::merged(base, map, false) == Ok::<Row, ErrorView>(merge_set::overlaid(base, map)),
    decreases map.len(),
{
    if map.len() > 0 {
        a_map_is_laid_over_properties(base, map.drop_last());
    }
}

/// SET of all properties of a node at once replaces them by those of the map, or with `+=` lays
/// those of the map over them.
pub proof fn node_properties_are_set_as_written(
    rec: Row,
    var: Seq<char>,
    e: Expr,
    merge: bool,
    id: i64,
    m: Model,
    map: Row,
)
    requires
        binds_node(rec, var, id),
        (m.eval)(e@, rec) == Ok::<ValueView, ErrorView>(ValueView::MapValue(map)),
        assign::properties_set(rec, var, e, merge, m) is Ok,
    ensures
        ({
            let p = assign::properties_set(rec, var, e, merge, m)->Ok_0;
            let n = (m.node)(NodeId(id as u64));
            &&& n is Ok
            &&& p.changes.len() == 2
            &&& p.changes[0] matches ChangeView::SetNodeProperties { id: x, properties } && x
                == NodeId(id as u64) && assign::merged(
                if merge {
                    n->Ok_0.properties
                } else {
                    Row::empty()
                },
                map,
                false,
            ) == Ok::<Row, ErrorView>(properties)
        }),
{
}

/// SET of labels asks for each of them to be added to the node that the variable is bound to.
pub proof fn labels_are_added_as_written(rec: Row, var: Seq<char>, labels: Seq<Seq<char>>, id: i64)
    requires
        assoc::lookup(rec, var) == Some(ValueView::I64(id)),
    ensures
        ({
            let p = assign::labels_set(rec, var, labels);
            &&& p.changes.len() == labels.len()
            &&& forall|i: int|
                0 <= i < labels.len() ==> #[trigger] p.changes[i] == (ChangeView::AddLabel {
                    id: NodeId(id as u64),
                    label: labels[i],
                })
        }),
{
}

/// Adding labels to a list of them keeps all that were there, and adds all that were not.
pub proof fn added_labels_are_there(s: Seq<ValueView>, more: Seq<Seq<char>>, x: Seq<char>)
    ensures
        assign::labelled(s, more).contains(ValueView::String(x)) <==> s.contains(
            ValueView::String(x),
        ) || more.contains(x),
    decreases more.len(),
{
    let v = ValueView::String(x);
    if more.len() > 0 {
        let u = more.drop_last();
        let y = more.last();
        added_labels_are_there(s, u, x);
        let t = assign::labelled(s, u);
        let all = assign::labelled(s, more);
        if more.contains(x) {
            let i = choose|i: int| 0 <= i < more.len() && more[i] == x;
            if i < u.len() {
                assert(u[i] == x);
            }
        }
        if u.contains(x) {
            let i = choose|i: int| 0 <= i < u.len() && u[i] == x;
            assert(more[i] == x);
        }
        assert(more[more.len() - 1] == y);
        if assign::has_label(t, y) {
            let i = choose|i: int|
                0 <= i < t.len() && crate::order::same(#[trigger] t[i], ValueView::String(y));
            assert(t[i] == ValueView::String(y));
            assert(t.contains(ValueView::String(y)));
            if x == y {
                assert(all.contains(v));
            }
        } else {
            assert(all == t.push(ValueView::String(y)));
            if t.contains(v) {
                let i = choose|i: int| 0 <= i < t.len() && t[i] == v;
                assert(all[i] == v);
            }
            assert(all[t.len() as int] == ValueView::String(y));
            if all.contains(v) && !t.contains(v) {
                let i = choose|i: int| 0 <= i < all.len() && all[i] == v;
                if i < t.len() {
                    assert(t[i] == v);
                }
            }
        }
    }
}

/// Taking labels from a list of them leaves exactly those that were not taken.
pub proof fn removed_labels_are_gone(s: Seq<ValueView>, less: Seq<Seq<char>>, x: Seq<char>)
    ensures
        assign::unlabelled(s, less).contains(ValueView::String(x)) <==> s.contains(
            ValueView::String(x),
        ) && !less.contains(x),
    decreases s.len(),
{
    let v = ValueView::String(x);
    let out = assign::unlabelled(s, less);
    if s.len() > 0 {
        let u = s.drop_last();
        removed_labels_are_gone(u, less, x);
        let t = assign::unlabelled(u, less);
        assert(s[s.len() - 1] == s.last());
        if s.contains(v) {
            let i = choose|i: int| 0 <= i < s.len() && s[i] == v;
            if i < u.len() {
                assert(u[i] == v);
            }
        }
        if u.contains(v) {
            let i = choose|i: int| 0 <= i < u.len() && u[i] == v;
            assert(s[i] == v);
        }
        if out != t {
            assert(out == t.push(s.last()));
            if t.contains(v) {
                let i = choose|i: int| 0 <= i < t.len() && t[i] == v;
                assert(out[i] == v);
            }
            assert(out[t.len() as int] == s.last());
            if out.contains(v) && !t.contains(v) {
                let i = choose|i: int| 0 <= i < out.len() && out[i] == v;
                if i < t.len() {
                    assert(t[i] == v);
                }
            }
        }
    }
}

/// The row of a SET of labels lists the labels that were there and the new ones.
pub proof fn a_row_lists_its_new_labels(
    rec: Row,
    var: Seq<char>,
    labels: Seq<Seq<char>>,
    id: i64,
    current: Seq<ValueView>,
    x: Seq<char>,
)
    requires
        assoc::lookup(rec, var) == Some(ValueView::I64(id)),
        assoc::lookup(rec, var + "."@ + "__labels"@) == Some(ValueView::List(current)),
    ensures
        assoc::lookup(assign::labels_set(rec, var, labels).row, var + "."@ + "__labels"@) matches Some(
            ValueView::List(now),
        ) && (now.contains(ValueView::String(x)) <==> current.contains(ValueView::String(x))
            || labels.contains(x)),
{
    let t = assign::labelled(current, labels);
    let now = arrange::sorted(t, assign::label_before());
    let k = text::dotted(var, "__labels"@);
    let joined = assoc::put(
        rec,
        text::dotted(var, "__label"@),
        ValueView::String(text::joined(assign::label_texts(now), ':')),
    );
    assoc::lemma_lookup_put(joined, k, ValueView::List(now), k);
    added_labels_are_there(current, labels, x);
    sort_laws::sorting_keeps_rows(t, assign::label_before());
    let v = ValueView::String(x);
    t.to_multiset_ensures();
    now.to_multiset_ensures();
    assert(t.contains(v) <==> t.to_multiset().count(v) > 0);
    assert(now.contains(v) <==> now.to_multiset().count(v) > 0);
}

/// REMOVE of a property of a node removes that property of that node, and the row reads it no
/// more; nothing else in the row changes.
pub proof fn a_node_property_is_removed_as_written(
    rec: Row,
    item: RemoveItem,
    id: i64,
    m: Model,
    k: Seq<char>,
)
    requires
        item is Property,
        assoc::distinct(assoc::keys(rec)),
        binds_node(rec, item->Property_variable@, id),
        assign::removed(rec, item, m) is Ok,
    ensures
        ({
            let p = assign::removed(rec, item, m)->Ok_0;
            let name = item->Property_property@;
            &&& p.changes.len() == 2
            &&& p.changes[0] == (ChangeView::RemoveNodeProperty {
                id: NodeId(id as u64),
                property: name,
            })
            &&& assoc::lookup(p.row, k) == (if k == item->Property_variable@ + "."@ + name {
                None
            } else {
                assoc::lookup(rec, k)
            })
        }),
{
    a_name_taken_out_is_gone(
        rec,
        text::dotted(item->Property_variable@, item->Property_property@),
        k,
    );
}

/// REMOVE of labels asks for each of them to be taken from the node that the variable is bound
/// to.
pub proof fn labels_are_removed_as_written(rec: Row, item: RemoveItem, id: i64, m: Model)
    requires
        item is Label,
        assoc::lookup(rec, item->Label_variable@) == Some(ValueView::I64(id)),
    ensures
        assign::removed(rec, item, m) matches Ok(p) && p.changes.len()
            == item->Label_labels@.len() && forall|i: int|
            0 <= i < p.changes.len() ==> #[trigger] p.changes[i] == (ChangeView::RemoveLabel {
                id: NodeId(id as u64),
                label: item->Label_labels@[i]@,
            }),
{
}

/// Setting properties one by one sets each of them, or takes each out.
pub proof fn each_property_is_set(owner: OwnerView, props: Row, clear: bool, i: int)
    requires
        0 <= i < props.len(),
    ensures
        merge_set::settings(owner, props, clear).len() == props.len(),
        ({
            let v = if clear {
                ValueView::Null
            } else {
                props[i].1
            };
            merge_set::settings(owner, props, clear)[i] == (match owner {
                OwnerView::Node(id) => ChangeView::SetNodeProperty {
                    id,
                    property: props[i].0,
                    value: v,
                },
                OwnerView::Edge { src, dst, label, seq } => ChangeView::SetEdgeProperty {
                    src,
                    dst,
                    label,
                    seq,
                    property: props[i].0,
                    value: v,
                },
            })
        }),
{
}

/// An item of ON CREATE or ON MATCH that sets a property sets that property of the node to the
/// value of its expression, with the node bound to the variable.
pub proof fn an_item_sets_a_node_property(item: SetItem, id: NodeId, rec: Row, m: Model)
    requires
        item is Property,
        merge_set::node_set(item, id, rec, m) is Ok,
    ensures
        ({
            let a = item->Property_0;
            let v = (m.eval)(
                a.value@,
                assoc::put(rec, a.variable@, ValueView::I64(id.0 as i64)),
            );
            let out = merge_set::node_set(item, id, rec, m)->Ok_0;
            v is Ok && out.len() == 2 && out[0] == (ChangeView::SetNodeProperty {
                id,
                property: a.property@,
                value: v->Ok_0,
            })
        }),
{
}

/// An item of ON CREATE or ON MATCH that adds labels adds each of them to the node.
pub proof fn an_item_adds_labels(item: SetItem, id: NodeId, rec: Row, m: Model, i: int)
    requires
        item is Label,
        0 <= i < item->Label_labels@.len(),
    ensures
        merge_set::node_set(item, id, rec, m) matches Ok(out) && out.len()
            == item->Label_labels@.len() + 1 && out[i] == (ChangeView::AddLabel {
            id,
            label: item->Label_labels@[i]@,
        }),
{
}

} // verus!
