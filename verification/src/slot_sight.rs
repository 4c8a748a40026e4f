//! What an operator sees of a row that is kept by slots, and when that is enough.
use crate::assoc;
use crate::ast_model::{ExprKindView, ExprView, ReturnItemView};
use crate::binding;
use crate::binding_laws;
use crate::exec::expand;
use crate::exec::expand::ExpansionView;
use crate::exec::flow;
use crate::exec::flow::Rows;
use crate::exec::laws;
use crate::exec::project;
use crate::exec::read;
use crate::iter;
use crate::iter::Stream;
use crate::iter_slot;
use crate::iter_slot::{Cells, Names};
use crate::plan;
use crate::record;
use crate::record::Row;
use crate::source::{Model, StepView};
use crate::text;
use crate::types::{ErrorView, NodeId};
use crate::value::{NodeView, ValueView};
use vstd::prelude::*;

verus! {

/// What is left of a row when it is kept by slots.
pub open spec fn seen(names: Names, r: Row) -> Row {
    record::named(names, record::slotted(names, r))
}

/// What a row has under a name is kept by the slots.
pub open spec fn held(names: Names, r: Row, k: Seq<char>) -> bool {
    names.contains(k) || assoc::lookup(r, k) is None
}

/// What is seen of a row under a name.
pub proof fn lemma_seen(names: Names, r: Row, k: Seq<char>)
    requires
        assoc::distinct(names),
    ensures
        assoc::lookup(seen(names, r), k) == (if names.contains(k) {
            Some(binding_laws::value_at(r, k))
        } else {
            None
        }),
        held(names, r, k) ==> binding_laws::value_at(seen(names, r), k)
            == binding_laws::value_at(r, k),
{
    let s = seen(names, r);
    assert(assoc::keys(s) =~= names);
    if names.contains(k) {
        let i = choose|i: int| 0 <= i < names.len() && names[i] == k;
        assoc::lemma_place_is(names, k, i);
        assert(s[i].1 == binding_laws::value_at(r, k));
    } else {
        assert forall|j: int| 0 <= j < names.len() implies #[trigger] names[j] != k by {
            assert(names.contains(names[j]));
        }
        assoc::lemma_place_is(names, k, names.len() as int);
    }
}

/// Names that are taken once are distinct.
pub proof fn lemma_once(s: Names)
    ensures
        assoc::distinct(iter_slot::once(s)),
    decreases s.len(),
{
    if s.len() > 0 {
        let t = iter_slot::once(s.drop_last());
        lemma_once(s.drop_last());
        assoc::lemma_place(t, s.last());
        if assoc::place(t, s.last()) >= t.len() {
            let u = t.push(s.last());
            assert forall|i: int, j: int| 0 <= i < j < u.len() implies #[trigger] u[i]
                != #[trigger] u[j] by {
                if j < t.len() {
                    assert(t[i] != t[j]);
                } else {
                    assert(t[i] != s.last());
                }
            }
        }
    }
}

/// Rows have the same under each of some names.
pub open spec fn alike(among: spec_fn(Seq<char>) -> bool, a: Row, b: Row) -> bool {
    forall|k: Seq<char>|
        among(k) ==> #[trigger] binding_laws::value_at(a, k) == binding_laws::value_at(b, k)
}

/// The names that a schema has.
pub open spec fn named_in(names: Names) -> spec_fn(Seq<char>) -> bool {
    |k: Seq<char>| names.contains(k)
}

/// Rows that have the same under the names of a schema have the same slots.
pub proof fn lemma_alike_slots(names: Names, a: Row, b: Row)
    requires
        alike(named_in(names), a, b),
    ensures
        record::slotted(names, a) == record::slotted(names, b),
{
    assert forall|i: int| 0 <= i < names.len() implies #[trigger] record::slotted(names, a)[i]
        == record::slotted(names, b)[i] by {
        assert(named_in(names)(names[i]));
        assert(binding_laws::value_at(a, names[i]) == binding_laws::value_at(b, names[i]));
    }
    assert(record::slotted(names, a) =~= record::slotted(names, b));
}

/// Binding the same keeps rows alike.
pub proof fn lemma_alike_put(
    among: spec_fn(Seq<char>) -> bool,
    a: Row,
    b: Row,
    k: Seq<char>,
    v: ValueView,
)
    requires
        alike(among, a, b),
    ensures
        alike(among, assoc::put(a, k, v), assoc::put(b, k, v)),
{
    let (x, y) = (assoc::put(a, k, v), assoc::put(b, k, v));
    assert forall|j: Seq<char>| among(j) implies #[trigger] binding_laws::value_at(x, j)
        == binding_laws::value_at(y, j) by {
        assoc::lemma_lookup_put(a, k, v, j);
        assoc::lemma_lookup_put(b, k, v, j);
        assert(binding_laws::value_at(a, j) == binding_laws::value_at(b, j));
    }
}

/// Binding the same entries keeps rows alike.
pub proof fn lemma_alike_put_all(among: spec_fn(Seq<char>) -> bool, a: Row, b: Row, s: Row)
    requires
        alike(among, a, b),
    ensures
        alike(among, record::put_all(a, s), record::put_all(b, s)),
    decreases s.len(),
{
    if s.len() > 0 {
        lemma_alike_put_all(among, a, b, s.drop_last());
        lemma_alike_put(
            among,
            record::put_all(a, s.drop_last()),
            record::put_all(b, s.drop_last()),
            s.last().0,
            s.last().1,
        );
    }
}

/// Binding the same node keeps rows alike.
pub proof fn lemma_alike_node(
    among: spec_fn(Seq<char>) -> bool,
    a: Row,
    b: Row,
    n: NodeView,
    alias: Seq<char>,
)
    requires
        alike(among, a, b),
    ensures
        alike(among, binding::node_row(a, n, alias), binding::node_row(b, n, alias)),
{
    let id = binding::id_view(n.id);
    let fields = record::fields_of(alias, n.properties);
    let joined = ValueView::String(text::joined(n.labels, ':'));
    let listed = ValueView::List(binding::label_list(n.labels));
    lemma_alike_put(among, a, b, alias, id);
    let (a1, b1) = (assoc::put(a, alias, id), assoc::put(b, alias, id));
    lemma_alike_put_all(among, a1, b1, fields);
    let (a2, b2) = (record::put_all(a1, fields), record::put_all(b1, fields));
    let k = text::dotted(alias, "__label"@);
    lemma_alike_put(among, a2, b2, k, joined);
    let (a3, b3) = (assoc::put(a2, k, joined), assoc::put(b2, k, joined));
    let l = text::dotted(alias, "__labels"@);
    lemma_alike_put(among, a3, b3, l, listed);
    let (a4, b4) = (assoc::put(a3, l, listed), assoc::put(b3, l, listed));
    lemma_alike_put(among, a4, b4, text::dotted(alias, "__id"@), id);
}

/// Binding the same relationship keeps rows alike.
pub proof fn lemma_alike_edge(
    among: spec_fn(Seq<char>) -> bool,
    a: Row,
    b: Row,
    alias: Seq<char>,
    src: NodeId,
    dst: NodeId,
    label: Seq<char>,
    seq: u64,
    props: Row,
)
    requires
        alike(among, a, b),
    ensures
        alike(
            among,
            binding::edge_row(a, alias, src, dst, label, Some(seq), props),
            binding::edge_row(b, alias, src, dst, label, Some(seq), props),
        ),
{
    let typed = ValueView::String(label);
    let (k1, k2) = (text::dotted(alias, "__src"@), text::dotted(alias, "__dst"@));
    let (k3, k4) = (text::dotted(alias, "__type"@), text::dotted(alias, "__edge_seq"@));
    let (s, d) = (binding::id_view(src), binding::id_view(dst));
    let n = ValueView::I64(seq as i64);
    lemma_alike_put(among, a, b, alias, typed);
    let (a1, b1) = (assoc::put(a, alias, typed), assoc::put(b, alias, typed));
    lemma_alike_put(among, a1, b1, k1, s);
    let (a2, b2) = (assoc::put(a1, k1, s), assoc::put(b1, k1, s));
    lemma_alike_put(among, a2, b2, k2, d);
    let (a3, b3) = (assoc::put(a2, k2, d), assoc::put(b2, k2, d));
    lemma_alike_put(among, a3, b3, k3, typed);
    let (a4, b4) = (assoc::put(a3, k3, typed), assoc::put(b3, k3, typed));
    lemma_alike_put(among, a4, b4, k4, n);
    let (a5, b5) = (assoc::put(a4, k4, n), assoc::put(b4, k4, n));
    lemma_alike_put_all(among, a5, b5, record::fields_of(alias, props));
}

/// Taken one by one, items give the same in the slots of a schema.
pub proof fn lemma_each_alike<T>(
    s: Seq<T>,
    f: spec_fn(T) -> Rows,
    g: spec_fn(T) -> Rows,
    out: Names,
)
    requires
        flow::each(s, f) is Ok,
        forall|i: int| 0 <= i < s.len() ==> same_slots(f(#[trigger] s[i]), g(s[i]), out),
    ensures
        same_slots(flow::each(s, f), flow::each(s, g), out),
    decreases s.len(),
{
    if s.len() > 0 {
        let t = s.drop_last();
        assert forall|i: int| 0 <= i < t.len() implies same_slots(
            f(#[trigger] t[i]),
            g(t[i]),
            out,
        ) by {
            assert(t[i] == s[i]);
        }
        assert(s.last() == s[s.len() - 1]);
        lemma_each_alike(t, f, g, out);
        let (a, b) = (flow::each(t, f)->Ok_0, flow::each(t, g)->Ok_0);
        let (c, d) = (f(s.last())->Ok_0, g(s.last())->Ok_0);
        lemma_laid_out_sum(out, a, c);
        lemma_laid_out_sum(out, b, d);
    }
}

/// Where the first gives rows, the second gives rows with the same slots.
pub open spec fn same_slots(a: Rows, b: Rows, out: Names) -> bool {
    a matches Ok(x) ==> (b matches Ok(y) && iter_slot::laid_out(out, x) == iter_slot::laid_out(
        out,
        y,
    ))
}

/// The slots of rows, one after the other.
pub proof fn lemma_laid_out_sum(out: Names, a: Seq<Row>, b: Seq<Row>)
    ensures
        iter_slot::laid_out(out, a + b) == iter_slot::laid_out(out, a) + iter_slot::laid_out(
            out,
            b,
        ),
{
    assert(iter_slot::laid_out(out, a + b) =~= iter_slot::laid_out(out, a)
        + iter_slot::laid_out(out, b));
}

/// Rows taken by slots one by one, where each gives by slots what it gives by names.
pub proof fn lemma_streamed_slots(
    names: Names,
    out: Names,
    rs: Seq<Row>,
    f: spec_fn(Row) -> Rows,
    h: spec_fn(Cells) -> Result<Seq<Cells>, ErrorView>,
)
    requires
        flow::each(rs, f) is Ok,
        forall|i: int|
            0 <= i < rs.len() ==> (f(#[trigger] rs[i]) matches Ok(a) ==> h(
                record::slotted(names, rs[i]),
            ) == Ok::<Seq<Cells>, ErrorView>(iter_slot::laid_out(out, a))),
    ensures
        iter::streamed(Stream { rows: iter_slot::laid_out(names, rs), fault: None }, h) == (Stream {
            rows: iter_slot::laid_out(out, flow::each(rs, f)->Ok_0),
            fault: None::<ErrorView>,
        }),
{
    lemma_each_slots(names, out, rs, f, h);
    laws::lemma_streamed(Stream { rows: iter_slot::laid_out(names, rs), fault: None }, h);
}

/// Rows taken by slots, where each gives by slots what it gives by names.
proof fn lemma_each_slots(
    names: Names,
    out: Names,
    rs: Seq<Row>,
    f: spec_fn(Row) -> Rows,
    h: spec_fn(Cells) -> Result<Seq<Cells>, ErrorView>,
)
    requires
        flow::each(rs, f) is Ok,
        forall|i: int|
            0 <= i < rs.len() ==> (f(#[trigger] rs[i]) matches Ok(a) ==> h(
                record::slotted(names, rs[i]),
            ) == Ok::<Seq<Cells>, ErrorView>(iter_slot::laid_out(out, a))),
    ensures
        flow::each(iter_slot::laid_out(names, rs), h) == Ok::<Seq<Cells>, ErrorView>(
            iter_slot::laid_out(out, flow::each(rs, f)->Ok_0),
        ),
    decreases rs.len(),
{
    let cs = iter_slot::laid_out(names, rs);
    if rs.len() > 0 {
        let t = rs.drop_last();
        assert forall|i: int| 0 <= i < t.len() implies (f(#[trigger] t[i]) matches Ok(a) ==> h(
            record::slotted(names, t[i]),
        ) == Ok::<Seq<Cells>, ErrorView>(iter_slot::laid_out(out, a))) by {
            assert(t[i] == rs[i]);
        }
        lemma_each_slots(names, out, t, f, h);
        assert(cs.drop_last() =~= iter_slot::laid_out(names, t));
        assert(cs.last() == record::slotted(names, rs.last()));
        assert(rs.last() == rs[rs.len() - 1]);
        lemma_laid_out_sum(out, flow::each(t, f)->Ok_0, f(rs.last())->Ok_0);
    } else {
        assert(iter_slot::laid_out(out, Seq::<Row>::empty()) =~= Seq::<Cells>::empty());
    }
}

// ---- Expansions ----

/// The field tells a relationship apart.
pub open spec fn edge_field(k: Seq<char>) -> bool {
    exists|var: Seq<char>| #[trigger] edge_fields_of(var, k)
}

/// The field tells the relationship apart that a variable is bound to.
pub open spec fn edge_fields_of(var: Seq<char>, k: Seq<char>) -> bool {
    ||| k == text::dotted(var, "__src"@)
    ||| k == text::dotted(var, "__dst"@)
    ||| k == text::dotted(var, "__type"@)
    ||| k == text::dotted(var, "__edge_seq"@)
}

/// The slots keep what an expansion reads of a row and what it passes on: the ends that are bound
/// already, the relationships of the row, and each field that has a slot afterwards.
pub open spec fn expansion_held(names: Names, out: Names, r: Row, x: ExpansionView) -> bool {
    &&& held(names, r, x.src_alias)
    &&& held(names, r, x.dst_alias)
    &&& hops(x) ==> forall|k: Seq<char>| #[trigger] edge_field(k) ==> held(names, r, k)
    &&& forall|k: Seq<char>| out.contains(k) ==> #[trigger] held(names, r, k)
}

/// The expansion binds single relationships, each at most once in a row.
pub open spec fn hops(x: ExpansionView) -> bool {
    x.rel_alias is Some && !x.var_length
}

/// The names that an expansion is about.
spec fn about(out: Names, hops: bool) -> spec_fn(Seq<char>) -> bool {
    |k: Seq<char>| out.contains(k) || (hops && edge_field(k))
}

/// Rows with the same fields of relationships have the same relationships.
proof fn lemma_bound_elsewhere(a: Row, b: Row, alias: Seq<char>, key: binding::EdgeKey)
    requires
        forall|k: Seq<char>| #[trigger]
            edge_field(k) ==> binding_laws::value_at(a, k) == binding_laws::value_at(b, k),
        binding::bound_elsewhere(a, alias, key),
    ensures
        binding::bound_elsewhere(b, alias, key),
{
    let i = choose|i: int|
        0 <= i < a.len() && #[trigger] binding::edge_at(a, i) == Some(key) && a[i].0
            != text::dotted(alias, "__src"@);
    let k = a[i].0;
    let var = k.take(k.len() - ".__src"@.len());
    assert(k == text::dotted(var, "__src"@)) by {
        reveal_strlit(".__src");
        reveal_strlit("__src");
        reveal_strlit(".");
        assert("."@ + "__src"@ =~= ".__src"@);
        assert(k =~= var + ".__src"@);
        assert(text::dotted(var, "__src"@) =~= var + ("."@ + "__src"@));
    }
    let (k2, k3) = (text::dotted(var, "__dst"@), text::dotted(var, "__type"@));
    let k4 = text::dotted(var, "__edge_seq"@);
    assert(edge_fields_of(var, k) && edge_fields_of(var, k2));
    assert(edge_fields_of(var, k3) && edge_fields_of(var, k4));
    assert(edge_field(k) && edge_field(k2) && edge_field(k3) && edge_field(k4));
    assert(binding::edge_ends(b, var) == binding::edge_ends(a, var));
    assert(binding::edge_number(b, var) == binding::edge_number(a, var));
    assoc::lemma_place(assoc::keys(b), k);
    let j = assoc::place(assoc::keys(b), k) as int;
    assert(j < b.len());
    assert(assoc::keys(b)[j] == k);
    assert(b[j].0 == k);
    assert(binding::edge_at(b, j) == Some(key));
}

/// A hop gives the same slots on rows that are alike.
proof fn lemma_hop(
    a: Row,
    b: Row,
    n: NodeView,
    ends: (NodeId, NodeId),
    label: Seq<char>,
    edge: (u64, Row),
    alias: Seq<char>,
    dst: Seq<char>,
    out: Names,
)
    requires
        alike(about(out, true), a, b),
    ensures
        same_slots(
            expand::hop_row(a, n, ends, label, edge, alias, dst),
            expand::hop_row(b, n, ends, label, edge, alias, dst),
            out,
        ),
{
    lemma_alike_node(about(out, true), a, b, n, dst);
    let (x, y) = (binding::node_row(a, n, dst), binding::node_row(b, n, dst));
    let key = binding::edge_key(ends.0.0 as i64, ends.1.0 as i64, label, edge.0);
    assert forall|k: Seq<char>| #[trigger] edge_field(k) implies binding_laws::value_at(x, k)
        == binding_laws::value_at(y, k) by {
        assert(about(out, true)(k));
    }
    if binding::bound_elsewhere(x, alias, key) {
        lemma_bound_elsewhere(x, y, alias, key);
    }
    if binding::bound_elsewhere(y, alias, key) {
        lemma_bound_elsewhere(y, x, alias, key);
    }
    lemma_alike_edge(about(out, true), x, y, alias, ends.0, ends.1, label, edge.0, edge.1);
    let p = binding::edge_row(x, alias, ends.0, ends.1, label, Some(edge.0), edge.1);
    let q = binding::edge_row(y, alias, ends.0, ends.1, label, Some(edge.0), edge.1);
    lemma_about_slots(out, true, p, q);
    assert(iter_slot::laid_out(out, seq![p]) =~= iter_slot::laid_out(out, seq![q]));
}

/// Rows that are alike as far as an expansion goes have the same slots.
proof fn lemma_about_slots(out: Names, hops: bool, a: Row, b: Row)
    requires
        alike(about(out, hops), a, b),
    ensures
        record::slotted(out, a) == record::slotted(out, b),
{
    assert(alike(named_in(out), a, b)) by {
        assert forall|k: Seq<char>| named_in(out)(k) implies #[trigger] binding_laws::value_at(
            a,
            k,
        ) == binding_laws::value_at(b, k) by {
            assert(about(out, hops)(k));
        }
    }
    lemma_alike_slots(out, a, b);
}

/// The relationships to a node give the same slots on rows that are alike.
proof fn lemma_neighbor(
    a: Row,
    b: Row,
    from: NodeId,
    to: NodeId,
    label: Seq<char>,
    bound: Option<NodeId>,
    x: ExpansionView,
    m: Model,
    out: Names,
    hops: bool,
)
    requires
        x.rel_alias is Some ==> hops,
        alike(about(out, hops), a, b),
    ensures
        same_slots(
            expand::neighbor_rows(a, from, to, label, bound, x, m),
            expand::neighbor_rows(b, from, to, label, bound, x, m),
            out,
        ),
{
    if expand::neighbor_rows(a, from, to, label, bound, x, m) is Ok && !expand::elsewhere(
        bound,
        to,
    ) {
        match x.rel_alias {
            None => {
                let n = (m.node)(to)->Ok_0;
                lemma_alike_node(about(out, hops), a, b, n, x.dst_alias);
                let p = binding::node_row(a, n, x.dst_alias);
                let q = binding::node_row(b, n, x.dst_alias);
                lemma_about_slots(out, hops, p, q);
                assert(iter_slot::laid_out(out, seq![p]) =~= iter_slot::laid_out(out, seq![q]));
            },
            Some(alias) => {
                let ends = expand::ends_of_edge(from, to, label, x.direction, m);
                let all = (m.all_edge_props)(ends.0, ends.1, label)->Ok_0;
                let n = (m.node)(to)->Ok_0;
                let s = expand::edges_or_one(all);
                let f = |e: (u64, Row)|
                    expand::hop_row(a, n, ends, label, e, alias, x.dst_alias);
                let g = |e: (u64, Row)|
                    expand::hop_row(b, n, ends, label, e, alias, x.dst_alias);
                assert forall|i: int| 0 <= i < s.len() implies same_slots(
                    f(#[trigger] s[i]),
                    g(s[i]),
                    out,
                ) by {
                    lemma_hop(a, b, n, ends, label, s[i], alias, x.dst_alias, out);
                }
                lemma_each_alike(s, f, g, out);
            },
        }
    }
}

/// The relationships of a type give the same slots on rows that are alike.
proof fn lemma_typed(
    a: Row,
    b: Row,
    from: NodeId,
    label: Seq<char>,
    bound: Option<NodeId>,
    x: ExpansionView,
    m: Model,
    out: Names,
    hops: bool,
)
    requires
        x.rel_alias is Some ==> hops,
        alike(about(out, hops), a, b),
    ensures
        same_slots(
            expand::typed_rows(a, from, label, bound, x, m),
            expand::typed_rows(b, from, label, bound, x, m),
            out,
        ),
{
    if expand::typed_rows(a, from, label, bound, x, m) is Ok {
        let ids = (m.neighbors)(from, label, x.direction)->Ok_0;
        let f = |to: NodeId| expand::neighbor_rows(a, from, to, label, bound, x, m);
        let g = |to: NodeId| expand::neighbor_rows(b, from, to, label, bound, x, m);
        assert forall|i: int| 0 <= i < ids.len() implies same_slots(
            f(#[trigger] ids[i]),
            g(ids[i]),
            out,
        ) by {
            lemma_neighbor(a, b, from, ids[i], label, bound, x, m, out, hops);
        }
        lemma_each_alike(ids, f, g, out);
    }
}

/// A path gives the same slots on rows that are alike.
proof fn lemma_path(
    a: Row,
    b: Row,
    path: (NodeId, Seq<StepView>),
    x: ExpansionView,
    bound: Option<NodeId>,
    m: Model,
    out: Names,
    hops: bool,
)
    requires
        alike(about(out, hops), a, b),
    ensures
        same_slots(
            expand::path_row(a, path, x, bound, m),
            expand::path_row(b, path, x, bound, m),
            out,
        ),
{
    if expand::path_row(a, path, x, bound, m) is Ok && !expand::elsewhere(bound, path.0) {
        let n = (m.node)(path.0)->Ok_0;
        lemma_alike_node(about(out, hops), a, b, n, x.dst_alias);
        let p = binding::node_row(a, n, x.dst_alias);
        let q = binding::node_row(b, n, x.dst_alias);
        match x.rel_alias {
            Some(k) => {
                let v = ValueView::List(expand::step_edges(path.1, m));
                lemma_alike_put(about(out, hops), p, q, k, v);
                let (s, t) = (assoc::put(p, k, v), assoc::put(q, k, v));
                lemma_about_slots(out, hops, s, t);
                assert(iter_slot::laid_out(out, seq![s]) =~= iter_slot::laid_out(out, seq![t]));
            },
            None => {
                lemma_about_slots(out, hops, p, q);
                assert(iter_slot::laid_out(out, seq![p]) =~= iter_slot::laid_out(out, seq![q]));
            },
        }
    }
}

/// An expansion gives the same slots on a row and on what is seen of it.
pub proof fn lemma_expansion_seen(
    names: Names,
    out: Names,
    r: Row,
    x: ExpansionView,
    work: u64,
    m: Model,
)
    requires
        assoc::distinct(names),
        expansion_held(names, out, r, x),
    ensures
        same_slots(
            expand::expanded(r, x, None, work, m),
            expand::expanded(seen(names, r), x, None, work, m),
            out,
        ),
{
    let b = seen(names, r);
    lemma_seen(names, r, x.src_alias);
    lemma_seen(names, r, x.dst_alias);
    assert(alike(about(out, hops(x)), r, b)) by {
        assert forall|k: Seq<char>| about(out, hops(x))(k) implies #[trigger] binding_laws::value_at(r, k)
            == binding_laws::value_at(b, k) by {
            assert(held(names, r, k));
            lemma_seen(names, r, k);
        }
    }
    if expand::expanded(r, x, None, work, m) is Ok {
        let from = binding::node_in(assoc::lookup(r, x.src_alias));
        let bound = binding::node_in(assoc::lookup(r, x.dst_alias));
        assert(from == binding::node_in(assoc::lookup(b, x.src_alias)));
        assert(bound == binding::node_in(assoc::lookup(b, x.dst_alias)));
        match from {
            Some(src) => {
                let labels = expand::types_from(src, x, m)->Ok_0;
                if x.var_length {
                    let paths = (m.paths)(expand::path_ask(src, x, None, work))->Ok_0;
                    let f = |p: (NodeId, Seq<StepView>)| expand::path_row(r, p, x, bound, m);
                    let g = |p: (NodeId, Seq<StepView>)| expand::path_row(b, p, x, bound, m);
                    assert forall|i: int| 0 <= i < paths.len() implies same_slots(
                        f(#[trigger] paths[i]),
                        g(paths[i]),
                        out,
                    ) by {
                        lemma_path(r, b, paths[i], x, bound, m, out, hops(x));
                    }
                    lemma_each_alike(paths, f, g, out);
                } else {
                    let f = |label: Seq<char>| expand::typed_rows(r, src, label, bound, x, m);
                    let g = |label: Seq<char>| expand::typed_rows(b, src, label, bound, x, m);
                    assert forall|i: int| 0 <= i < labels.len() implies same_slots(
                        f(#[trigger] labels[i]),
                        g(labels[i]),
                        out,
                    ) by {
                        lemma_typed(r, b, src, labels[i], bound, x, m, out, hops(x));
                    }
                    lemma_each_alike(labels, f, g, out);
                }
            },
            None => {},
        }
    }
}

// ---- Lists ----

/// The slots keep what an UNWIND reads of a row and what it passes on, and no entry of a map that
/// is unwound has a slot of its own.
pub open spec fn unwinding_held(
    names: Names,
    out: Names,
    r: Row,
    e: ExprView,
    alias: Seq<char>,
    m: Model,
) -> bool {
    &&& (m.eval)(e, seen(names, r)) == (m.eval)(e, r)
    &&& forall|k: Seq<char>| out.contains(k) ==> #[trigger] held(names, r, k)
    &&& (m.eval)(e, r) matches Ok(ValueView::List(items)) ==> forall|i: int|
        0 <= i < items.len() ==> no_entry_slots(out, alias, #[trigger] items[i])
}

/// No entry of the value, where it is a map, has a slot of its own.
pub open spec fn no_entry_slots(out: Names, alias: Seq<char>, v: ValueView) -> bool {
    v matches ValueView::MapValue(entries) ==> forall|i: int|
        0 <= i < entries.len() ==> !out.contains(text::dotted(alias, (#[trigger] entries[i]).0))
}

/// A list gives the same slots on a row and on what is seen of it.
pub proof fn lemma_unwinding_seen(
    names: Names,
    out: Names,
    r: Row,
    e: ExprView,
    alias: Seq<char>,
    m: Model,
)
    requires
        assoc::distinct(names),
        unwinding_held(names, out, r, e, alias, m),
    ensures
        same_slots(
            read::unwound_expr(r, e, alias, m),
            iter_slot::slot_unwound(seen(names, r), e, alias, m),
            out,
        ),
{
    let b = seen(names, r);
    let among = named_in(out);
    assert(alike(among, r, b)) by {
        assert forall|k: Seq<char>| among(k) implies #[trigger] binding_laws::value_at(r, k)
            == binding_laws::value_at(b, k) by {
            assert(held(names, r, k));
            lemma_seen(names, r, k);
        }
    }
    match (m.eval)(e, r) {
        Ok(ValueView::List(items)) => {
            let x = Seq::new(items.len(), |i: int| read::unwound_row(r, items[i], alias));
            let y = Seq::new(items.len(), |i: int| iter_slot::slot_unwound_row(b, items[i], alias));
            assert forall|i: int| 0 <= i < items.len() implies record::slotted(
                out,
                #[trigger] x[i],
            ) == record::slotted(out, y[i]) by {
                assert(no_entry_slots(out, alias, items[i]));
                lemma_unwound_row(out, r, b, items[i], alias);
            }
            assert(iter_slot::laid_out(out, x) =~= iter_slot::laid_out(out, y));
        },
        _ => {},
    }
}

/// An item of a list gives the same slots on rows that are alike.
proof fn lemma_unwound_row(out: Names, a: Row, b: Row, item: ValueView, alias: Seq<char>)
    requires
        alike(named_in(out), a, b),
        no_entry_slots(out, alias, item),
    ensures
        record::slotted(out, read::unwound_row(a, item, alias)) == record::slotted(
            out,
            iter_slot::slot_unwound_row(b, item, alias),
        ),
{
    let among = named_in(out);
    let x = read::unwound_row(a, item, alias);
    let y = iter_slot::slot_unwound_row(b, item, alias);
    match item {
        ValueView::Node(n) => {
            lemma_alike_put_all(among, a, b, binding::node_row(Row::empty(), n, alias));
        },
        ValueView::Edge(e) => {
            let (k1, k2) = (text::dotted(alias, "__src"@), text::dotted(alias, "__dst"@));
            let k3 = text::dotted(alias, "__type"@);
            let (s, d) = (binding::id_view(e.src), binding::id_view(e.dst));
            let l = ValueView::String(e.label);
            lemma_alike_put(among, a, b, alias, item);
            let (a1, b1) = (assoc::put(a, alias, item), assoc::put(b, alias, item));
            lemma_alike_put(among, a1, b1, k1, s);
            let (a2, b2) = (assoc::put(a1, k1, s), assoc::put(b1, k1, s));
            lemma_alike_put(among, a2, b2, k2, d);
            let (a3, b3) = (assoc::put(a2, k2, d), assoc::put(b2, k2, d));
            lemma_alike_put(among, a3, b3, k3, l);
            let (a4, b4) = (assoc::put(a3, k3, l), assoc::put(b3, k3, l));
            lemma_alike_put_all(among, a4, b4, record::fields_of(alias, e.properties));
        },
        ValueView::MapValue(entries) => {
            lemma_alike_put(among, a, b, alias, item);
            let q = assoc::put(b, alias, item);
            let fields = record::fields_of(alias, entries);
            assert forall|k: Seq<char>| among(k) implies #[trigger] binding_laws::value_at(x, k)
                == binding_laws::value_at(y, k) by {
                assert forall|i: int| 0 <= i < fields.len() implies (#[trigger] fields[i]).0 != k by {
                    assert(!out.contains(text::dotted(alias, entries[i].0)));
                }
                binding_laws::lemma_put_all_other(q, fields, k);
                assert(binding_laws::value_at(x, k) == binding_laws::value_at(q, k));
            }
        },
        _ => {
            lemma_alike_put(among, a, b, alias, item);
        },
    }
    lemma_alike_slots(out, x, y);
}

// ---- Columns ----

/// The value that an item has on a row, as far as there is one.
pub open spec fn item_on(r: Row, item: ReturnItemView, m: Model) -> Result<ValueView, ErrorView> {
    let own = (m.column_name)(item.expr);
    if project::reads_deleted(r, item.expr) {
        Err(project::deleted_access(item.expr))
    } else {
        match project::precomputed(r, item.expr, iter_slot::item_column(item, m), own) {
            Some(v) => Ok(v),
            None => (m.eval)(item.expr, r),
        }
    }
}

/// A slot that stands for a value holds it.
pub open spec fn stands_for(names: Names, r: Row, k: Seq<char>, v: ValueView) -> bool {
    names.contains(k) ==> binding_laws::value_at(r, k) == v
}

/// The slots keep what an item reads of a row: evaluated on them, it has the value that it has on
/// the row, and a slot that is read in its place holds that value.
pub open spec fn item_held(names: Names, r: Row, item: ReturnItemView, m: Model) -> bool {
    let e = item.expr;
    item_on(r, item, m) matches Ok(v) ==> {
        &&& (m.eval)(e, seen(names, r)) == Ok::<ValueView, ErrorView>(v)
        &&& stands_for(names, r, (m.column_name)(e), v)
        &&& plan::aggregate_call(e) ==> stands_for(names, r, iter_slot::item_column(item, m), v)
        &&& match e.kind {
            ExprKindView::Literal(l) => v == read::literal(l, m),
            ExprKindView::Property(var, prop) => {
                &&& stands_for(names, r, text::dotted(var, prop), v)
                &&& held(names, r, text::dotted(var, "__deleted"@))
            },
            _ => true,
        }
    }
}

/// An item has on the slots the value that it has on the row.
proof fn lemma_item_seen(names: Names, r: Row, item: ReturnItemView, m: Model)
    requires
        assoc::distinct(names),
        item_held(names, r, item, m),
        item_on(r, item, m) is Ok,
    ensures
        iter_slot::slot_item(
            seen(names, r),
            item.expr,
            iter_slot::item_column(item, m),
            (m.column_name)(item.expr),
            m,
        ) == item_on(r, item, m),
{
    let e = item.expr;
    lemma_seen(names, r, (m.column_name)(e));
    lemma_seen(names, r, iter_slot::item_column(item, m));
    match e.kind {
        ExprKindView::Property(var, prop) => {
            lemma_seen(names, r, text::dotted(var, prop));
            lemma_seen(names, r, text::dotted(var, "__deleted"@));
        },
        _ => {},
    }
}

/// The items of a projection by slots are expressions, no bare variable or star.
pub open spec fn plain_items(items: Seq<ReturnItemView>) -> bool {
    forall|i: int|
        0 <= i < items.len() ==> !((#[trigger] items[i]).expr.kind is Star)
            && !(items[i].expr.kind is Variable)
}

/// The slots keep what the items read of a row.
pub open spec fn items_held(names: Names, r: Row, items: Seq<ReturnItemView>, m: Model) -> bool {
    forall|i: int| 0 <= i < items.len() ==> item_held(names, r, #[trigger] items[i], m)
}

/// The columns of items are the same, by slots, on a row and on what is seen of it.
proof fn lemma_columns_seen(
    names: Names,
    out: Names,
    r: Row,
    items: Seq<ReturnItemView>,
    emit: bool,
    m: Model,
)
    requires
        assoc::distinct(names),
        plain_items(items),
        items_held(names, r, items, m),
        project::projected(r, items, emit, m) is Ok,
    ensures
        iter_slot::slot_columns(seen(names, r), items, out, m) matches Ok(q) && alike(
            named_in(out),
            project::projected(r, items, emit, m)->Ok_0,
            q,
        ),
    decreases items.len(),
{
    if items.len() > 0 {
        let front = items.drop_last();
        assert(plain_items(front) && items_held(names, r, front, m)) by {
            assert forall|i: int| 0 <= i < front.len() implies !((
            #[trigger] front[i]).expr.kind is Star) && !(front[i].expr.kind is Variable)
                && item_held(names, r, front[i], m) by {
                assert(front[i] == items[i]);
            }
        }
        lemma_columns_seen(names, out, r, front, emit, m);
        let item = items.last();
        assert(item == items[items.len() - 1]);
        let p = project::projected(r, front, emit, m)->Ok_0;
        let q = iter_slot::slot_columns(seen(names, r), front, out, m)->Ok_0;
        let col = iter_slot::item_column(item, m);
        assert(item_on(r, item, m) is Ok);
        let v = item_on(r, item, m)->Ok_0;
        assert(project::projected(r, items, emit, m)->Ok_0 == assoc::put(p, col, v));
        lemma_item_seen(names, r, item, m);
        assoc::lemma_place(out, col);
        if assoc::place(out, col) < out.len() {
            lemma_alike_put(named_in(out), p, q, col, v);
        } else {
            let x = assoc::put(p, col, v);
            assert forall|k: Seq<char>| named_in(out)(k) implies #[trigger] binding_laws::value_at(
                x,
                k,
            ) == binding_laws::value_at(q, k) by {
                assert(k != col);
                assoc::lemma_lookup_put(p, col, v, k);
                assert(binding_laws::value_at(p, k) == binding_laws::value_at(q, k));
            }
        }
    }
}

/// A projection gives the same slots on a row and on what is seen of it.
pub proof fn lemma_projection_seen(
    names: Names,
    out: Names,
    r: Row,
    items: Seq<ReturnItemView>,
    emit: bool,
    m: Model,
)
    requires
        assoc::distinct(names),
        plain_items(items),
        items_held(names, r, items, m),
    ensures
        same_slots(
            project::projected_one(r, items, emit, m),
            iter_slot::slot_projected(seen(names, r), items, out, m),
            out,
        ),
{
    if project::projected(r, items, emit, m) is Ok {
        lemma_columns_seen(names, out, r, items, emit, m);
        let p = project::projected(r, items, emit, m)->Ok_0;
        let q = iter_slot::slot_columns(seen(names, r), items, out, m)->Ok_0;
        lemma_alike_slots(out, p, q);
        assert(iter_slot::laid_out(out, seq![p]) =~= iter_slot::laid_out(out, seq![q]));
    }
}

} // verus!
