//! What matching a graph pattern finds: the nodes of a scan, and what relationships lead to.
use super::expand;
use super::expand::ExpansionView;
use super::flow;
use super::flow::Rows;
use super::flow_laws;
use super::laws;
use super::read;
use super::run;
use crate::assoc;
use crate::ast_model;
use crate::binding;
use crate::binding_laws;
use crate::plan::{ExecContext, LogicalOp};
use crate::record::Row;
use crate::row_laws;
use crate::source::{Model, PathAsk, StepView};
use crate::types::{Direction, ErrorView, NodeId};
use crate::value::{NodeView, ValueView};
use vstd::prelude::*;

verus! {

/// The node can be bound in a row: no property has a name of the engine's own, and none occurs
/// twice.
pub open spec fn plain_node(n: NodeView) -> bool {
    binding_laws::plain_keys(n.properties) && assoc::distinct(assoc::keys(n.properties))
}

/// The row holds a node under a variable, and what does not belong to the variable is as in
/// another row.
pub open spec fn holds_node(row: Row, rec: Row, var: Seq<char>, n: NodeView) -> bool {
    &&& assoc::lookup(row, var) == Some(ValueView::I64(n.id.0 as i64))
    &&& forall|name: Seq<char>|
        assoc::lookup(n.properties, name) is Some ==> assoc::lookup(
            row,
            #[trigger] (var + "."@ + name),
        ) == assoc::lookup(n.properties, name)
    &&& forall|k: Seq<char>|
        !row_laws::belongs_to(k, var) ==> #[trigger] assoc::lookup(row, k) == assoc::lookup(rec, k)
}

/// Binding a node makes a row that holds it.
proof fn lemma_holds_node(rec: Row, var: Seq<char>, n: NodeView)
    requires
        plain_node(n),
    ensures
        holds_node(binding::node_row(rec, n, var), rec, var, n),
{
    let row = binding::node_row(rec, n, var);
    row_laws::a_bound_node_is_in_the_row(rec, n, var, Seq::empty(), Seq::empty());
    assert forall|name: Seq<char>| assoc::lookup(n.properties, name) is Some implies assoc::lookup(
        row,
        #[trigger] (var + "."@ + name),
    ) == assoc::lookup(n.properties, name) by {
        row_laws::a_bound_node_is_in_the_row(rec, n, var, name, Seq::empty());
    }
    assert forall|k: Seq<char>| !row_laws::belongs_to(k, var) implies #[trigger] assoc::lookup(
        row,
        k,
    ) == assoc::lookup(rec, k) by {
        row_laws::a_bound_node_is_in_the_row(rec, n, var, Seq::empty(), k);
    }
}

/// A scan gives one row for each node with the label, in their order, and each row holds its
/// node.
pub proof fn a_scan_gives_each_node_once(op: LogicalOp, ctx: ExecContext, m: Model, i: int)
    requires
        op is Scan,
        (m.nodes_by_label)(op->Scan_label@) is Ok,
        run::rows_of(op, ctx, m) is Ok,
        0 <= i < (m.nodes_by_label)(op->Scan_label@)->Ok_0.len(),
        plain_node((m.nodes_by_label)(op->Scan_label@)->Ok_0[i]),
    ensures
        run::rows_of(op, ctx, m)->Ok_0.len() == (m.nodes_by_label)(op->Scan_label@)->Ok_0.len(),
        holds_node(
            run::rows_of(op, ctx, m)->Ok_0[i],
            Row::empty(),
            op->Scan_alias@,
            (m.nodes_by_label)(op->Scan_label@)->Ok_0[i],
        ),
{
    lemma_holds_node(
        Row::empty(),
        op->Scan_alias@,
        (m.nodes_by_label)(op->Scan_label@)->Ok_0[i],
    );
}

/// The predicate holds on a row.
pub open spec fn true_of(p: crate::ast_model::ExprView, m: Model) -> spec_fn(Row) -> bool {
    |rec: Row| (m.holds)(p, rec) == Ok::<bool, ErrorView>(true)
}

/// Where a filter succeeds, no row made the predicate fail.
proof fn lemma_all_decided(rs: Seq<Row>, p: crate::ast_model::ExprView, m: Model)
    requires
        read::filtered(rs, p, m) is Ok,
    ensures
        forall|i: int| 0 <= i < rs.len() ==> (m.holds)(p, #[trigger] rs[i]) is Ok,
{
    let f = |rec: Row| read::kept(rec, p, m);
    assert forall|i: int| 0 <= i < rs.len() implies (m.holds)(p, #[trigger] rs[i]) is Ok by {
        flow_laws::nothing_given_is_lost(rs, f, i);
    }
}

/// A filter gives those rows of its input on which the predicate holds, in their order, and no
/// others.
pub proof fn a_filter_keeps_what_holds(op: LogicalOp, ctx: ExecContext, m: Model)
    requires
        op is Filter,
        run::rows_of(*op->Filter_input, ctx, m) is Ok,
        run::rows_of(op, ctx, m) is Ok,
    ensures
        run::rows_of(op, ctx, m)->Ok_0 == run::rows_of(*op->Filter_input, ctx, m)->Ok_0.filter(
            true_of(op->Filter_predicate@, m),
        ),
{
    let rs = run::rows_of(*op->Filter_input, ctx, m)->Ok_0;
    let p = op->Filter_predicate@;
    let out = run::rows_of(op, ctx, m)->Ok_0;
    assert(run::rows_of(op, ctx, m) == run::applied_to(
        op,
        run::rows_of(*op->Filter_input, ctx, m),
        ctx,
        m,
    ));
    assert(read::filtered(rs, p, m) == Ok::<Seq<Row>, ErrorView>(out));
    lemma_all_decided(rs, p, m);
    let f = |rec: Row| read::kept(rec, p, m);
    let g = |rec: Row| rec;
    assert forall|i: int| 0 <= i < rs.len() implies f(#[trigger] rs[i]) == Ok::<
        Seq<Row>,
        ErrorView,
    >(
        if true_of(p, m)(rs[i]) {
            seq![g(rs[i])]
        } else {
            Seq::empty()
        },
    ) by {
        assert((m.holds)(p, rs[i]) is Ok);
    }
    flow_laws::one_or_none_is_a_selection(rs, f, true_of(p, m), g);
    assert(rs.filter(true_of(p, m)).map_values(g) =~= rs.filter(true_of(p, m)));
}

/// The types that an expansion asks for: those in its list or, where the list is empty, all
/// that the node has.
pub open spec fn asks_for(x: ExpansionView, src: NodeId, label: Seq<char>, m: Model) -> bool {
    if x.edge_types.len() == 0 {
        (m.edge_labels)(src, x.direction) matches Ok(ls) && ls.contains(label)
    } else {
        x.edge_types.contains(label)
    }
}

/// A relationship of a type that is asked for leads from one node to the other, in the
/// direction that is asked for.
pub open spec fn leads_to(
    x: ExpansionView,
    src: NodeId,
    label: Seq<char>,
    to: NodeId,
    m: Model,
) -> bool {
    asks_for(x, src, label, m) && ((m.neighbors)(src, label, x.direction) matches Ok(ids)
        && ids.contains(to))
}

/// What the labels of an expansion are gathered by.
spec fn by_label(rec: Row, src: NodeId, bound: Option<NodeId>, x: ExpansionView, m: Model) -> spec_fn(
    Seq<char>,
) -> Rows {
    |label: Seq<char>| expand::typed_rows(rec, src, label, bound, x, m)
}

/// What the neighbours by a type are gathered by.
spec fn by_neighbour(
    rec: Row,
    src: NodeId,
    label: Seq<char>,
    bound: Option<NodeId>,
    x: ExpansionView,
    m: Model,
) -> spec_fn(NodeId) -> Rows {
    |to: NodeId| expand::neighbor_rows(rec, src, to, label, bound, x, m)
}

/// What an expansion by one hop gives for a neighbour is among its rows.
proof fn lemma_hop_given(
    rec: Row,
    x: ExpansionView,
    cap: Option<usize>,
    work: u64,
    m: Model,
    src: i64,
    label: Seq<char>,
    to: NodeId,
)
    requires
        expand::expanded(rec, x, cap, work, m) is Ok,
        !x.var_length,
        assoc::lookup(rec, x.src_alias) == Some(ValueView::I64(src)),
        leads_to(x, NodeId(src as u64), label, to, m),
    ensures
        ({
            let bound = binding::node_in(assoc::lookup(rec, x.dst_alias));
            let part = expand::neighbor_rows(rec, NodeId(src as u64), to, label, bound, x, m);
            part is Ok && forall|row: Row| #[trigger]
                part->Ok_0.contains(row) ==> expand::expanded(
                    rec,
                    x,
                    cap,
                    work,
                    m,
                )->Ok_0.contains(row)
        }),
{
    let id = NodeId(src as u64);
    let bound = binding::node_in(assoc::lookup(rec, x.dst_alias));
    let labels = expand::types_from(id, x, m)->Ok_0;
    let f = by_label(rec, id, bound, x, m);
    assert(labels.contains(label));
    let i = choose|i: int| 0 <= i < labels.len() && labels[i] == label;
    assert(flow::each(labels, f) == expand::expanded(rec, x, cap, work, m));
    flow_laws::nothing_given_is_lost(labels, f, i);
    let ids = (m.neighbors)(id, label, x.direction)->Ok_0;
    let g = by_neighbour(rec, id, label, bound, x, m);
    assert(f(labels[i]) == flow::each(ids, g));
    let j = choose|j: int| 0 <= j < ids.len() && ids[j] == to;
    flow_laws::nothing_given_is_lost(ids, g, j);
    let part = expand::neighbor_rows(rec, id, to, label, bound, x, m);
    assert(g(ids[j]) == part);
    assert forall|row: Row| #[trigger] part->Ok_0.contains(row) implies expand::expanded(
        rec,
        x,
        cap,
        work,
        m,
    )->Ok_0.contains(row) by {
        assert(f(labels[i])->Ok_0.contains(row));
    }
}

/// An expansion by one hop reaches every node that a relationship of a type asked for leads to:
/// for each such node, some row holds it, with all else as in the row that was expanded. The
/// target is not bound yet, and the relationship has no variable.
pub proof fn every_neighbour_is_reached(
    rec: Row,
    x: ExpansionView,
    cap: Option<usize>,
    work: u64,
    m: Model,
    src: i64,
    label: Seq<char>,
    to: NodeId,
    n: NodeView,
)
    requires
        expand::expanded(rec, x, cap, work, m) is Ok,
        !x.var_length,
        x.rel_alias is None,
        assoc::lookup(rec, x.src_alias) == Some(ValueView::I64(src)),
        assoc::lookup(rec, x.dst_alias) is None,
        leads_to(x, NodeId(src as u64), label, to, m),
        (m.node)(to) == Ok::<NodeView, ErrorView>(n),
        plain_node(n),
    ensures
        exists|row: Row| #[trigger]
            expand::expanded(rec, x, cap, work, m)->Ok_0.contains(row) && holds_node(
                row,
                rec,
                x.dst_alias,
                n,
            ),
{
    lemma_hop_given(rec, x, cap, work, m, src, label, to);
    lemma_holds_node(rec, x.dst_alias, n);
    let row = binding::node_row(rec, n, x.dst_alias);
    let part = expand::neighbor_rows(
        rec,
        NodeId(src as u64),
        to,
        label,
        binding::node_in(assoc::lookup(rec, x.dst_alias)),
        x,
        m,
    );
    assert(part->Ok_0[0] == row);
    assert(part->Ok_0.contains(row));
}

/// Where the target is bound to a node already, and a relationship of a type asked for leads
/// to that node, the expansion keeps the row.
pub proof fn a_bound_neighbour_is_reached(
    rec: Row,
    x: ExpansionView,
    cap: Option<usize>,
    work: u64,
    m: Model,
    src: i64,
    dst: i64,
    label: Seq<char>,
    n: NodeView,
)
    requires
        expand::expanded(rec, x, cap, work, m) is Ok,
        !x.var_length,
        x.rel_alias is None,
        assoc::lookup(rec, x.src_alias) == Some(ValueView::I64(src)),
        assoc::lookup(rec, x.dst_alias) == Some(ValueView::I64(dst)),
        leads_to(x, NodeId(src as u64), label, NodeId(dst as u64), m),
        (m.node)(NodeId(dst as u64)) == Ok::<NodeView, ErrorView>(n),
        plain_node(n),
    ensures
        exists|row: Row| #[trigger]
            expand::expanded(rec, x, cap, work, m)->Ok_0.contains(row) && holds_node(
                row,
                rec,
                x.dst_alias,
                n,
            ),
{
    lemma_hop_given(rec, x, cap, work, m, src, label, NodeId(dst as u64));
    lemma_holds_node(rec, x.dst_alias, n);
    let row = binding::node_row(rec, n, x.dst_alias);
    let part = expand::neighbor_rows(
        rec,
        NodeId(src as u64),
        NodeId(dst as u64),
        label,
        Some(NodeId(dst as u64)),
        x,
        m,
    );
    assert(part->Ok_0[0] == row);
    assert(part->Ok_0.contains(row));
}

/// An expansion by one hop reaches only what relationships of the types asked for lead to:
/// each of its rows holds such a node, with all else as in the row that was expanded; and
/// where the target was bound, it is the node that it was bound to.
pub proof fn only_neighbours_are_reached(
    rec: Row,
    x: ExpansionView,
    cap: Option<usize>,
    work: u64,
    m: Model,
    row: Row,
)
    requires
        expand::expanded(rec, x, cap, work, m) is Ok,
        expand::expanded(rec, x, cap, work, m)->Ok_0.contains(row),
        !x.var_length,
        x.rel_alias is None,
        forall|id: NodeId| (#[trigger] (m.node)(id)) matches Ok(n) ==> plain_node(n),
    ensures
        exists|src: NodeId, label: Seq<char>, to: NodeId|
            {
                &&& #[trigger] leads_to(x, src, label, to, m)
                &&& binding::node_in(assoc::lookup(rec, x.src_alias)) == Some(src)
                &&& (m.node)(to) is Ok
                &&& holds_node(row, rec, x.dst_alias, (m.node)(to)->Ok_0)
                &&& assoc::lookup(rec, x.dst_alias) matches Some(ValueView::I64(b)) ==> to
                    == NodeId(b as u64)
            },
{
    let src = binding::node_in(assoc::lookup(rec, x.src_alias))->0;
    let bound = binding::node_in(assoc::lookup(rec, x.dst_alias));
    let labels = expand::types_from(src, x, m)->Ok_0;
    let f = by_label(rec, src, bound, x, m);
    assert(flow::each(labels, f) == expand::expanded(rec, x, cap, work, m));
    flow_laws::nothing_is_made_up(labels, f, row);
    let i = choose|i: int|
        0 <= i < labels.len() && f(#[trigger] labels[i]) is Ok && f(labels[i])->Ok_0.contains(row);
    let label = labels[i];
    let ids = (m.neighbors)(src, label, x.direction)->Ok_0;
    let g = by_neighbour(rec, src, label, bound, x, m);
    assert(f(labels[i]) == flow::each(ids, g));
    flow_laws::nothing_is_made_up(ids, g, row);
    let j = choose|j: int|
        0 <= j < ids.len() && g(#[trigger] ids[j]) is Ok && g(ids[j])->Ok_0.contains(row);
    let to = ids[j];
    assert(g(to) == expand::neighbor_rows(rec, src, to, label, bound, x, m));
    assert(labels.contains(label));
    assert(ids.contains(to));
    assert(leads_to(x, src, label, to, m));
    assert(plain_node((m.node)(to)->Ok_0));
    lemma_holds_node(rec, x.dst_alias, (m.node)(to)->Ok_0);
}

/// By one type, an expansion by one hop gives one row for each neighbour, in their order: none
/// is left out and none is repeated.
pub proof fn each_neighbour_is_reached_once(
    rec: Row,
    x: ExpansionView,
    cap: Option<usize>,
    work: u64,
    m: Model,
    src: i64,
    ids: Seq<NodeId>,
)
    requires
        !x.var_length,
        x.rel_alias is None,
        x.edge_types.len() == 1,
        assoc::lookup(rec, x.src_alias) == Some(ValueView::I64(src)),
        assoc::lookup(rec, x.dst_alias) is None,
        (m.neighbors)(NodeId(src as u64), x.edge_types[0], x.direction) == Ok::<
            Seq<NodeId>,
            ErrorView,
        >(ids),
        forall|i: int|
            0 <= i < ids.len() ==> ((m.node)(#[trigger] ids[i]) matches Ok(n) && plain_node(n)),
    ensures
        expand::expanded(rec, x, cap, work, m) is Ok,
        expand::expanded(rec, x, cap, work, m)->Ok_0.len() == ids.len(),
        forall|i: int|
            0 <= i < ids.len() ==> holds_node(
                #[trigger] expand::expanded(rec, x, cap, work, m)->Ok_0[i],
                rec,
                x.dst_alias,
                (m.node)(ids[i])->Ok_0,
            ),
{
    let id = NodeId(src as u64);
    let label = x.edge_types[0];
    let g = by_neighbour(rec, id, label, None, x, m);
    let h = |to: NodeId| binding::node_row(rec, (m.node)(to)->Ok_0, x.dst_alias);
    assert forall|i: int| 0 <= i < ids.len() implies g(#[trigger] ids[i]) == Ok::<
        Seq<Row>,
        ErrorView,
    >(seq![h(ids[i])]) by {
        assert((m.node)(ids[i]) is Ok);
    }
    flow_laws::one_each_is_place_by_place(ids, g, h);
    let f = by_label(rec, id, None, x, m);
    let labels = x.edge_types;
    assert(flow::each(labels, f) == expand::expanded(rec, x, cap, work, m));
    assert(f(label) == flow::each(ids, g));
    assert(labels.drop_last() =~= Seq::<Seq<char>>::empty());
    assert(flow::each(labels.drop_last(), f) == Ok::<Seq<Row>, ErrorView>(Seq::empty()));
    let all = flow::each(ids, g)->Ok_0;
    assert(Seq::<Row>::empty() + all =~= all);
    assert forall|i: int| 0 <= i < ids.len() implies holds_node(
        #[trigger] expand::expanded(rec, x, cap, work, m)->Ok_0[i],
        rec,
        x.dst_alias,
        (m.node)(ids[i])->Ok_0,
    ) by {
        assert(all[i] == h(ids[i]));
        lemma_holds_node(rec, x.dst_alias, (m.node)(ids[i])->Ok_0);
    }
}

/// An expansion by the types of two lists gives what it gives by those of the one and then what
/// it gives by those of the other.
pub proof fn types_are_followed_in_turn(
    rec: Row,
    x: ExpansionView,
    a: Seq<Seq<char>>,
    b: Seq<Seq<char>>,
    cap: Option<usize>,
    work: u64,
    m: Model,
)
    requires
        !x.var_length,
        a.len() > 0,
        b.len() > 0,
    ensures
        expand::expanded(rec, ExpansionView { edge_types: a + b, ..x }, cap, work, m) == (
        match expand::expanded(rec, ExpansionView { edge_types: a, ..x }, cap, work, m) {
            Ok(first) => match expand::expanded(
                rec,
                ExpansionView { edge_types: b, ..x },
                cap,
                work,
                m,
            ) {
                Ok(then) => Ok(first + then),
                Err(e) => Err(e),
            },
            Err(e) => Err(e),
        }),
{
    let y = ExpansionView { edge_types: a + b, ..x };
    let xa = ExpansionView { edge_types: a, ..x };
    let xb = ExpansionView { edge_types: b, ..x };
    match binding::node_in(assoc::lookup(rec, x.src_alias)) {
        Some(src) => {
            let bound = binding::node_in(assoc::lookup(rec, x.dst_alias));
            let f = by_label(rec, src, bound, y, m);
            let fa = by_label(rec, src, bound, xa, m);
            let fb = by_label(rec, src, bound, xb, m);
            assert forall|label: Seq<char>| #[trigger] f(label) == fa(label) && f(label) == fb(
                label,
            ) by {
                lemma_types_do_not_matter(rec, src, label, bound, y, xa, m);
                lemma_types_do_not_matter(rec, src, label, bound, y, xb, m);
            }
            assert(f =~= fa);
            assert(f =~= fb);
            flow_laws::lists_are_gathered_in_turn(a, b, f);
            assert(expand::expanded(rec, y, cap, work, m) == flow::each(a + b, f));
            assert(expand::expanded(rec, xa, cap, work, m) == flow::each(a, fa));
            assert(expand::expanded(rec, xb, cap, work, m) == flow::each(b, fb));
        },
        None => {
            assert(Seq::<Row>::empty() + Seq::<Row>::empty() =~= Seq::<Row>::empty());
        },
    }
}

/// What is given by one type does not depend on the other types in the list.
proof fn lemma_types_do_not_matter(
    rec: Row,
    src: NodeId,
    label: Seq<char>,
    bound: Option<NodeId>,
    x: ExpansionView,
    y: ExpansionView,
    m: Model,
)
    requires
        y == (ExpansionView { edge_types: y.edge_types, ..x }),
    ensures
        expand::typed_rows(rec, src, label, bound, x, m) == expand::typed_rows(
            rec,
            src,
            label,
            bound,
            y,
            m,
        ),
{
    let f = by_neighbour(rec, src, label, bound, x, m);
    let g = by_neighbour(rec, src, label, bound, y, m);
    assert forall|to: NodeId| #[trigger] f(to) == g(to) by {
        match x.rel_alias {
            Some(a) => {
                let ends = expand::ends_of_edge(src, to, label, x.direction, m);
                match ((m.all_edge_props)(ends.0, ends.1, label), (m.node)(to)) {
                    (Ok(all), Ok(n)) => {
                        let p = |e: (u64, Row)|
                            expand::hop_row(rec, n, ends, label, e, a, x.dst_alias);
                        let q = |e: (u64, Row)|
                            expand::hop_row(rec, n, ends, label, e, a, y.dst_alias);
                        assert(p =~= q);
                    },
                    _ => {},
                }
            },
            None => {},
        }
    }
    assert(f =~= g);
}

/// The row binds no relationship: no field has the name of the start of one.
pub open spec fn binds_no_relationship(rec: Row) -> bool {
    forall|i: int|
        0 <= i < rec.len() ==> ({
            let k = (#[trigger] rec[i]).0;
            k.len() < ".__src"@.len() || k.skip(k.len() - ".__src"@.len()) != ".__src"@
        })
}

/// With a variable for the relationship, an expansion by one hop gives a row for each
/// relationship of the type to each neighbour: the row holds the ends of the relationship, its
/// type and its number. The rows before bind no relationship, and of what is bound there is
/// nothing that looks like one.
pub proof fn every_relationship_is_bound(
    rec: Row,
    x: ExpansionView,
    cap: Option<usize>,
    work: u64,
    m: Model,
    src: i64,
    label: Seq<char>,
    to: NodeId,
    n: NodeView,
    all: Seq<(u64, Row)>,
    i: int,
)
    requires
        expand::expanded(rec, x, cap, work, m) is Ok,
        !x.var_length,
        x.rel_alias is Some,
        x.direction != Direction::Both,
        assoc::lookup(rec, x.src_alias) == Some(ValueView::I64(src)),
        assoc::lookup(rec, x.dst_alias) is None,
        leads_to(x, NodeId(src as u64), label, to, m),
        (m.node)(to) == Ok::<NodeView, ErrorView>(n),
        binds_no_relationship(binding::node_row(rec, n, x.dst_alias)),
        (if x.direction == Direction::Outgoing {
            (m.all_edge_props)(NodeId(src as u64), to, label)
        } else {
            (m.all_edge_props)(to, NodeId(src as u64), label)
        }) == Ok::<Seq<(u64, Row)>, ErrorView>(all),
        0 <= i < all.len(),
        binding_laws::plain_keys(all[i].1),
        assoc::distinct(assoc::keys(all[i].1)),
    ensures
        exists|row: Row| #[trigger]
            expand::expanded(rec, x, cap, work, m)->Ok_0.contains(row) && ({
                let var = x.rel_alias->0;
                let ends = if x.direction == Direction::Outgoing {
                    (src, to.0 as i64)
                } else {
                    (to.0 as i64, src)
                };
                &&& assoc::lookup(row, var) == Some(ValueView::String(label))
                &&& assoc::lookup(row, var + "."@ + "__src"@) == Some(ValueView::I64(ends.0))
                &&& assoc::lookup(row, var + "."@ + "__dst"@) == Some(ValueView::I64(ends.1))
                &&& assoc::lookup(row, var + "."@ + "__type"@) == Some(ValueView::String(label))
                &&& assoc::lookup(row, var + "."@ + "__edge_seq"@) == Some(
                    ValueView::I64(all[i].0 as i64),
                )
                &&& forall|name: Seq<char>|
                    assoc::lookup(all[i].1, name) is Some ==> assoc::lookup(
                        row,
                        #[trigger] (var + "."@ + name),
                    ) == assoc::lookup(all[i].1, name)
                &&& forall|k: Seq<char>|
                    !row_laws::belongs_to(k, var) ==> #[trigger] assoc::lookup(row, k)
                        == assoc::lookup(binding::node_row(rec, n, x.dst_alias), k)
            }),
{
    lemma_hop_given(rec, x, cap, work, m, src, label, to);
    let id = NodeId(src as u64);
    let var = x.rel_alias->0;
    let ends = expand::ends_of_edge(id, to, label, x.direction, m);
    let there = binding::node_row(rec, n, x.dst_alias);
    assert(src as u64 as i64 == src) by (bit_vector);
    let f = |e: (u64, Row)| expand::hop_row(rec, n, ends, label, e, var, x.dst_alias);
    let part = expand::neighbor_rows(rec, id, to, label, None, x, m);
    assert(part == flow::each(all, f));
    flow_laws::nothing_given_is_lost(all, f, i);
    let key = binding::edge_key(ends.0.0 as i64, ends.1.0 as i64, label, all[i].0);
    assert(!binding::bound_elsewhere(there, var, key)) by {
        reveal_strlit(".__src");
        assert forall|j: int| 0 <= j < there.len() implies binding::edge_at(
            there,
            j,
        ) is None by {
            let k = there[j].0;
            assert(there[j].0.len() < ".__src"@.len() || k.skip(k.len() - ".__src"@.len())
                != ".__src"@);
            lemma_ends(k, ".__src"@);
        }
    }
    let row = binding::edge_row(there, var, ends.0, ends.1, label, Some(all[i].0), all[i].1);
    assert(f(all[i]) == Ok::<Seq<Row>, ErrorView>(seq![row]));
    assert(seq![row][0] == row);
    assert(f(all[i])->Ok_0.contains(row));
    assert(part->Ok_0.contains(row));
    row_laws::a_bound_relationship_is_in_the_row(
        there,
        var,
        ends.0,
        ends.1,
        label,
        all[i].0,
        all[i].1,
        Seq::empty(),
        Seq::empty(),
    );
    assert forall|name: Seq<char>| assoc::lookup(all[i].1, name) is Some implies assoc::lookup(
        row,
        #[trigger] (var + "."@ + name),
    ) == assoc::lookup(all[i].1, name) by {
        row_laws::a_bound_relationship_is_in_the_row(
            there,
            var,
            ends.0,
            ends.1,
            label,
            all[i].0,
            all[i].1,
            name,
            Seq::empty(),
        );
    }
    assert forall|k: Seq<char>| !row_laws::belongs_to(k, var) implies #[trigger] assoc::lookup(
        row,
        k,
    ) == assoc::lookup(there, k) by {
        row_laws::a_bound_relationship_is_in_the_row(
            there,
            var,
            ends.0,
            ends.1,
            label,
            all[i].0,
            all[i].1,
            Seq::empty(),
            k,
        );
    }
}

/// What it is to end with a text.
proof fn lemma_ends(k: Seq<char>, end: Seq<char>)
    ensures
        crate::text::ends(k, end) ==> k.len() >= end.len() && k.skip(k.len() - end.len()) == end,
{
    if crate::text::ends(k, end) {
        assert(k.skip(k.len() - end.len()) =~= end);
    }
}

/// An expansion of any length asks for paths from the node in the row, by the types, in the
/// direction, of the length and with the properties that the expansion says; and each path that
/// there is gives a row: it holds the node at the end of the path and, where the relationships
/// have a variable, a list of as many relationships as the path has steps, each with the ends
/// and the type of its step. The target is not bound yet.
pub proof fn every_path_is_followed(
    rec: Row,
    x: ExpansionView,
    cap: Option<usize>,
    work: u64,
    m: Model,
    src: i64,
    paths: Seq<(NodeId, Seq<StepView>)>,
    i: int,
    n: NodeView,
)
    requires
        expand::expanded(rec, x, cap, work, m) is Ok,
        x.var_length,
        assoc::lookup(rec, x.src_alias) == Some(ValueView::I64(src)),
        assoc::lookup(rec, x.dst_alias) is None,
        (m.paths)(
            PathAsk {
                src: NodeId(src as u64),
                labels: x.edge_types,
                direction: x.direction,
                min_hops: x.min_hops,
                max_hops: x.max_hops,
                filters: x.filters,
                cap,
                work,
            },
        ) == Ok::<Seq<(NodeId, Seq<StepView>)>, ErrorView>(paths),
        0 <= i < paths.len(),
        (m.node)(paths[i].0) == Ok::<NodeView, ErrorView>(n),
        plain_node(n),
        x.rel_alias matches Some(a) ==> !row_laws::belongs_to(a, x.dst_alias),
        x.rel_alias matches Some(a) ==> !row_laws::belongs_to(x.dst_alias, a),
    ensures
        exists|row: Row| #[trigger]
            expand::expanded(rec, x, cap, work, m)->Ok_0.contains(row) && ({
                &&& assoc::lookup(row, x.dst_alias) == Some(ValueView::I64(n.id.0 as i64))
                &&& x.rel_alias is None ==> holds_node(row, rec, x.dst_alias, n)
                &&& x.rel_alias matches Some(a) ==> (assoc::lookup(row, a) matches Some(
                    ValueView::List(edges),
                ) && edges.len() == paths[i].1.len() && forall|j: int|
                    0 <= j < edges.len() ==> ((#[trigger] edges[j]) matches ValueView::Edge(e)
                        && e.src == paths[i].1[j].edge_src && e.dst == paths[i].1[j].edge_dst
                        && e.label == paths[i].1[j].edge_label))
            }),
{
    let id = NodeId(src as u64);
    let f = |p: (NodeId, Seq<StepView>)| expand::path_row(rec, p, x, None, m);
    assert(expand::expanded(rec, x, cap, work, m) == flow::each(paths, f));
    flow_laws::nothing_given_is_lost(paths, f, i);
    lemma_holds_node(rec, x.dst_alias, n);
    let there = binding::node_row(rec, n, x.dst_alias);
    let row = f(paths[i])->Ok_0[0];
    assert(f(paths[i])->Ok_0.contains(row));
    match x.rel_alias {
        Some(a) => {
            assoc::lemma_lookup_put(
                there,
                a,
                ValueView::List(expand::step_edges(paths[i].1, m)),
                x.dst_alias,
            );
        },
        None => {},
    }
}

/// Without a cap, an expansion of the rows of two lists gives what it gives for those of the
/// one and then what it gives for those of the other.
pub proof fn rows_are_expanded_in_turn(
    a: Seq<Row>,
    b: Seq<Row>,
    x: ExpansionView,
    work: u64,
    m: Model,
)
    ensures
        expand::expanded_all(a + b, x, None, work, m) == (match expand::expanded_all(
            a,
            x,
            None,
            work,
            m,
        ) {
            Ok(first) => match expand::expanded_all(b, x, None, work, m) {
                Ok(then) => Ok(first + then),
                Err(e) => Err(e),
            },
            Err(e) => Err(e),
        }),
        forall|rec: Row|
            #![trigger expand::expanded(rec, x, None, work, m)]
            expand::expanded_all(seq![rec], x, None, work, m) == expand::expanded(
                rec,
                x,
                None,
                work,
                m,
            ),
{
    let f = |rec: Row| expand::expanded(rec, x, None, work, m);
    laws::lemma_expanded(a, x, work, m);
    laws::lemma_expanded(b, x, work, m);
    laws::lemma_expanded(a + b, x, work, m);
    flow_laws::lists_are_gathered_in_turn(a, b, f);
    assert forall|rec: Row|
        #![trigger expand::expanded(rec, x, None, work, m)]
        expand::expanded_all(seq![rec], x, None, work, m) == expand::expanded(
            rec,
            x,
            None,
            work,
            m,
        ) by {
        let s = seq![rec];
        assert(s.drop_last() =~= Seq::<Row>::empty());
        assert(expand::expanded_all(s.drop_last(), x, None, work, m) == Ok::<Seq<Row>, ErrorView>(
            Seq::empty(),
        ));
        match expand::expanded(rec, x, None, work, m) {
            Ok(out) => {
                assert(Seq::<Row>::empty() + out =~= out);
            },
            Err(_) => {},
        }
    }
}

/// An expansion in a plan is made as the plan says: from its source to its target variable, by
/// its types, in its direction and of its length, for the rows of its input.
pub proof fn a_plan_expands_as_it_says(op: LogicalOp, ctx: ExecContext, m: Model)
    requires
        op is Expand,
        op->Expand_result_cap is None,
        run::rows_of(op, ctx, m) is Ok,
    ensures
        ({
            let x = ExpansionView {
                src_alias: op->Expand_src_alias@,
                dst_alias: op->Expand_dst_alias@,
                rel_alias: match op->Expand_rel_alias {
                    Some(a) => Some(a@),
                    None => None,
                },
                edge_types: Seq::new(
                    op->Expand_edge_types@.len(),
                    |i: int| op->Expand_edge_types@[i]@,
                ),
                direction: op->Expand_direction,
                min_hops: op->Expand_min_hops,
                max_hops: op->Expand_max_hops,
                var_length: op->Expand_var_length,
                filters: run::literal_filters(op->Expand_var_length_prop_filters.entries@, m),
            };
            &&& run::rows_of(*op->Expand_input, ctx, m) is Ok
            &&& expand::expanded_all(
                run::rows_of(*op->Expand_input, ctx, m)->Ok_0,
                x,
                None,
                ctx.max_traversal_work,
                m,
            ) == run::rows_of(op, ctx, m)
        }),
{
    assert(run::rows_of(op, ctx, m) == run::applied_to(
        op,
        run::rows_of(*op->Expand_input, ctx, m),
        ctx,
        m,
    ));
    let x = run::expansion(op, m);
    assert(x.edge_types =~= Seq::new(
        op->Expand_edge_types@.len(),
        |i: int| op->Expand_edge_types@[i]@,
    ));
    assert(ast_model::opt_text(op->Expand_rel_alias) == x.rel_alias);
}

} // verus!
