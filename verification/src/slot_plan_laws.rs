//! A plan gives by slots what it gives by names, where the schemas hold what it reads.
use crate::assoc;
use crate::ast_model;
use crate::binding;
use crate::binding_laws;
use crate::exec::arrange;
use crate::exec::expand;
use crate::exec::flow;
use crate::exec::flow::Rows;
use crate::exec::group;
use crate::exec::laws;
use crate::exec::project;
use crate::exec::query;
use crate::exec::read;
use crate::exec::run;
use crate::iter;
use crate::iter::Stream;
use crate::iter_slot;
use crate::iter_slot::{Cells, Names, SlotFlow};
use crate::order;
use crate::plan;
use crate::plan::{ExecContext, LogicalOp};
use crate::record;
use crate::record::Row;
use crate::slot_groups;
use crate::slot_laws;
use crate::slot_sight;
use crate::slot_sight::seen;
use crate::source::Model;
use crate::types::{ErrorView, NodeId};
use crate::value::NodeView;
use vstd::prelude::*;

verus! {

/// The names of the slots of an operator of a plan.
pub open spec fn slot_names(whole: LogicalOp, op: LogicalOp, m: Model) -> Names
    decreases op,
{
    match op {
        LogicalOp::EmptyRow => Names::empty(),
        LogicalOp::SingleRow => Names::empty(),
        LogicalOp::Filter { input, .. } => slot_names(whole, *input, m),
        LogicalOp::Skip { input, .. } => slot_names(whole, *input, m),
        LogicalOp::Limit { input, .. } => slot_names(whole, *input, m),
        LogicalOp::Distinct { input } => slot_names(whole, *input, m),
        LogicalOp::Sort { input, .. } => slot_names(whole, *input, m),
        _ => iter_slot::once((m.slots)(whole, op)),
    }
}

/// Each row, where there are rows, satisfies a condition.
pub open spec fn each_row(rs: Rows, p: spec_fn(Row) -> bool) -> bool {
    rs matches Ok(rs) ==> slot_groups::all(rs, p)
}

/// What is seen of two rows tells them apart as the rows are told apart.
pub open spec fn told_apart(names: Names, rs: Rows) -> bool {
    rs matches Ok(rs) ==> forall|i: int, j: int|
        0 <= i < rs.len() && 0 <= j < rs.len() ==> order::same_entries(
            seen(names, #[trigger] rs[i]),
            seen(names, #[trigger] rs[j]),
        ) == order::same_entries(rs[i], rs[j])
}

/// The schemas of a plan's operators hold what the plan reads: on each row that an operator takes
/// in, the slots alone give it what the whole row gives it, and what it passes on has a slot. The
/// properties of nodes have names that the engine does not use, and no expansion stops at a number
/// of rows.
pub open spec fn schemas_hold(whole: LogicalOp, op: LogicalOp, ctx: ExecContext, m: Model) -> bool
    decreases op,
{
    let out = slot_names(whole, op, m);
    match op {
        LogicalOp::Scan { label, .. } => (m.nodes_by_label)(label@) matches Ok(nodes)
            ==> plain_nodes(nodes),
        LogicalOp::IndexLookup { label, alias, index_properties, lookups, remaining_filters } =>
        (m.index_ids)(
            label@,
            ast_model::texts(index_properties@),
            read::lookup_keys(lookups@, m),
        ) matches Ok(ids) ==> forall|i: int|
            0 <= i < ids.len() ==> index_held(
                out,
                #[trigger] ids[i],
                alias@,
                ast_model::opt_expr_view(remaining_filters),
                m,
            ),
        LogicalOp::Filter { input, predicate } => {
            &&& schemas_hold(whole, *input, ctx, m)
            &&& each_row(
                run::rows_of(*input, ctx, m),
                |r: Row| (m.holds)(predicate@, seen(out, r)) == (m.holds)(predicate@, r),
            )
        },
        LogicalOp::Expand { input, result_cap, .. } => {
            &&& result_cap is None
            &&& schemas_hold(whole, *input, ctx, m)
            &&& each_row(
                run::rows_of(*input, ctx, m),
                |r: Row|
                    slot_sight::expansion_held(
                        slot_names(whole, *input, m),
                        out,
                        r,
                        run::expansion(op, m),
                    ),
            )
        },
        LogicalOp::Aggregate { input, group_keys, aggregates } => {
            &&& schemas_hold(whole, *input, ctx, m)
            &&& each_row(
                run::rows_of(*input, ctx, m),
                |r: Row|
                    slot_groups::grouping_held(
                        slot_names(whole, *input, m),
                        out,
                        r,
                        ast_model::exprs_view(group_keys@),
                        aggregates@,
                        m,
                    ),
            )
        },
        LogicalOp::Skip { input, .. } => schemas_hold(whole, *input, ctx, m),
        LogicalOp::Limit { input, .. } => schemas_hold(whole, *input, ctx, m),
        LogicalOp::Distinct { input } => {
            &&& schemas_hold(whole, *input, ctx, m)
            &&& told_apart(out, run::rows_of(*input, ctx, m))
        },
        LogicalOp::Sort { input, items } => {
            &&& schemas_hold(whole, *input, ctx, m)
            &&& each_row(
                run::rows_of(*input, ctx, m),
                |r: Row| {
                    let s = ast_model::sort_items_view(items@);
                    arrange::sort_keys(seen(out, r), s, m) == arrange::sort_keys(r, s, m)
                },
            )
        },
        LogicalOp::Unwind { input, expr, alias } => {
            &&& schemas_hold(whole, *input, ctx, m)
            &&& each_row(
                run::rows_of(*input, ctx, m),
                |r: Row|
                    slot_sight::unwinding_held(
                        slot_names(whole, *input, m),
                        out,
                        r,
                        expr@,
                        alias@,
                        m,
                    ),
            )
        },
        LogicalOp::Project { input, items, .. } => {
            &&& schemas_hold(whole, *input, ctx, m)
            &&& each_row(
                run::rows_of(*input, ctx, m),
                |r: Row|
                    slot_sight::items_held(
                        slot_names(whole, *input, m),
                        r,
                        ast_model::return_items_view(items@),
                        m,
                    ),
            )
        },
        _ => true,
    }
}

/// The properties of nodes have names that the engine does not use.
pub open spec fn plain_nodes(nodes: Seq<NodeView>) -> bool {
    forall|i: int| 0 <= i < nodes.len() ==> binding_laws::plain_keys((#[trigger] nodes[i]).properties)
}

/// The slots keep what the rest of the predicate of an index lookup reads of a node.
pub open spec fn index_held(
    out: Names,
    id: NodeId,
    alias: Seq<char>,
    rest: Option<ast_model::ExprView>,
    m: Model,
) -> bool {
    (m.node)(id) matches Ok(n) ==> {
        let r = binding::node_row(Row::empty(), n, alias);
        &&& binding_laws::plain_keys(n.properties)
        &&& rest matches Some(p) ==> (m.holds)(p, seen(out, r)) == (m.holds)(p, r)
    }
}

/// Where the plan gives rows by names, it gives their slots.
pub open spec fn agrees(whole: LogicalOp, op: LogicalOp, ctx: ExecContext, m: Model) -> bool {
    let names = slot_names(whole, op, m);
    run::rows_of(op, ctx, m) matches Ok(rs) ==> iter_slot::slots_of(whole, op, ctx, m) == Ok::<
        SlotFlow,
        ErrorView,
    >(iter_slot::at_once(names, iter_slot::laid_out(names, rs)))
}

/// The slots of an operator have names of their own.
proof fn lemma_names_distinct(whole: LogicalOp, op: LogicalOp, m: Model)
    ensures
        assoc::distinct(slot_names(whole, op, m)),
    decreases op,
{
    match op {
        LogicalOp::EmptyRow => {},
        LogicalOp::SingleRow => {},
        LogicalOp::Filter { input, .. } => {
            lemma_names_distinct(whole, *input, m);
        },
        LogicalOp::Skip { input, .. } => {
            lemma_names_distinct(whole, *input, m);
        },
        LogicalOp::Limit { input, .. } => {
            lemma_names_distinct(whole, *input, m);
        },
        LogicalOp::Distinct { input } => {
            lemma_names_distinct(whole, *input, m);
        },
        LogicalOp::Sort { input, .. } => {
            lemma_names_distinct(whole, *input, m);
        },
        _ => {
            slot_sight::lemma_once((m.slots)(whole, op));
        },
    }
}

/// The slots of rows, each seen by names again.
proof fn lemma_spelled(names: Names, rs: Seq<Row>)
    ensures
        iter_slot::spelled_out(names, iter_slot::laid_out(names, rs)) == slot_groups::all_seen(
            names,
            rs,
        ),
{
    assert(iter_slot::spelled_out(names, iter_slot::laid_out(names, rs))
        =~= slot_groups::all_seen(names, rs));
}

/// A scan agrees.
proof fn lemma_scan(whole: LogicalOp, op: LogicalOp, ctx: ExecContext, m: Model)
    requires
        op is Scan,
        schemas_hold(whole, op, ctx, m),
    ensures
        agrees(whole, op, ctx, m),
{
    match op {
        LogicalOp::Scan { label, alias } => {
            let out = slot_names(whole, op, m);
            lemma_names_distinct(whole, op, m);
            match (m.nodes_by_label)(label@) {
                Ok(nodes) => {
                    lemma_node_cells(out, nodes, alias@);
                },
                Err(_) => {},
            }
        },
        _ => {},
    }
}

/// The slots of nodes are the slots of their rows.
proof fn lemma_node_cells(out: Names, nodes: Seq<NodeView>, alias: Seq<char>)
    requires
        assoc::distinct(out),
        plain_nodes(nodes),
    ensures
        iter_slot::node_cells(out, nodes, alias) == iter_slot::laid_out(
            out,
            read::node_rows(nodes, alias),
        ),
{
    let (x, y) = (
        iter_slot::node_cells(out, nodes, alias),
        iter_slot::laid_out(out, read::node_rows(nodes, alias)),
    );
    assert forall|i: int| 0 <= i < nodes.len() implies #[trigger] x[i] == y[i] by {
        binding_laws::node_slots_hold_the_row(out, nodes[i], alias);
    }
    assert(x =~= y);
}

/// The nodes of an index can all be read where the lookup gives rows, and the rows are those of
/// the nodes on which the rest of the predicate holds.
proof fn lemma_index_nodes(
    out: Names,
    ids: Seq<NodeId>,
    alias: Seq<char>,
    rest: Option<ast_model::ExprView>,
    m: Model,
)
    requires
        assoc::distinct(out),
        forall|i: int| 0 <= i < ids.len() ==> index_held(out, #[trigger] ids[i], alias, rest, m),
        flow::each(ids, |id: NodeId| read::indexed_row(id, alias, rest, m)) is Ok,
    ensures
        flow::each(ids, |id: NodeId| iter_slot::one_node(id, m)) matches Ok(nodes) && {
            &&& plain_nodes(nodes)
            &&& flow::each(
                read::node_rows(nodes, alias),
                |r: Row| read::kept_if(r, rest, m),
            ) == flow::each(ids, |id: NodeId| read::indexed_row(id, alias, rest, m))
            &&& rest matches Some(p) ==> forall|i: int|
                0 <= i < nodes.len() ==> {
                    let r = #[trigger] read::node_rows(nodes, alias)[i];
                    (m.holds)(p, seen(out, r)) == (m.holds)(p, r)
                }
        },
    decreases ids.len(),
{
    let f = |id: NodeId| read::indexed_row(id, alias, rest, m);
    let g = |id: NodeId| iter_slot::one_node(id, m);
    let h = |r: Row| read::kept_if(r, rest, m);
    if ids.len() > 0 {
        let t = ids.drop_last();
        assert forall|i: int| 0 <= i < t.len() implies index_held(
            out,
            #[trigger] t[i],
            alias,
            rest,
            m,
        ) by {
            assert(t[i] == ids[i]);
        }
        lemma_index_nodes(out, t, alias, rest, m);
        let before = flow::each(t, g)->Ok_0;
        let id = ids[ids.len() - 1];
        assert(index_held(out, id, alias, rest, m));
        let n = (m.node)(id)->Ok_0;
        let nodes = before + seq![n];
        assert(flow::each(ids, g) == Ok::<Seq<NodeView>, ErrorView>(nodes));
        let rs = read::node_rows(nodes, alias);
        assert(rs.drop_last() =~= read::node_rows(before, alias));
        assert(rs.last() == binding::node_row(Row::empty(), n, alias));
        assert forall|i: int| 0 <= i < nodes.len() implies binding_laws::plain_keys(
            (#[trigger] nodes[i]).properties,
        ) by {
            if i < before.len() {
                assert(nodes[i] == before[i]);
            }
        }
        match rest {
            Some(p) => {
                assert forall|i: int| 0 <= i < nodes.len() implies {
                    let r = #[trigger] rs[i];
                    (m.holds)(p, seen(out, r)) == (m.holds)(p, r)
                } by {
                    if i < before.len() {
                        assert(rs[i] == read::node_rows(before, alias)[i]);
                    }
                }
            },
            None => {},
        }
    } else {
        assert(read::node_rows(Seq::<NodeView>::empty(), alias) =~= Seq::<Row>::empty());
    }
}

/// Each row is kept where nothing is asked of it.
proof fn lemma_all_kept(rs: Seq<Row>, m: Model)
    ensures
        flow::each(rs, |r: Row| read::kept_if(r, None, m)) == Ok::<Seq<Row>, ErrorView>(rs),
    decreases rs.len(),
{
    if rs.len() > 0 {
        lemma_all_kept(rs.drop_last(), m);
        assert(rs.drop_last() + seq![rs.last()] =~= rs);
    } else {
        assert(rs =~= Seq::<Row>::empty());
    }
}

/// A predicate keeps the slots of the rows that it keeps.
proof fn lemma_kept_slots(names: Names, rs: Seq<Row>, p: ast_model::ExprView, m: Model)
    requires
        forall|i: int|
            0 <= i < rs.len() ==> (m.holds)(p, seen(names, #[trigger] rs[i])) == (m.holds)(p, rs[i]),
        flow::each(rs, |r: Row| read::kept(r, p, m)) is Ok,
    ensures
        iter::streamed(
            Stream { rows: iter_slot::laid_out(names, rs), fault: None },
            iter_slot::cells_kept(names, p, m),
        ) == (Stream {
            rows: iter_slot::laid_out(names, flow::each(rs, |r: Row| read::kept(r, p, m))->Ok_0),
            fault: None::<ErrorView>,
        }),
{
    let f = |r: Row| read::kept(r, p, m);
    let h = iter_slot::cells_kept(names, p, m);
    assert forall|i: int| 0 <= i < rs.len() implies (f(#[trigger] rs[i]) matches Ok(a) ==> h(
        record::slotted(names, rs[i]),
    ) == Ok::<Seq<Cells>, ErrorView>(iter_slot::laid_out(names, a))) by {
        let r = rs[i];
        assert(seen(names, r) == record::named(names, record::slotted(names, r)));
        match f(r) {
            Ok(a) => {
                if (m.holds)(p, r) == Ok::<bool, ErrorView>(true) {
                    assert(iter_slot::laid_out(names, seq![r]) =~= seq![record::slotted(names, r)]);
                } else {
                    assert(iter_slot::laid_out(names, Seq::<Row>::empty())
                        =~= Seq::<Cells>::empty());
                }
            },
            Err(_) => {},
        }
    }
    slot_sight::lemma_streamed_slots(names, names, rs, f, h);
}

/// An index lookup agrees.
proof fn lemma_index(whole: LogicalOp, op: LogicalOp, ctx: ExecContext, m: Model)
    requires
        op is IndexLookup,
        schemas_hold(whole, op, ctx, m),
    ensures
        agrees(whole, op, ctx, m),
{
    match op {
        LogicalOp::IndexLookup { label, alias, index_properties, lookups, remaining_filters } => {
            let out = slot_names(whole, op, m);
            lemma_names_distinct(whole, op, m);
            let rest = ast_model::opt_expr_view(remaining_filters);
            if run::rows_of(op, ctx, m) is Ok {
                let ids = (m.index_ids)(
                    label@,
                    ast_model::texts(index_properties@),
                    read::lookup_keys(lookups@, m),
                )->Ok_0;
                lemma_index_nodes(out, ids, alias@, rest, m);
                let nodes = flow::each(ids, |id: NodeId| iter_slot::one_node(id, m))->Ok_0;
                lemma_node_cells(out, nodes, alias@);
                let rs = read::node_rows(nodes, alias@);
                match rest {
                    Some(p) => {
                        assert forall|i: int| 0 <= i < rs.len() implies (m.holds)(
                            p,
                            seen(out, #[trigger] rs[i]),
                        ) == (m.holds)(p, rs[i]) by {
                            assert(rs[i] == read::node_rows(nodes, alias@)[i]);
                        }
                        lemma_each_ext(rs, rest, p, m);
                        lemma_kept_slots(out, rs, p, m);
                    },
                    None => {
                        lemma_all_kept(rs, m);
                    },
                }
            }
        },
        _ => {},
    }
}

/// Keeping rows by the rest of a predicate is keeping them by it.
proof fn lemma_each_ext(
    rs: Seq<Row>,
    rest: Option<ast_model::ExprView>,
    p: ast_model::ExprView,
    m: Model,
)
    requires
        rest == Some(p),
    ensures
        flow::each(rs, |r: Row| read::kept_if(r, rest, m)) == flow::each(
            rs,
            |r: Row| read::kept(r, p, m),
        ),
    decreases rs.len(),
{
    if rs.len() > 0 {
        lemma_each_ext(rs.drop_last(), rest, p, m);
    }
}

/// A filter agrees where its input does.
proof fn lemma_filter(whole: LogicalOp, op: LogicalOp, input: LogicalOp, ctx: ExecContext, m: Model)
    requires
        op matches LogicalOp::Filter { input: i, .. } && *i == input,
        schemas_hold(whole, op, ctx, m),
        agrees(whole, input, ctx, m),
    ensures
        agrees(whole, op, ctx, m),
{
    match op {
        LogicalOp::Filter { predicate, .. } => {
            let names = slot_names(whole, input, m);
            if run::rows_of(op, ctx, m) is Ok {
                let rs = run::rows_of(input, ctx, m)->Ok_0;
                let q = |r: Row| (m.holds)(predicate@, seen(names, r)) == (m.holds)(predicate@, r);
                assert(slot_groups::all(rs, q));
                assert forall|i: int| 0 <= i < rs.len() implies (m.holds)(
                    predicate@,
                    seen(names, #[trigger] rs[i]),
                ) == (m.holds)(predicate@, rs[i]) by {
                    assert(q(rs[i]));
                }
                lemma_kept_slots(names, rs, predicate@, m);
            }
        },
        _ => {},
    }
}

/// An expansion agrees where its input does.
proof fn lemma_expand(whole: LogicalOp, op: LogicalOp, input: LogicalOp, ctx: ExecContext, m: Model)
    requires
        op matches LogicalOp::Expand { input: i, .. } && *i == input,
        schemas_hold(whole, op, ctx, m),
        agrees(whole, input, ctx, m),
    ensures
        agrees(whole, op, ctx, m),
{
    let names = slot_names(whole, input, m);
    let out = slot_names(whole, op, m);
    let x = run::expansion(op, m);
    let work = ctx.max_traversal_work;
    lemma_names_distinct(whole, input, m);
    if run::rows_of(op, ctx, m) is Ok {
        let rs = run::rows_of(input, ctx, m)->Ok_0;
        let f = |r: Row| expand::expanded(r, x, None, work, m);
        let p = |r: Row| slot_sight::expansion_held(names, out, r, x);
        assert(slot_groups::all(rs, p));
        laws::lemma_expanded(rs, x, work, m);
        assert forall|i: int| 0 <= i < rs.len() implies slot_sight::same_slots(
            f(#[trigger] rs[i]),
            f(seen(names, rs[i])),
            out,
        ) by {
            assert(p(rs[i]));
            slot_sight::lemma_expansion_seen(names, out, rs[i], x, work, m);
        }
        lemma_reshaped_slots(names, out, rs, f, f);
    }
}

/// Rows taken through an operator on named rows by slots.
proof fn lemma_reshaped_slots(
    names: Names,
    out: Names,
    rs: Seq<Row>,
    f: spec_fn(Row) -> Rows,
    g: spec_fn(Row) -> Rows,
)
    requires
        flow::each(rs, f) is Ok,
        forall|i: int|
            0 <= i < rs.len() ==> slot_sight::same_slots(
                f(#[trigger] rs[i]),
                g(seen(names, rs[i])),
                out,
            ),
    ensures
        iter::streamed(
            Stream { rows: iter_slot::laid_out(names, rs), fault: None },
            iter_slot::reshaped(names, out, g),
        ) == (Stream {
            rows: iter_slot::laid_out(out, flow::each(rs, f)->Ok_0),
            fault: None::<ErrorView>,
        }),
{
    let h = iter_slot::reshaped(names, out, g);
    assert forall|i: int| 0 <= i < rs.len() implies (f(#[trigger] rs[i]) matches Ok(a) ==> h(
        record::slotted(names, rs[i]),
    ) == Ok::<Seq<Cells>, ErrorView>(iter_slot::laid_out(out, a))) by {
        assert(slot_sight::same_slots(f(rs[i]), g(seen(names, rs[i])), out));
        assert(seen(names, rs[i]) == record::named(names, record::slotted(names, rs[i])));
    }
    slot_sight::lemma_streamed_slots(names, out, rs, f, h);
}

/// An UNWIND agrees where its input does.
proof fn lemma_unwind(whole: LogicalOp, op: LogicalOp, input: LogicalOp, ctx: ExecContext, m: Model)
    requires
        op matches LogicalOp::Unwind { input: i, .. } && *i == input,
        schemas_hold(whole, op, ctx, m),
        agrees(whole, input, ctx, m),
    ensures
        agrees(whole, op, ctx, m),
{
    match op {
        LogicalOp::Unwind { expr, alias, .. } => {
            let names = slot_names(whole, input, m);
            let out = slot_names(whole, op, m);
            lemma_names_distinct(whole, input, m);
            if run::rows_of(op, ctx, m) is Ok {
                let rs = run::rows_of(input, ctx, m)->Ok_0;
                let f = |r: Row| read::unwound_expr(r, expr@, alias@, m);
                let g = |r: Row| iter_slot::slot_unwound(r, expr@, alias@, m);
                let p = |r: Row| slot_sight::unwinding_held(names, out, r, expr@, alias@, m);
                assert(slot_groups::all(rs, p));
                assert forall|i: int| 0 <= i < rs.len() implies slot_sight::same_slots(
                    f(#[trigger] rs[i]),
                    g(seen(names, rs[i])),
                    out,
                ) by {
                    assert(p(rs[i]));
                    slot_sight::lemma_unwinding_seen(names, out, rs[i], expr@, alias@, m);
                }
                lemma_reshaped_slots(names, out, rs, f, g);
            }
        },
        _ => {},
    }
}

/// A projection agrees where its input does.
proof fn lemma_project(whole: LogicalOp, op: LogicalOp, input: LogicalOp, ctx: ExecContext, m: Model)
    requires
        op matches LogicalOp::Project { input: i, .. } && *i == input,
        plan::slot_supported(op),
        schemas_hold(whole, op, ctx, m),
        agrees(whole, input, ctx, m),
    ensures
        agrees(whole, op, ctx, m),
{
    match op {
        LogicalOp::Project { items, emit_compound, .. } => {
            let names = slot_names(whole, input, m);
            let out = slot_names(whole, op, m);
            let its = ast_model::return_items_view(items@);
            lemma_names_distinct(whole, input, m);
            assert(slot_sight::plain_items(its)) by {
                broadcast use ast_model::group_list_views;

                assert forall|i: int| 0 <= i < its.len() implies !((
                #[trigger] its[i]).expr.kind is Star) && !(its[i].expr.kind is Variable) by {
                    assert(its[i] == items@[i]@);
                    assert(!plan::opens(items@[i].expr, true));
                }
            }
            if run::rows_of(op, ctx, m) is Ok {
                let rs = run::rows_of(input, ctx, m)->Ok_0;
                let f = |r: Row| project::projected_one(r, its, emit_compound, m);
                let g = |r: Row| iter_slot::slot_projected(r, its, out, m);
                let p = |r: Row| slot_sight::items_held(names, r, its, m);
                assert(slot_groups::all(rs, p));
                assert forall|i: int| 0 <= i < rs.len() implies slot_sight::same_slots(
                    f(#[trigger] rs[i]),
                    g(seen(names, rs[i])),
                    out,
                ) by {
                    assert(p(rs[i]));
                    slot_sight::lemma_projection_seen(names, out, rs[i], its, emit_compound, m);
                }
                lemma_reshaped_slots(names, out, rs, f, g);
            }
        },
        _ => {},
    }
}

/// A grouping agrees where its input does.
proof fn lemma_aggregate(
    whole: LogicalOp,
    op: LogicalOp,
    input: LogicalOp,
    ctx: ExecContext,
    m: Model,
)
    requires
        op matches LogicalOp::Aggregate { input: i, .. } && *i == input,
        schemas_hold(whole, op, ctx, m),
        agrees(whole, input, ctx, m),
    ensures
        agrees(whole, op, ctx, m),
{
    match op {
        LogicalOp::Aggregate { group_keys, aggregates, .. } => {
            let names = slot_names(whole, input, m);
            let out = slot_names(whole, op, m);
            let keys = ast_model::exprs_view(group_keys@);
            lemma_names_distinct(whole, input, m);
            if run::rows_of(op, ctx, m) is Ok {
                let rs = run::rows_of(input, ctx, m)->Ok_0;
                let p = |r: Row| slot_groups::grouping_held(names, out, r, keys, aggregates@, m);
                assert(slot_groups::all(rs, p));
                slot_groups::lemma_grouping_seen(names, out, rs, keys, aggregates@, m);
                lemma_spelled(names, rs);
                assert(group::aggregated(rs, keys, aggregates@, false, m) is Ok);
            }
        },
        _ => {},
    }
}

/// A SKIP agrees where its input does.
proof fn lemma_skip(whole: LogicalOp, op: LogicalOp, input: LogicalOp, ctx: ExecContext, m: Model)
    requires
        op matches LogicalOp::Skip { input: i, .. } && *i == input,
        agrees(whole, input, ctx, m),
    ensures
        agrees(whole, op, ctx, m),
{
    match op {
        LogicalOp::Skip { count, .. } => {
            let names = slot_names(whole, input, m);
            if run::rows_of(op, ctx, m) is Ok {
                let rs = run::rows_of(input, ctx, m)->Ok_0;
                assert(arrange::skipped(iter_slot::laid_out(names, rs), count)
                    =~= iter_slot::laid_out(names, arrange::skipped(rs, count)));
            }
        },
        _ => {},
    }
}

/// A LIMIT agrees where its input does.
proof fn lemma_limit(whole: LogicalOp, op: LogicalOp, input: LogicalOp, ctx: ExecContext, m: Model)
    requires
        op matches LogicalOp::Limit { input: i, .. } && *i == input,
        agrees(whole, input, ctx, m),
    ensures
        agrees(whole, op, ctx, m),
{
    match op {
        LogicalOp::Limit { count, .. } => {
            let names = slot_names(whole, input, m);
            if run::rows_of(op, ctx, m) is Ok {
                let rs = run::rows_of(input, ctx, m)->Ok_0;
                let cs = iter_slot::laid_out(names, rs);
                let kept = iter_slot::laid_out(names, arrange::limited(rs, count));
                if count <= cs.len() {
                    assert(cs.take(count as int) =~= kept);
                } else {
                    assert(cs =~= kept);
                }
            }
        },
        _ => {},
    }
}

/// What was seen belongs before what it belonged before.
proof fn lemma_sorted_in(
    names: Names,
    s: Seq<Row>,
    x: Row,
    items: Seq<ast_model::SortItemView>,
    m: Model,
)
    requires
        forall|i: int|
            0 <= i < s.len() ==> arrange::sort_keys(seen(names, #[trigger] s[i]), items, m)
                == arrange::sort_keys(s[i], items, m),
        arrange::sort_keys(seen(names, x), items, m) == arrange::sort_keys(x, items, m),
    ensures
        arrange::sorted_in(
            iter_slot::laid_out(names, s),
            record::slotted(names, x),
            iter_slot::cells_before(names, items, m),
        ) == iter_slot::laid_out(names, arrange::sorted_in(s, x, arrange::row_before(items, m))),
        forall|i: int|
            0 <= i < arrange::sorted_in(s, x, arrange::row_before(items, m)).len()
                ==> arrange::sort_keys(
                seen(
                    names,
                    #[trigger] arrange::sorted_in(s, x, arrange::row_before(items, m))[i],
                ),
                items,
                m,
            ) == arrange::sort_keys(
                arrange::sorted_in(s, x, arrange::row_before(items, m))[i],
                items,
                m,
            ),
    decreases s.len(),
{
    let f = iter_slot::cells_before(names, items, m);
    let g = arrange::row_before(items, m);
    let cs = iter_slot::laid_out(names, s);
    let c = record::slotted(names, x);
    let r = arrange::sorted_in(s, x, g);
    assert(seen(names, x) == record::named(names, c));
    if s.len() > 0 {
        let last = s[s.len() - 1];
        assert(arrange::sort_keys(seen(names, last), items, m) == arrange::sort_keys(
            last,
            items,
            m,
        ));
        assert(cs.last() == record::slotted(names, last));
        assert(seen(names, last) == record::named(names, cs.last()));
        assert(f(c, cs.last()) == g(x, last));
        let t = s.drop_last();
        assert forall|i: int| 0 <= i < t.len() implies arrange::sort_keys(
            seen(names, #[trigger] t[i]),
            items,
            m,
        ) == arrange::sort_keys(t[i], items, m) by {
            assert(t[i] == s[i]);
        }
        lemma_sorted_in(names, t, x, items, m);
        assert(cs.drop_last() =~= iter_slot::laid_out(names, t));
        let u = arrange::sorted_in(t, x, g);
        assert(iter_slot::laid_out(names, u.push(last)) =~= iter_slot::laid_out(names, u).push(
            cs.last(),
        ));
    }
    assert(iter_slot::laid_out(names, s.push(x)) =~= cs.push(c));
}

/// What was seen comes in the order of the rows.
proof fn lemma_sorted(names: Names, s: Seq<Row>, items: Seq<ast_model::SortItemView>, m: Model)
    requires
        forall|i: int|
            0 <= i < s.len() ==> arrange::sort_keys(seen(names, #[trigger] s[i]), items, m)
                == arrange::sort_keys(s[i], items, m),
    ensures
        arrange::sorted(
            iter_slot::laid_out(names, s),
            iter_slot::cells_before(names, items, m),
        ) == iter_slot::laid_out(names, arrange::sorted(s, arrange::row_before(items, m))),
        forall|i: int|
            0 <= i < arrange::sorted(s, arrange::row_before(items, m)).len() ==> arrange::sort_keys(
                seen(names, #[trigger] arrange::sorted(s, arrange::row_before(items, m))[i]),
                items,
                m,
            ) == arrange::sort_keys(
                arrange::sorted(s, arrange::row_before(items, m))[i],
                items,
                m,
            ),
    decreases s.len(),
{
    let cs = iter_slot::laid_out(names, s);
    if s.len() > 0 {
        let t = s.drop_last();
        assert forall|i: int| 0 <= i < t.len() implies arrange::sort_keys(
            seen(names, #[trigger] t[i]),
            items,
            m,
        ) == arrange::sort_keys(t[i], items, m) by {
            assert(t[i] == s[i]);
        }
        assert(s.last() == s[s.len() - 1]);
        lemma_sorted(names, t, items, m);
        lemma_sorted_in(
            names,
            arrange::sorted(t, arrange::row_before(items, m)),
            s.last(),
            items,
            m,
        );
        assert(cs.drop_last() =~= iter_slot::laid_out(names, t));
        assert(cs.last() == record::slotted(names, s.last()));
    } else {
        assert(cs =~= Seq::<Cells>::empty());
        assert(iter_slot::laid_out(names, s) =~= cs);
    }
}

/// A sort agrees where its input does.
proof fn lemma_sort(whole: LogicalOp, op: LogicalOp, input: LogicalOp, ctx: ExecContext, m: Model)
    requires
        op matches LogicalOp::Sort { input: i, .. } && *i == input,
        schemas_hold(whole, op, ctx, m),
        agrees(whole, input, ctx, m),
    ensures
        agrees(whole, op, ctx, m),
{
    match op {
        LogicalOp::Sort { items, .. } => {
            let names = slot_names(whole, input, m);
            let its = ast_model::sort_items_view(items@);
            if run::rows_of(op, ctx, m) is Ok {
                let rs = run::rows_of(input, ctx, m)->Ok_0;
                let p = |r: Row| {
                    let s = ast_model::sort_items_view(items@);
                    arrange::sort_keys(seen(names, r), s, m) == arrange::sort_keys(r, s, m)
                };
                assert(slot_groups::all(rs, p));
                assert forall|i: int| 0 <= i < rs.len() implies arrange::sort_keys(
                    seen(names, #[trigger] rs[i]),
                    its,
                    m,
                ) == arrange::sort_keys(rs[i], its, m) by {
                    assert(p(rs[i]));
                }
                lemma_sorted(names, rs, its, m);
            }
        },
        _ => {},
    }
}

/// Without repetitions, the slots of rows are those of the rows without repetitions.
proof fn lemma_unique(names: Names, s: Seq<Row>, n: int)
    requires
        assoc::distinct(names),
        0 <= n <= s.len(),
        forall|i: int, j: int|
            0 <= i < s.len() && 0 <= j < s.len() ==> order::same_entries(
                seen(names, #[trigger] s[i]),
                seen(names, #[trigger] s[j]),
            ) == order::same_entries(s[i], s[j]),
    ensures
        arrange::unique(iter_slot::laid_out(names, s.take(n)), iter_slot::cells_alike())
            == iter_slot::laid_out(names, arrange::unique(s.take(n), arrange::alike(true))),
        forall|i: int|
            0 <= i < arrange::unique(s.take(n), arrange::alike(true)).len() ==> s.contains(
                #[trigger] arrange::unique(s.take(n), arrange::alike(true))[i],
            ),
    decreases n,
{
    let f = iter_slot::cells_alike();
    let g = arrange::alike(true);
    let t = s.take(n);
    let cs = iter_slot::laid_out(names, t);
    if n > 0 {
        lemma_unique(names, s, n - 1);
        assert(t.drop_last() =~= s.take(n - 1));
        assert(cs.drop_last() =~= iter_slot::laid_out(names, s.take(n - 1)));
        let x = s[n - 1];
        assert(t.last() == x);
        assert(cs.last() == record::slotted(names, x));
        let told = arrange::unique(s.take(n - 1), g);
        let so_far = arrange::unique(cs.drop_last(), f);
        assert forall|i: int| 0 <= i < told.len() implies f(#[trigger] so_far[i], cs.last()) == g(
            told[i],
            x,
        ) by {
            assert(s.contains(told[i]));
            let k = choose|k: int| 0 <= k < s.len() && s[k] == told[i];
            slot_laws::lemma_alike(names, so_far[i], cs.last());
            assert(so_far[i] == record::slotted(names, s[k]));
            assert(order::same_entries(seen(names, s[k]), seen(names, s[n - 1]))
                == order::same_entries(s[k], s[n - 1]));
        }
        if arrange::known(so_far, cs.last(), f) {
            let i = choose|i: int| 0 <= i < so_far.len() && f(#[trigger] so_far[i], cs.last());
            assert(g(told[i], x));
        }
        if arrange::known(told, x, g) {
            let i = choose|i: int| 0 <= i < told.len() && g(#[trigger] told[i], x);
            assert(f(so_far[i], cs.last()));
        }
        assert(arrange::known(so_far, cs.last(), f) == arrange::known(told, x, g));
        assert(iter_slot::laid_out(names, told.push(x)) =~= so_far.push(cs.last()));
        assert(s.contains(x));
    } else {
        assert(t =~= Seq::<Row>::empty());
        assert(cs =~= Seq::<Cells>::empty());
        assert(iter_slot::laid_out(names, Seq::<Row>::empty()) =~= Seq::<Cells>::empty());
    }
}

/// The removal of repetitions agrees where its input does.
proof fn lemma_distinct(whole: LogicalOp, op: LogicalOp, input: LogicalOp, ctx: ExecContext, m: Model)
    requires
        op matches LogicalOp::Distinct { input: i } && *i == input,
        schemas_hold(whole, op, ctx, m),
        agrees(whole, input, ctx, m),
    ensures
        agrees(whole, op, ctx, m),
{
    let names = slot_names(whole, input, m);
    lemma_names_distinct(whole, input, m);
    if run::rows_of(op, ctx, m) is Ok {
        let rs = run::rows_of(input, ctx, m)->Ok_0;
        lemma_unique(names, rs, rs.len() as int);
        assert(rs.take(rs.len() as int) =~= rs);
    }
}

/// A single empty row agrees.
proof fn lemma_single(whole: LogicalOp, op: LogicalOp, ctx: ExecContext, m: Model)
    requires
        op is EmptyRow || op is SingleRow,
    ensures
        agrees(whole, op, ctx, m),
{
    let none = Names::empty();
    assert(record::slotted(none, Row::empty()) =~= Cells::empty());
    assert(iter_slot::laid_out(none, seq![Row::empty()]) =~= seq![Cells::empty()]);
}

/// A join agrees: it runs by names.
proof fn lemma_join(whole: LogicalOp, op: LogicalOp, ctx: ExecContext, m: Model)
    requires
        run::joins(op),
        plan::reads_only(op),
    ensures
        agrees(whole, op, ctx, m),
{
    if ctx.max_result_rows > 0 {
        laws::no_operator_gives_more_rows_than_allowed(op, Row::empty(), ctx, m);
    }
}

/// What an operator that is supported by slots works on is supported too, and so are its schemas.
proof fn lemma_below(whole: LogicalOp, op: LogicalOp, input: LogicalOp, ctx: ExecContext, m: Model)
    requires
        plan::slot_supported(op),
        plan::reads_only(op),
        schemas_hold(whole, op, ctx, m),
        plan::works_on(op, input),
    ensures
        plan::slot_supported(input),
        plan::reads_only(input),
        schemas_hold(whole, input, ctx, m),
{
}

/// An operator agrees where its input does.
proof fn lemma_step(whole: LogicalOp, op: LogicalOp, input: LogicalOp, ctx: ExecContext, m: Model)
    requires
        plan::slot_supported(op),
        schemas_hold(whole, op, ctx, m),
        plan::works_on(op, input),
        agrees(whole, input, ctx, m),
    ensures
        agrees(whole, op, ctx, m),
{
    match op {
        LogicalOp::Filter { .. } => {
            lemma_filter(whole, op, input, ctx, m);
        },
        LogicalOp::Expand { .. } => {
            lemma_expand(whole, op, input, ctx, m);
        },
        LogicalOp::Aggregate { .. } => {
            lemma_aggregate(whole, op, input, ctx, m);
        },
        LogicalOp::Skip { .. } => {
            lemma_skip(whole, op, input, ctx, m);
        },
        LogicalOp::Limit { .. } => {
            lemma_limit(whole, op, input, ctx, m);
        },
        LogicalOp::Distinct { .. } => {
            lemma_distinct(whole, op, input, ctx, m);
        },
        LogicalOp::Sort { .. } => {
            lemma_sort(whole, op, input, ctx, m);
        },
        LogicalOp::Unwind { .. } => {
            lemma_unwind(whole, op, input, ctx, m);
        },
        LogicalOp::Project { .. } => {
            lemma_project(whole, op, input, ctx, m);
        },
        _ => {},
    }
}

/// Where the schemas hold what a plan reads, and the plan gives rows by names, each of its
/// operators gives by slots the slots of those rows: every column that has a slot, with the value
/// that the row has there, in the same order, and no failure.
pub proof fn slots_give_what_names_give(whole: LogicalOp, op: LogicalOp, ctx: ExecContext, m: Model)
    requires
        plan::slot_supported(op),
        plan::reads_only(op),
        schemas_hold(whole, op, ctx, m),
    ensures
        agrees(whole, op, ctx, m),
    decreases op,
{
    match op {
        LogicalOp::EmptyRow => {
            lemma_single(whole, op, ctx, m);
        },
        LogicalOp::SingleRow => {
            lemma_single(whole, op, ctx, m);
        },
        LogicalOp::Scan { .. } => {
            lemma_scan(whole, op, ctx, m);
        },
        LogicalOp::IndexLookup { .. } => {
            lemma_index(whole, op, ctx, m);
        },
        LogicalOp::Filter { input, .. } => {
            lemma_below(whole, op, *input, ctx, m);
            slots_give_what_names_give(whole, *input, ctx, m);
            lemma_step(whole, op, *input, ctx, m);
        },
        LogicalOp::Expand { input, .. } => {
            lemma_below(whole, op, *input, ctx, m);
            slots_give_what_names_give(whole, *input, ctx, m);
            lemma_step(whole, op, *input, ctx, m);
        },
        LogicalOp::Aggregate { input, .. } => {
            lemma_below(whole, op, *input, ctx, m);
            slots_give_what_names_give(whole, *input, ctx, m);
            lemma_step(whole, op, *input, ctx, m);
        },
        LogicalOp::Skip { input, .. } => {
            lemma_below(whole, op, *input, ctx, m);
            slots_give_what_names_give(whole, *input, ctx, m);
            lemma_step(whole, op, *input, ctx, m);
        },
        LogicalOp::Limit { input, .. } => {
            lemma_below(whole, op, *input, ctx, m);
            slots_give_what_names_give(whole, *input, ctx, m);
            lemma_step(whole, op, *input, ctx, m);
        },
        LogicalOp::Distinct { input } => {
            lemma_below(whole, op, *input, ctx, m);
            slots_give_what_names_give(whole, *input, ctx, m);
            lemma_step(whole, op, *input, ctx, m);
        },
        LogicalOp::Sort { input, .. } => {
            lemma_below(whole, op, *input, ctx, m);
            slots_give_what_names_give(whole, *input, ctx, m);
            lemma_step(whole, op, *input, ctx, m);
        },
        LogicalOp::Unwind { input, .. } => {
            lemma_below(whole, op, *input, ctx, m);
            slots_give_what_names_give(whole, *input, ctx, m);
            lemma_step(whole, op, *input, ctx, m);
        },
        LogicalOp::Project { input, .. } => {
            lemma_below(whole, op, *input, ctx, m);
            slots_give_what_names_give(whole, *input, ctx, m);
            lemma_step(whole, op, *input, ctx, m);
        },
        _ => {
            lemma_join(whole, op, ctx, m);
        },
    }
}

/// A query under limits that runs by slots gives, where the schemas hold what it reads, what is
/// seen by slots of the rows that it gives by names.
pub proof fn queries_by_slots_give_the_rows(op: LogicalOp, ctx: ExecContext, m: Model)
    requires
        plan::slot_supported(op),
        plan::reads_only(op),
        schemas_hold(op, op, ctx, m),
        ctx.max_traversal_depth > 0 ==> plan::depth_fault(op, ctx.max_traversal_depth) is None,
        run::rows_of(op, ctx, m) is Ok,
    ensures
        query::queried(op, ctx, m) == Ok::<Seq<Row>, ErrorView>(
            slot_groups::all_seen(
                slot_names(op, op, m),
                run::rows_of(op, ctx, m)->Ok_0,
            ),
        ),
{
    slots_give_what_names_give(op, op, ctx, m);
    lemma_spelled(slot_names(op, op, m), run::rows_of(op, ctx, m)->Ok_0);
}

} // verus!
