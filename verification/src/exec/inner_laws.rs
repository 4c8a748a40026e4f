//! What subqueries project and which paths they follow, when a scan finds a row that agrees, and
//! when rows are too many.
use super::expand::ExpansionView;
use super::flow;
use super::flow_laws;
use super::inner;
use super::project;
use super::query;
use super::query_laws;
use super::read;
use crate::assoc;
use crate::ast_model::ReturnItemView;
use crate::binding;
use crate::order;
use crate::plan::{ExecContext, LogicalOp};
use crate::record::Row;
use crate::source::{Model, PathAsk, StepView};
use crate::types::{ErrorView, NodeId};
use crate::value::ValueView;
use vstd::prelude::*;

verus! {

/// Rows pass the limit of a context, unchanged, where there is none or they are not more than it
/// allows; and do not where they are.
pub proof fn rows_pass_up_to_the_limit(rs: Seq<Row>, ctx: ExecContext)
    ensures
        read::limited(rs, ctx) == Ok::<Seq<Row>, ErrorView>(rs) <==> (ctx.max_result_rows == 0
            || rs.len() <= ctx.max_result_rows),
        read::limited(rs, ctx) is Ok ==> read::limited(rs, ctx)->Ok_0 == rs,
{
}

/// An item of a subquery has its value in its column: what the row holds under the expression's
/// own name, or else under the column's name, or else what the expression evaluates to. No other
/// column changes.
pub proof fn an_inner_column_holds_its_value(p: Row, rec: Row, item: ReturnItemView, m: Model, k: Seq<char>)
    requires
        !(item.expr.kind is Star),
        !(item.expr.kind is Variable),
        project::put_inner_item(p, rec, item, m) is Ok,
    ensures
        ({
            let col = match item.alias {
                Some(a) => a,
                None => (m.spelled)(item.expr),
            };
            let own = assoc::lookup(rec, (m.column_name)(item.expr));
            let out = project::put_inner_item(p, rec, item, m)->Ok_0;
            &&& own is Some ==> assoc::lookup(out, col) == own
            &&& own is None && assoc::lookup(rec, col) is Some ==> assoc::lookup(out, col)
                == assoc::lookup(rec, col)
            &&& own is None && assoc::lookup(rec, col) is None ==> (m.eval)(item.expr, rec) is Ok
                && assoc::lookup(out, col) == Some((m.eval)(item.expr, rec)->Ok_0)
            &&& k != col ==> assoc::lookup(out, k) == assoc::lookup(p, k)
        }),
{
    let col = match item.alias {
        Some(a) => a,
        None => (m.spelled)(item.expr),
    };
    let v = project::inner_value(rec, item.expr, col, m)->Ok_0;
    assoc::lemma_lookup_put(p, col, v, col);
    assoc::lemma_lookup_put(p, col, v, k);
}

/// The items of a subquery are put in a row one after the other.
pub proof fn inner_items_are_put_in_turn(rec: Row, items: Seq<ReturnItemView>, x: ReturnItemView, m: Model)
    ensures
        project::inner_projected(rec, items.push(x), m) == (match project::inner_projected(
            rec,
            items,
            m,
        ) {
            Err(e) => Err(e),
            Ok(p) => project::put_inner_item(p, rec, x, m),
        }),
        project::inner_projected(rec, Seq::empty(), m) == Ok::<Row, ErrorView>(Row::empty()),
{
    assert(items.push(x).drop_last() =~= items);
}

/// Every binding counts for whether a row agrees with them, and none does where there are none.
pub proof fn agreement_is_with_every_binding(rec: Row, bindings: Row, b: (Seq<char>, ValueView))
    ensures
        binding::agrees(rec, Row::empty()),
        binding::agrees(rec, bindings.push(b)) <==> (binding::agrees(rec, bindings) && (
        assoc::lookup(rec, b.0) matches Some(v) ==> order::same(v, b.1))),
{
    let all = bindings.push(b);
    assert(all[bindings.len() as int] == b);
    assert(forall|i: int| 0 <= i < bindings.len() ==> all[i] == bindings[i]);
    if binding::agrees(rec, all) {
        assert forall|i: int| 0 <= i < bindings.len() implies (match assoc::lookup(
            rec,
            (#[trigger] bindings[i]).0,
        ) {
            Some(v) => order::same(v, bindings[i].1),
            None => true,
        }) by {
            assert(all[i] == bindings[i]);
        }
    }
}

/// A scan has a row that agrees with bindings where some node with the label does.
pub proof fn a_scan_finds_one_that_agrees(op: LogicalOp, bindings: Row, m: Model)
    requires
        op is Scan,
        (m.nodes_by_label)(op->Scan_label@) is Ok,
    ensures
        query::first_match(op, bindings, m) is Ok,
        query::first_match(op, bindings, m)->Ok_0 <==> exists|i: int|
            0 <= i < (m.nodes_by_label)(op->Scan_label@)->Ok_0.len() && binding::agrees(
                binding::node_row(
                    Row::empty(),
                    #[trigger] (m.nodes_by_label)(op->Scan_label@)->Ok_0[i],
                    op->Scan_alias@,
                ),
                bindings,
            ),
{
    let nodes = (m.nodes_by_label)(op->Scan_label@)->Ok_0;
    let rows = read::node_rows(nodes, op->Scan_alias@);
    let f = query::row_test(None, bindings, m);
    query_laws::one_that_passes_is_enough(rows, f);
    lemma_tested(rows, bindings, m);
    assert forall|i: int| 0 <= i < nodes.len() implies rows[i] == binding::node_row(
        Row::empty(),
        #[trigger] nodes[i],
        op->Scan_alias@,
    ) by {}
    if query::first_match(op, bindings, m)->Ok_0 {
        let i = choose|i: int|
            0 <= i < rows.len() && f(#[trigger] rows[i]) == Ok::<bool, ErrorView>(true)
                && forall|j: int|
                0 <= j < i ==> f(#[trigger] rows[j]) == Ok::<bool, ErrorView>(false);
        assert(rows[i] == binding::node_row(Row::empty(), nodes[i], op->Scan_alias@));
    } else {
        assert forall|i: int| 0 <= i < nodes.len() implies !binding::agrees(
            binding::node_row(Row::empty(), #[trigger] nodes[i], op->Scan_alias@),
            bindings,
        ) by {
            assert(f(rows[i]) == Ok::<bool, ErrorView>(false));
        }
    }
}

/// A test of rows by bindings alone always has an answer.
proof fn lemma_tested(rows: Seq<Row>, bindings: Row, m: Model)
    ensures
        query::first(rows, query::row_test(None, bindings, m)) is Ok,
    decreases rows.len(),
{
    if rows.len() > 0 {
        lemma_tested(rows.drop_first(), bindings, m);
    }
}

/// A path that goes by a relationship which the row binds already gives no row: one between the
/// same nodes, whichever way it is gone, and of the same type.
pub proof fn a_shared_relationship_ends_a_path(
    rec: Row,
    path: (NodeId, Seq<StepView>),
    x: ExpansionView,
    bound: Option<NodeId>,
    m: Model,
    i: int,
    j: int,
)
    requires
        0 <= i < path.1.len(),
        0 <= j < binding::edges_up_to(rec, rec.len() as int).len(),
        ({
            let taken = binding::edges_up_to(rec, rec.len() as int)[j];
            let s = path.1[i];
            let one = s.edge_src.0 as i64;
            let other = s.edge_dst.0 as i64;
            &&& taken.0 <= taken.1
            &&& taken.0 == one && taken.1 == other || taken.0 == other && taken.1 == one
            &&& taken.2 == s.edge_label
        }),
    ensures
        inner::free_path_row(rec, path, x, bound, m) == Ok::<Seq<Row>, ErrorView>(Seq::empty()),
{
    let all = binding::edges_up_to(rec, rec.len() as int);
    let s = path.1[i];
    assert(inner::same_ends(
        all[j],
        binding::edge_key(s.edge_src.0 as i64, s.edge_dst.0 as i64, s.edge_label, 0),
    ));
    assert(inner::step_taken(path.1[i], all));
}

/// Inside a subquery too, an expansion of any length asks for the paths that it says, and each
/// path gives a row. The row binds no relationship, the far end is not bound, and the
/// relationships have no variable.
pub proof fn every_path_is_followed_inside(
    rec: Row,
    outer: Row,
    src: NodeId,
    x: ExpansionView,
    work: u64,
    m: Model,
    paths: Seq<(NodeId, Seq<StepView>)>,
    i: int,
)
    requires
        inner::long_rows(rec, outer, src, x, None, work, m) is Ok,
        x.rel_alias is None,
        binding::edges_up_to(rec, rec.len() as int).len() == 0,
        (m.paths)(
            PathAsk {
                src,
                labels: x.edge_types,
                direction: x.direction,
                min_hops: x.min_hops,
                max_hops: x.max_hops,
                filters: x.filters,
                cap: None,
                work,
            },
        ) == Ok::<Seq<(NodeId, Seq<StepView>)>, ErrorView>(paths),
        0 <= i < paths.len(),
    ensures
        (m.node)(paths[i].0) is Ok,
        inner::long_rows(rec, outer, src, x, None, work, m)->Ok_0.contains(
            binding::node_row(rec, (m.node)(paths[i].0)->Ok_0, x.dst_alias),
        ),
{
    let f = |p: (NodeId, Seq<StepView>)| inner::free_path_row(rec, p, x, None, m);
    assert(inner::long_rows(rec, outer, src, x, None, work, m) == flow::each(paths, f));
    flow_laws::nothing_given_is_lost(paths, f, i);
    assert(!inner::overlaps(paths[i].1, binding::edges_up_to(rec, rec.len() as int)));
    let row = binding::node_row(rec, (m.node)(paths[i].0)->Ok_0, x.dst_alias);
    assert(f(paths[i])->Ok_0[0] == row);
    assert(f(paths[i])->Ok_0.contains(row));
}

/// A list of relationships that the row outside binds is followed as it stands: there is one row,
/// with the node that the list leads to and the list itself.
pub proof fn a_given_list_is_followed(
    rec: Row,
    outer: Row,
    src: NodeId,
    a: Seq<char>,
    edges: Seq<ValueView>,
    x: ExpansionView,
    work: u64,
    m: Model,
    to: NodeId,
)
    requires
        x.rel_alias == Some(a),
        assoc::lookup(outer, a) == Some(ValueView::List(edges)),
        edges.len() > 0,
        forall|i: int| 0 <= i < edges.len() ==> (#[trigger] edges[i]) is Edge,
        inner::led_along(src, edges, x.direction) == Some(to),
        (m.node)(to) is Ok,
    ensures
        inner::long_rows(rec, outer, src, x, None, work, m) matches Ok(out) && out.len() == 1
            && assoc::lookup(out[0], a) == Some(ValueView::List(edges)),
        x.dst_alias != a ==> assoc::lookup(
            inner::long_rows(rec, outer, src, x, None, work, m)->Ok_0[0],
            x.dst_alias,
        ) == assoc::lookup(
            binding::node_row(rec, (m.node)(to)->Ok_0, x.dst_alias),
            x.dst_alias,
        ),
{
    let there = binding::node_row(rec, (m.node)(to)->Ok_0, x.dst_alias);
    assoc::lemma_lookup_put(there, a, ValueView::List(edges), a);
    assoc::lemma_lookup_put(there, a, ValueView::List(edges), x.dst_alias);
}

/// A node that is bound outside is bound inside, whatever the row says.
pub proof fn what_is_bound_outside_is_bound_inside(rec: Row, outer: Row, var: Seq<char>, id: i64)
    requires
        assoc::lookup(outer, var) == Some(ValueView::I64(id)),
    ensures
        inner::bound_node(rec, outer, var) == Some(NodeId(id as u64)),
{
}

} // verus!
