//! How writes go on from part to part and from row to row, and what rows hold afterwards.
use super::assign;
use super::change;
use super::expand::ExpansionView;
use super::inner;
use super::merge_rel;
use super::merge_set;
use super::path;
use super::read;
use super::run;
use super::write_laws;
use super::write_run;
use super::write_run::{CreateRunView, CreateTaskView, WriteRunView};
use crate::assoc;
use crate::ast::{Expr, ExprKind, RelPattern};
use crate::binding;
use crate::binding_laws;
use crate::plan::LogicalOp;
use crate::record;
use crate::record::Row;
use crate::row_laws;
use crate::source::Model;
use crate::text;
use crate::types::{Direction, ErrorView, NodeId};
use crate::value::{EdgeView, NodeView, ValueView};
use vstd::prelude::*;

verus! {

/// The parts of an operator are worked off one after the other on each row, and the rows one
/// after the other; what a part gave stands in for its row, and no other row is touched.
pub proof fn parts_are_worked_off_in_order(w: WriteRunView, op: LogicalOp, rec: Row, i: int)
    requires
        0 <= w.row < w.rows.len(),
        0 <= w.part < write_run::parts(op),
        0 <= i < w.rows.len(),
    ensures
        ({
            let n = w.after(op, rec);
            &&& n.rows.len() == w.rows.len()
            &&& n.rows[i] == (if i == w.row {
                rec
            } else {
                w.rows[i]
            })
            &&& n.row * write_run::parts(op) + n.part == w.row * write_run::parts(op) + w.part + 1
            &&& 0 <= n.part
            &&& n.part < write_run::parts(op)
        }),
{
    let p = write_run::parts(op) as int;
    assert((w.row + 1) * p == w.row * p + p) by (nonlinear_arith);
}

/// The work of a row is what the operator says for it: each assignment, each removal, the labels,
/// or the map.
pub proof fn each_part_is_what_is_written(op: LogicalOp, i: int, rec: Row, m: Model)
    ensures
        op is SetProperty && 0 <= i < op->SetProperty_assignments@.len() ==> write_run::part_planned(
            op,
            i,
            rec,
            m,
        ) == assign::assigned(rec, op->SetProperty_assignments@[i], m) && write_run::parts(op)
            == op->SetProperty_assignments@.len(),
        op is Remove && 0 <= i < op->Remove_items@.len() ==> write_run::part_planned(op, i, rec, m)
            == assign::removed(rec, op->Remove_items@[i], m) && write_run::parts(op)
            == op->Remove_items@.len(),
        op is SetProperties ==> write_run::part_planned(op, i, rec, m) == assign::properties_set(
            rec,
            op->SetProperties_variable@,
            op->SetProperties_value,
            op->SetProperties_merge,
            m,
        ) && write_run::parts(op) == 1,
        op is SetLabel ==> write_run::parts(op) == 1,
{
}

/// A run of creations goes through its operators in order on each row, computes properties on the
/// row that was matched, and hands the row on when all operators are done.
pub proof fn creations_are_worked_off_in_order(r: CreateRunView, ops: Seq<LogicalOp>, m: Model)
    requires
        r.fits(ops),
        r.stepped(ops, m) is Ok,
    ensures
        ({
            let (task, n) = r.stepped(ops, m)->Ok_0;
            &&& r.row >= r.inputs.len() <==> task is Finished
            &&& r.row < r.inputs.len() && r.op >= ops.len() ==> task is GoOn && n.row == r.row + 1
                && n.op == 0 && n.done == r.done.push(r.current.row) && n.inputs == r.inputs && (
            r.row + 1 < r.inputs.len() ==> n.current.row == r.inputs[r.row + 1])
            &&& r.row < r.inputs.len() && r.op < ops.len() ==> {
                let made = change::creation(
                    ops[r.op],
                    r.current,
                    if r.matched {
                        r.inputs[r.row]
                    } else {
                        r.current.row
                    },
                    r.matched,
                    m,
                );
                match made {
                    Ok(Some(c)) => task == CreateTaskView::Make(c) && n == r,
                    Ok(None) => task is GoOn && n.op == r.op + 1 && n.row == r.row && n.current
                        == r.current && n.done == r.done,
                    Err(_) => false,
                }
            }
        }),
{
}

/// The variables of a row that hold a node's id are bound when something is created on it.
pub proof fn ids_in_the_row_are_bound(rec: Row, n: int, i: int)
    requires
        0 <= i < n <= rec.len(),
        rec[i].1 is I64,
        !text::holds_part(rec[i].0, "."@),
        forall|j: int| i < j < n ==> (#[trigger] rec[j]).0 != rec[i].0,
    ensures
        change::bound(change::seeded(rec, n), rec[i].0) == Some(NodeId(rec[i].1->I64_0 as u64)),
    decreases n,
{
    let so_far = change::seeded(rec, n - 1);
    let all = change::seeded(rec, n);
    if i < n - 1 {
        ids_in_the_row_are_bound(rec, n - 1, i);
        assert(rec[n - 1].0 != rec[i].0);
        if all != so_far {
            assert(all.drop_last() =~= so_far);
        }
    } else {
        assert(all.drop_last() =~= so_far);
    }
}

/// A relationship that was created is bound to its variable: the row notes its ends and its type.
pub proof fn a_created_relationship_is_bound(
    op: LogicalOp,
    c: change::CreationView,
    src: NodeId,
    dst: NodeId,
    label: Seq<char>,
    properties: Row,
    id: NodeId,
)
    requires
        op is CreateEdge,
        op->CreateEdge_rel_alias is Some,
    ensures
        change::noted(
            op,
            c,
            change::ChangeView::AddEdge { src, dst, label, properties },
            id,
        ).row == binding::edge_row(
            c.row,
            op->CreateEdge_rel_alias->0@,
            src,
            dst,
            label,
            None,
            properties,
        ),
        change::noted(
            op,
            c,
            change::ChangeView::AddEdge { src, dst, label, properties },
            id,
        ).bindings == c.bindings,
{
}

/// A row without the fields of a variable for some properties has none of them, and all else.
proof fn lemma_stripped_reads(rec: Row, var: Seq<char>, props: Row, k: Seq<char>)
    requires
        assoc::distinct(assoc::keys(rec)),
    ensures
        assoc::distinct(assoc::keys(assign::stripped(rec, var, props))),
        assoc::lookup(assign::stripped(rec, var, props), k) == (if exists|i: int|
            0 <= i < props.len() && var + "."@ + (#[trigger] props[i]).0 == k {
            None
        } else {
            assoc::lookup(rec, k)
        }),
    decreases props.len(),
{
    if props.len() > 0 {
        let t = props.drop_last();
        let n = props.len() - 1;
        lemma_stripped_reads(rec, var, t, k);
        let so_far = assign::stripped(rec, var, t);
        write_laws::a_name_taken_out_is_gone(so_far, text::dotted(var, props.last().0), k);
        assert(props[n] == props.last());
        if exists|i: int| 0 <= i < t.len() && var + "."@ + (#[trigger] t[i]).0 == k {
            let i = choose|i: int| 0 <= i < t.len() && var + "."@ + (#[trigger] t[i]).0 == k;
            assert(props[i] == t[i]);
        }
        if exists|i: int| 0 <= i < props.len() && var + "."@ + (#[trigger] props[i]).0 == k {
            let i = choose|i: int| 0 <= i < props.len() && var + "."@ + (#[trigger] props[i]).0 == k;
            if i < n {
                assert(t[i] == props[i]);
            }
        }
    }
}

/// After all properties of a variable were set, the row reads the new ones and none of the old
/// ones that are gone; what does not belong to the variable's properties is as before.
pub proof fn a_row_reads_the_new_properties(
    rec: Row,
    var: Seq<char>,
    was: Row,
    is: Row,
    name: Seq<char>,
)
    requires
        assoc::distinct(assoc::keys(rec)),
        assoc::distinct(assoc::keys(is)),
    ensures
        assoc::lookup(is, name) is Some ==> assoc::lookup(
            assign::reset(rec, var, was, is),
            var + "."@ + name,
        ) == assoc::lookup(is, name),
        assoc::lookup(is, name) is None && assoc::lookup(was, name) is Some ==> assoc::lookup(
            assign::reset(rec, var, was, is),
            var + "."@ + name,
        ) is None,
        assoc::lookup(is, name) is None && assoc::lookup(was, name) is None ==> assoc::lookup(
            assign::reset(rec, var, was, is),
            var + "."@ + name,
        ) == assoc::lookup(rec, var + "."@ + name),
{
    let k = var + "."@ + name;
    let bare = assign::stripped(rec, var, was);
    let fs = record::fields_of(var, is);
    lemma_stripped_reads(rec, var, was, k);
    lemma_fields_read(var, is, name);
    row_laws::overlaying_takes_and_keeps(bare, fs, k);
    row_laws::only_bound_names_read(was, name);
    match assoc::lookup(was, name) {
        Some(v) => {
            let i = choose|i: int| 0 <= i < was.len() && was[i] == (name, v);
            assert(var + "."@ + was[i].0 == k);
        },
        None => {
            if exists|i: int| 0 <= i < was.len() && var + "."@ + (#[trigger] was[i]).0 == k {
                let i = choose|i: int| 0 <= i < was.len() && var + "."@ + (#[trigger] was[i]).0 == k;
                assert(k.skip((var + "."@).len() as int) =~= name);
                assert((var + "."@ + was[i].0).skip((var + "."@).len() as int) =~= was[i].0);
            }
        },
    }
}

/// The entries as fields of a variable read as the entries do.
proof fn lemma_fields_read(var: Seq<char>, s: Row, name: Seq<char>)
    requires
        assoc::distinct(assoc::keys(s)),
    ensures
        assoc::distinct(assoc::keys(record::fields_of(var, s))),
        assoc::lookup(record::fields_of(var, s), var + "."@ + name) == assoc::lookup(s, name),
{
    let fs = record::fields_of(var, s);
    let k = var + "."@ + name;
    let n = (var + "."@).len() as int;
    assert forall|i: int| 0 <= i < s.len() implies (#[trigger] fs[i]).0.skip(n) == s[i].0 by {
        assert((var + "."@ + s[i].0).skip(n) =~= s[i].0);
    }
    assert forall|i: int, j: int| 0 <= i < j < fs.len() implies #[trigger] assoc::keys(fs)[i]
        != #[trigger] assoc::keys(fs)[j] by {
        assert(assoc::keys(s)[i] != assoc::keys(s)[j]);
        assert(fs[i].0.skip(n) == s[i].0);
        assert(fs[j].0.skip(n) == s[j].0);
    }
    row_laws::only_bound_names_read(s, name);
    row_laws::only_bound_names_read(fs, k);
    match assoc::lookup(s, name) {
        Some(v) => {
            let i = choose|i: int| 0 <= i < s.len() && s[i] == (name, v);
            assert(fs[i] == (k, v));
            assert forall|j: int| 0 <= j < i implies (#[trigger] fs[j]).0 != fs[i].0 by {
                assert(assoc::keys(fs)[j] != assoc::keys(fs)[i]);
            }
            row_laws::the_first_entry_of_a_name_is_read(fs, i);
        },
        None => {
            assert(row_laws::free_of(fs, k)) by {
                assert forall|j: int| 0 <= j < fs.len() implies (#[trigger] fs[j]).0 != k by {
                    assert(fs[j].0.skip(n) == s[j].0);
                    assert(k.skip(n) =~= name);
                    assert(s[j].0 != name);
                }
            }
        },
    }
}

/// The relationships of a named path are those that its variables are bound to, one after the
/// other, and the path is null where one of the variables is.
pub proof fn a_named_path_has_its_relationships(
    rec: Row,
    vars: Seq<Seq<char>>,
    v: Seq<char>,
)
    ensures
        path::found_edges(rec, vars.push(v)) == ({
            let (null, so_far) = path::found_edges(rec, vars);
            if null {
                (true, so_far)
            } else if assoc::lookup(rec, v) == Some(ValueView::Null) {
                (true, so_far)
            } else {
                (
                    false,
                    so_far + match assoc::lookup(rec, v) {
                        Some(ValueView::List(items)) => path::edges_among(items),
                        _ => match binding::compound(rec, v) {
                            Some(ValueView::Edge(e)) => seq![e],
                            _ => Seq::empty(),
                        },
                    },
                )
            }
        }),
        path::found_edges(rec, Seq::empty()) == (false, Seq::<EdgeView>::empty()),
{
    assert(vars.push(v).drop_last() =~= vars);
}

/// A list of relationships gives each of them, in their order.
pub proof fn each_relationship_of_a_list_counts(items: Seq<ValueView>)
    requires
        forall|i: int| 0 <= i < items.len() ==> (#[trigger] items[i]) is Edge,
    ensures
        path::edges_among(items).len() == items.len(),
        forall|i: int|
            0 <= i < items.len() ==> ValueView::Edge(#[trigger] path::edges_among(items)[i])
                == items[i],
    decreases items.len(),
{
    if items.len() > 0 {
        let t = items.drop_last();
        assert forall|i: int| 0 <= i < t.len() implies (#[trigger] t[i]) is Edge by {
            assert(items[i] is Edge);
        }
        each_relationship_of_a_list_counts(t);
        assert(items[items.len() - 1] is Edge);
        let out = path::edges_among(items);
        let so_far = path::edges_among(t);
        assert forall|i: int| 0 <= i < items.len() implies ValueView::Edge(#[trigger] out[i])
            == items[i] by {
            if i < t.len() {
                assert(out[i] == so_far[i]);
            }
        }
    }
}

/// A relationship that is bound outside is followed from the node where it is of a type that is
/// asked for and goes the way that is asked for, and to its other end only.
pub proof fn a_bound_relationship_is_followed(
    rec: Row,
    src: NodeId,
    s: NodeId,
    d: NodeId,
    t: Seq<char>,
    n: u64,
    x: ExpansionView,
    m: Model,
)
    requires
        x.rel_alias is None,
        inner::bound_edge_row(rec, src, (s, d, t, n), x, m) is Ok,
    ensures
        ({
            let out = inner::bound_edge_row(rec, src, (s, d, t, n), x, m)->Ok_0;
            let asked = x.edge_types.len() == 0 || x.edge_types.contains(t);
            let to = if x.direction == Direction::Outgoing {
                if src == s {
                    Some(d)
                } else {
                    None
                }
            } else if x.direction == Direction::Incoming {
                if src == d {
                    Some(s)
                } else {
                    None
                }
            } else {
                if src == s {
                    Some(d)
                } else if src == d {
                    Some(s)
                } else {
                    None
                }
            };
            if asked && to is Some {
                (m.node)(to->0) is Ok && out == seq![
                    binding::node_row(rec, (m.node)(to->0)->Ok_0, x.dst_alias),
                ]
            } else {
                out.len() == 0
            }
        }),
{
}

/// Relationships that are followed one after the other lead from each to the next.
pub proof fn a_way_goes_on_from_its_end(
    from: NodeId,
    s: Seq<ValueView>,
    e: EdgeView,
    direction: Direction,
)
    ensures
        inner::led_along(from, Seq::empty(), direction) == Some(from),
        inner::led_along(from, s.push(ValueView::Edge(e)), direction) == (match inner::led_along(
            from,
            s,
            direction,
        ) {
            None => None,
            Some(at) => if direction != Direction::Incoming && e.src == at {
                Some(e.dst)
            } else if direction != Direction::Outgoing && e.dst == at {
                Some(e.src)
            } else {
                None
            },
        }),
{
    assert(s.push(ValueView::Edge(e)).drop_last() =~= s);
}

/// Of the filters on the relationships of a path those that are literals count, each with its
/// value. No name is listed twice.
pub proof fn literal_filters_count(s: Seq<(String, Expr)>, m: Model, i: int)
    requires
        write_laws::names_differ(s),
        0 <= i < s.len(),
    ensures
        assoc::lookup(run::literal_filters(s, m), s[i].0@) == (match s[i].1.kind {
            ExprKind::Literal(l) => Some(read::literal(l@, m)),
            _ => None,
        }),
    decreases s.len(),
{
    lemma_filters_read(s, m, s[i].0@);
    lemma_filter_at(s, m, i);
}

/// A name that is not listed is not filtered by.
proof fn lemma_filters_read(s: Seq<(String, Expr)>, m: Model, k: Seq<char>)
    ensures
        (forall|i: int| 0 <= i < s.len() ==> (#[trigger] s[i]).0@ != k) ==> assoc::lookup(
            run::literal_filters(s, m),
            k,
        ) is None,
    decreases s.len(),
{
    let out = run::literal_filters(s, m);
    if s.len() > 0 {
        let t = s.drop_last();
        lemma_filters_read(t, m, k);
        if forall|i: int| 0 <= i < s.len() ==> (#[trigger] s[i]).0@ != k {
            assert forall|i: int| 0 <= i < t.len() implies (#[trigger] t[i]).0@ != k by {
                assert(s[i].0@ != k);
            }
            assert(s[s.len() - 1].0@ != k);
            if let ExprKind::Literal(l) = s.last().1.kind {
                assoc::lemma_lookup_put(
                    run::literal_filters(t, m),
                    s.last().0@,
                    read::literal(l@, m),
                    k,
                );
            }
        }
    } else {
        row_laws::only_bound_names_read(out, k);
    }
}

/// What is filtered by under a listed name.
proof fn lemma_filter_at(s: Seq<(String, Expr)>, m: Model, i: int)
    requires
        write_laws::names_differ(s),
        0 <= i < s.len(),
    ensures
        assoc::lookup(run::literal_filters(s, m), s[i].0@) == (match s[i].1.kind {
            ExprKind::Literal(l) => Some(read::literal(l@, m)),
            _ => None,
        }),
    decreases s.len(),
{
    let t = s.drop_last();
    let n = s.len() - 1;
    assert(write_laws::names_differ(t)) by {
        assert forall|a: int, b: int| 0 <= a < b < t.len() implies (#[trigger] t[a]).0@ != (
        #[trigger] t[b]).0@ by {
            assert(s[a].0@ != s[b].0@);
        }
    }
    if let ExprKind::Literal(l) = s.last().1.kind {
        assoc::lemma_lookup_put(
            run::literal_filters(t, m),
            s.last().0@,
            read::literal(l@, m),
            s[i].0@,
        );
    }
    if i < n {
        assert(s[i].0@ != s[n].0@);
        assert(t[i] == s[i]);
        lemma_filter_at(t, m, i);
    } else {
        assert forall|j: int| 0 <= j < t.len() implies (#[trigger] t[j]).0@ != s[n].0@ by {
            assert(s[j].0@ != s[n].0@);
        }
        lemma_filters_read(t, m, s[n].0@);
    }
}

/// A search for shortest paths in a plan is for what the plan says.
pub proof fn a_plan_searches_as_it_says(op: LogicalOp)
    requires
        op is ShortestPath,
    ensures
        run::path_search(op).src_alias == op->ShortestPath_src_alias@,
        run::path_search(op).dst_alias == op->ShortestPath_dst_alias@,
        run::path_search(op).path_alias == op->ShortestPath_path_alias@,
        run::path_search(op).direction == op->ShortestPath_direction,
        run::path_search(op).max_hops == op->ShortestPath_max_hops,
        op->ShortestPath_edge_type matches Some(t) ==> run::path_search(op).label == t@,
        op->ShortestPath_edge_type is None ==> run::path_search(op).label.len() == 0,
{
    reveal_strlit("");
}

/// A relationship as a path goes from its start to its end.
pub proof fn a_merged_relationship_makes_a_path(
    src: NodeId,
    dst: NodeId,
    label: Seq<char>,
    seq: Option<u64>,
    m: Model,
)
    requires
        merge_rel::edge_path(src, dst, label, seq, m) is Ok,
    ensures
        merge_rel::edge_path(src, dst, label, seq, m)->Ok_0 matches ValueView::Path(p)
            && p.nodes.len() == 2 && (m.node)(src) == Ok::<NodeView, ErrorView>(p.nodes[0])
            && (m.node)(dst) == Ok::<NodeView, ErrorView>(p.nodes[1]) && p.edges.len() == 1
            && p.edges[0].src == src && p.edges[0].dst == dst && p.edges[0].label == label,
{
}

/// The row of a relationship that was merged notes its ends and its type under its variable.
pub proof fn a_merged_relationship_is_in_the_row(
    rec: Row,
    rel: RelPattern,
    src: NodeId,
    dst: NodeId,
    seq: Option<u64>,
    m: Model,
)
    requires
        rel.variable is Some,
        merge_rel::rel_row(rec, rel, None, src, dst, seq, m) is Ok,
    ensures
        exists|props: Row|
            merge_set::edge_props(src, dst, merge_rel::rel_type(rel), seq, m) == Ok::<
                Row,
                ErrorView,
            >(props) && merge_rel::rel_row(rec, rel, None, src, dst, seq, m)->Ok_0
                == #[trigger] binding::edge_row(
                rec,
                rel.variable->0@,
                src,
                dst,
                merge_rel::rel_type(rel),
                seq,
                props,
            ),
{
    let props = merge_set::edge_props(src, dst, merge_rel::rel_type(rel), seq, m)->Ok_0;
    assert(merge_rel::rel_row(rec, rel, None, src, dst, seq, m)->Ok_0 == binding::edge_row(
        rec,
        rel.variable->0@,
        src,
        dst,
        merge_rel::rel_type(rel),
        seq,
        props,
    ));
}

/// The row of a node that was merged holds its id under its variable.
pub proof fn a_merged_node_is_in_the_row(rec: Row, alias: Seq<char>, id: NodeId, m: Model)
    requires
        merge_rel::merged_row(rec, alias, id, None, m) is Ok,
    ensures
        (m.node)(id) is Ok,
        assoc::lookup(merge_rel::merged_row(rec, alias, id, None, m)->Ok_0, alias) == Some(
            ValueView::I64(id.0 as i64),
        ),
{
    let n = (m.node)(id)->Ok_0;
    let v = ValueView::I64(id.0 as i64);
    let named = assoc::put(rec, alias, v);
    let numbered = assoc::put(named, text::dotted(alias, "__id"@), v);
    let fs = record::fields_of(alias, n.properties);
    reveal_strlit(".");
    assert forall|i: int| 0 <= i < fs.len() implies (#[trigger] fs[i]).0 != alias by {
        assert(fs[i].0.len() > alias.len());
    }
    assert(text::dotted(alias, "__id"@) != alias) by {
        assert(text::dotted(alias, "__id"@).len() > alias.len());
    }
    binding_laws::lemma_put_all_other(numbered, fs, alias);
    assoc::lemma_lookup_put(rec, alias, v, alias);
    assoc::lemma_lookup_put(named, text::dotted(alias, "__id"@), v, alias);
}

} // verus!
