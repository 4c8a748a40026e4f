//! Following relationships inside a subquery, where the row outside may have bound the nodes and
//! relationships already.
use super::expand;
use super::expand::{Expansion, ExpansionView};
use super::flow;
use super::flow::{Outcome, Rows};
use super::project;
use super::read;
use crate::assoc;
use crate::assoc::AssocList;
use crate::ast_model;
use crate::binding;
use crate::binding::EdgeKey;
use crate::plan::ExecContext;
use crate::record;
use crate::record::{NamedRecord, Row};
use crate::source;
use crate::source::{Model, Source, Step, StepView};
use crate::text;
use crate::types::{Direction, ErrorView, GraphError, NodeId};
use crate::value;
use crate::value::{Edge, EdgeView, Value, ValueView};
use vstd::prelude::*;

verus! {

/// The node that a variable is bound to, outside or in the row.
pub open spec fn bound_node(rec: Row, outer: Row, var: Seq<char>) -> Option<NodeId> {
    match binding::node_in(assoc::lookup(outer, var)) {
        Some(id) => Some(id),
        None => binding::node_in(assoc::lookup(rec, var)),
    }
}

/// The node that a variable is bound to, outside or in the row.
fn find_bound_node(rec: &NamedRecord, outer: &NamedRecord, var: &str) -> (r: Option<NodeId>)
    ensures
        r == bound_node(rec@, outer@, var@),
{
    match binding::node_field(outer, var) {
        Some(id) => Some(id),
        None => binding::node_field(rec, var),
    }
}

/// The values are relationships, and there is one.
pub open spec fn all_edges(s: Seq<ValueView>) -> bool {
    s.len() > 0 && forall|i: int| 0 <= i < s.len() ==> (#[trigger] s[i]) is Edge
}

/// The list of relationships that a variable is bound to, outside or in the row.
pub open spec fn bound_list(rec: Row, outer: Row, var: Option<Seq<char>>) -> Option<Seq<ValueView>> {
    match var {
        Some(var) => match (match assoc::lookup(outer, var) {
            Some(v) => Some(v),
            None => assoc::lookup(rec, var),
        }) {
            Some(ValueView::List(items)) => if all_edges(items) {
                Some(items)
            } else {
                None
            },
            _ => None,
        },
        None => None,
    }
}

/// True when the values are relationships, and there is one.
fn are_edges(v: &Vec<Value>) -> (r: bool)
    ensures
        r == all_edges(value::values_view(v@)),
{
    let ghost s = value::values_view(v@);
    if v.len() == 0 {
        return false;
    }
    let mut i: usize = 0;
    while i < v.len()
        invariant
            i <= v.len(),
            s == value::values_view(v@),
            forall|j: int| 0 <= j < i ==> (#[trigger] s[j]) is Edge,
        decreases v.len() - i,
    {
        assert(s[i as int] == v@[i as int]@);
        match &v[i] {
            Value::Edge(_) => {},
            _ => {
                return false;
            },
        }
        i = i + 1;
    }
    true
}

/// What an optional list says.
pub open spec fn opt_values(o: Option<Vec<Value>>) -> Option<Seq<ValueView>> {
    match o {
        Some(v) => Some(value::values_view(v@)),
        None => None,
    }
}

/// The list of relationships that a variable is bound to.
fn find_bound_list(rec: &NamedRecord, outer: &NamedRecord, var: &Option<String>) -> (r: Option<
    Vec<Value>,
>)
    ensures
        opt_values(r) == bound_list(rec@, outer@, ast_model::opt_text(*var)),
{
    match var {
        Some(var) => {
            let v = match outer.get(var.as_str()) {
                Some(v) => Some(v),
                None => rec.get(var.as_str()),
            };
            match v {
                Some(Value::List(items)) => if are_edges(items) {
                    Some(value::dup_values(items))
                } else {
                    None
                },
                _ => None,
            }
        },
        None => None,
    }
}

/// Where a relationship leads from a node in a direction; nowhere if it does not start there.
pub open spec fn led(from: NodeId, e: EdgeView, direction: Direction) -> Option<NodeId> {
    match direction {
        Direction::Outgoing => if e.src == from {
            Some(e.dst)
        } else {
            None
        },
        Direction::Incoming => if e.dst == from {
            Some(e.src)
        } else {
            None
        },
        Direction::Both => if e.src == from {
            Some(e.dst)
        } else if e.dst == from {
            Some(e.src)
        } else {
            None
        },
    }
}

/// Where a relationship leads from a node in a direction.
fn lead(from: NodeId, e: &Edge, direction: Direction) -> (r: Option<NodeId>)
    ensures
        r == led(from, e@, direction),
{
    match direction {
        Direction::Outgoing => if e.src == from {
            Some(e.dst)
        } else {
            None
        },
        Direction::Incoming => if e.dst == from {
            Some(e.src)
        } else {
            None
        },
        Direction::Both => if e.src == from {
            Some(e.dst)
        } else if e.dst == from {
            Some(e.src)
        } else {
            None
        },
    }
}

/// Where the relationships lead from a node, one after the other.
pub open spec fn led_along(from: NodeId, s: Seq<ValueView>, direction: Direction) -> Option<NodeId>
    decreases s.len(),
{
    if s.len() == 0 {
        Some(from)
    } else {
        match led_along(from, s.drop_last(), direction) {
            Some(at) => match s.last() {
                ValueView::Edge(e) => led(at, e, direction),
                _ => None,
            },
            None => None,
        }
    }
}

/// Once the way is lost it is lost.
proof fn lemma_way_lost(from: NodeId, s: Seq<ValueView>, direction: Direction, i: int)
    requires
        0 <= i <= s.len(),
        led_along(from, s.take(i), direction) is None,
    ensures
        led_along(from, s, direction) is None,
    decreases s.len(),
{
    if i < s.len() {
        assert(s.drop_last().take(i) =~= s.take(i));
        lemma_way_lost(from, s.drop_last(), direction, i);
    } else {
        assert(s.take(i) =~= s);
    }
}

/// Where the relationships lead from a node, one after the other.
fn lead_along(from: NodeId, v: &Vec<Value>, direction: Direction) -> (r: Option<NodeId>)
    ensures
        r == led_along(from, value::values_view(v@), direction),
{
    let ghost s = value::values_view(v@);
    let mut at = from;
    let mut i: usize = 0;
    assert(s.take(0) =~= Seq::<ValueView>::empty());
    while i < v.len()
        invariant
            i <= v.len(),
            s == value::values_view(v@),
            led_along(from, s.take(i as int), direction) == Some(at),
        decreases v.len() - i,
    {
        assert(s.take(i + 1).drop_last() =~= s.take(i as int));
        assert(s.take(i + 1).last() == v@[i as int]@);
        let next = match &v[i] {
            Value::Edge(e) => lead(at, e, direction),
            _ => None,
        };
        match next {
            Some(n) => {
                at = n;
            },
            None => {
                proof {
                    lemma_way_lost(from, s, direction, i + 1);
                }
                return None;
            },
        }
        i = i + 1;
    }
    assert(s.take(s.len() as int) =~= s);
    Some(at)
}

/// The row of a path whose relationships are bound already.
pub open spec fn given_path_row(
    rec: Row,
    src: NodeId,
    edges: Seq<ValueView>,
    x: ExpansionView,
    bound: Option<NodeId>,
    m: Model,
) -> Rows {
    match led_along(src, edges, x.direction) {
        Some(dst) => if expand::elsewhere(bound, dst) {
            Ok(Seq::empty())
        } else {
            match (m.node)(dst) {
                Ok(n) => {
                    let there = binding::node_row(rec, n, x.dst_alias);
                    Ok(
                        seq![
                            match x.rel_alias {
                                Some(a) => assoc::put(there, a, ValueView::List(edges)),
                                None => there,
                            },
                        ],
                    )
                },
                Err(e) => Err(e),
            }
        },
        None => Ok(Seq::empty()),
    }
}

/// The row of a path whose relationships are bound already.
fn row_of_given_path<S: Source>(
    db: &S,
    rec: &NamedRecord,
    src: NodeId,
    edges: Vec<Value>,
    x: &Expansion,
    bound: Option<NodeId>,
) -> (r: Outcome)
    ensures
        source::steady(*db) ==> flow::rows_told(r) == given_path_row(
            rec@,
            src,
            value::values_view(edges@),
            x@,
            bound,
            source::model(*db),
        ),
{
    match lead_along(src, &edges, x.direction) {
        Some(dst) => {
            if expand::is_elsewhere(bound, dst) {
                return Ok(read::no_rows());
            }
            match source::ask_node(db, dst) {
                Ok(n) => {
                    let mut new_rec = rec.dup();
                    binding::populate_node_bindings(&mut new_rec, &n, x.dst_alias.as_str());
                    match &x.rel_alias {
                        Some(a) => {
                            new_rec.set(a.clone(), Value::List(edges));
                        },
                        None => {},
                    }
                    Ok(read::one_row(new_rec))
                },
                Err(e) => Err(e),
            }
        },
        None => Ok(read::no_rows()),
    }
}

/// The keys name the same ends and the same type.
pub open spec fn same_ends(a: EdgeKey, b: EdgeKey) -> bool {
    a.0 == b.0 && a.1 == b.1 && a.2 == b.2
}

/// A step goes between ends that are taken, by the same type.
pub open spec fn step_taken(s: StepView, taken: Seq<EdgeKey>) -> bool {
    exists|i: int|
        0 <= i < taken.len() && same_ends(
            #[trigger] taken[i],
            binding::edge_key(s.edge_src.0 as i64, s.edge_dst.0 as i64, s.edge_label, 0),
        )
}

/// Some step goes between ends that are taken, by the same type.
pub open spec fn overlaps(steps: Seq<StepView>, taken: Seq<EdgeKey>) -> bool {
    exists|i: int| 0 <= i < steps.len() && step_taken(#[trigger] steps[i], taken)
}

/// True when a step goes between ends that are taken, by the same type.
fn is_taken(s: &Step, taken: &Vec<(i64, i64, String, u64)>) -> (r: bool)
    ensures
        r == step_taken(s@, binding::keys_view(taken@)),
{
    let ghost ks = binding::keys_view(taken@);
    let key = binding::key_of(
        s.edge_src.0 as i64,
        s.edge_dst.0 as i64,
        s.edge_label.as_str(),
        0,
    );
    let mut i: usize = 0;
    while i < taken.len()
        invariant
            i <= taken.len(),
            ks == binding::keys_view(taken@),
            binding::key_view(key) == binding::edge_key(
                s.edge_src.0 as i64,
                s.edge_dst.0 as i64,
                s.edge_label@,
                0,
            ),
            forall|j: int| 0 <= j < i ==> !same_ends(#[trigger] ks[j], binding::key_view(key)),
        decreases taken.len() - i,
    {
        let t = &taken[i];
        assert(ks[i as int] == binding::key_view(*t));
        if t.0 == key.0 && t.1 == key.1 && text::same(&t.2, &key.2) {
            assert(same_ends(ks[i as int], binding::key_view(key)));
            return true;
        }
        i = i + 1;
    }
    false
}

/// True when some step goes between ends that are taken, by the same type.
fn has_overlap(v: &Vec<Step>, taken: &Vec<(i64, i64, String, u64)>) -> (r: bool)
    ensures
        r == overlaps(source::steps(v@), binding::keys_view(taken@)),
{
    let ghost s = source::steps(v@);
    let mut i: usize = 0;
    while i < v.len()
        invariant
            i <= v.len(),
            s == source::steps(v@),
            forall|j: int|
                0 <= j < i ==> !step_taken(#[trigger] s[j], binding::keys_view(taken@)),
        decreases v.len() - i,
    {
        assert(s[i as int] == v@[i as int]@);
        if is_taken(&v[i], taken) {
            return true;
        }
        i = i + 1;
    }
    false
}

/// The row of a path that shares no relationship with the rest of the row.
pub open spec fn free_path_row(
    rec: Row,
    path: (NodeId, Seq<StepView>),
    x: ExpansionView,
    bound: Option<NodeId>,
    m: Model,
) -> Rows {
    if overlaps(path.1, binding::edges_up_to(rec, rec.len() as int)) {
        Ok(Seq::empty())
    } else {
        expand::path_row(rec, path, x, bound, m)
    }
}

/// The rows of the paths that share no relationship with the rest of the row.
pub open spec fn free_path_rows(
    rec: Row,
    paths: Seq<(NodeId, Seq<StepView>)>,
    x: ExpansionView,
    bound: Option<NodeId>,
    m: Model,
) -> Rows {
    flow::each(paths, |p: (NodeId, Seq<StepView>)| free_path_row(rec, p, x, bound, m))
}

/// The rows of the paths that share no relationship with the rest of the row.
fn rows_of_free_paths<S: Source>(
    db: &S,
    rec: &NamedRecord,
    paths: &Vec<(NodeId, Vec<Step>)>,
    x: &Expansion,
    bound: Option<NodeId>,
) -> (r: Outcome)
    ensures
        source::steady(*db) ==> flow::rows_told(r) == free_path_rows(
            rec@,
            source::ends_with_steps(paths@),
            x@,
            bound,
            source::model(*db),
        ),
{
    let ghost m = source::model(*db);
    let ghost g = |p: (NodeId, Seq<StepView>)| free_path_row(rec@, p, x@, bound, m);
    let ghost s = source::ends_with_steps(paths@);
    let taken = binding::collect_flat_edge_ids(rec);
    let mut out: Vec<NamedRecord> = Vec::new();
    let mut i: usize = 0;
    assert(s.take(0) =~= Seq::empty());
    assert(record::rows(out@) =~= Seq::<Row>::empty());
    while i < paths.len()
        invariant
            i <= paths.len(),
            m == source::model(*db),
            g == (|p: (NodeId, Seq<StepView>)| free_path_row(rec@, p, x@, bound, m)),
            s == source::ends_with_steps(paths@),
            binding::keys_view(taken@) == binding::edges_up_to(rec@, rec@.len() as int),
            source::steady(*db) ==> flow::each(s.take(i as int), g) == Ok::<Seq<Row>, ErrorView>(
                record::rows(out@),
            ),
        decreases paths.len() - i,
    {
        proof {
            flow::lemma_each_step(s, g, i as int);
        }
        let more = if has_overlap(&paths[i].1, &taken) {
            Ok(read::no_rows())
        } else {
            expand::row_of_path(db, rec, &paths[i], x, bound)
        };
        match more {
            Ok(more) => {
                flow::append_rows(&mut out, more);
            },
            Err(e) => {
                proof {
                    if source::steady(*db) {
                        flow::lemma_each_stops(s, g, i + 1);
                    }
                }
                return Err(e);
            },
        }
        i = i + 1;
    }
    assert(s.take(s.len() as int) =~= s);
    Ok(out)
}

/// The rows of variable-length paths.
pub open spec fn long_rows(
    rec: Row,
    outer: Row,
    src: NodeId,
    x: ExpansionView,
    bound: Option<NodeId>,
    work: u64,
    m: Model,
) -> Rows {
    match bound_list(rec, outer, x.rel_alias) {
        Some(edges) => given_path_row(rec, src, edges, x, bound, m),
        None => match (m.paths)(expand::path_ask(src, x, None, work)) {
            Ok(paths) => free_path_rows(rec, paths, x, bound, m),
            Err(e) => Err(e),
        },
    }
}

/// The rows of variable-length paths.
fn rows_of_long<S: Source>(
    db: &S,
    rec: &NamedRecord,
    outer: &NamedRecord,
    src: NodeId,
    x: &Expansion,
    bound: Option<NodeId>,
    work: u64,
) -> (r: Outcome)
    ensures
        source::steady(*db) ==> flow::rows_told(r) == long_rows(
            rec@,
            outer@,
            src,
            x@,
            bound,
            work,
            source::model(*db),
        ),
{
    match find_bound_list(rec, outer, &x.rel_alias) {
        Some(edges) => row_of_given_path(db, rec, src, edges, x, bound),
        None => match source::ask_paths(db, &expand::path_request(src, x, None, work)) {
            Ok(paths) => rows_of_free_paths(db, rec, &paths, x, bound),
            Err(e) => Err(e),
        },
    }
}

/// The relationship that a variable is bound to outside: its ends, its type and its number.
pub open spec fn bound_edge(outer: Row, var: Option<Seq<char>>) -> Option<
    (NodeId, NodeId, Seq<char>, u64),
> {
    match var {
        Some(var) => match binding::edge_ends(outer, var) {
            Some((s, d, t)) => Some(
                (
                    NodeId(s as u64),
                    NodeId(d as u64),
                    t,
                    match binding::edge_number(outer, var) {
                        Some(n) => n,
                        None => 0,
                    },
                ),
            ),
            None => None,
        },
        None => None,
    }
}

/// What an optional relationship says.
pub open spec fn opt_edge(o: Option<(NodeId, NodeId, String, u64)>) -> Option<
    (NodeId, NodeId, Seq<char>, u64),
> {
    match o {
        Some((s, d, t, n)) => Some((s, d, t@, n)),
        None => None,
    }
}

/// The relationship that a variable is bound to outside.
fn find_bound_edge(outer: &NamedRecord, var: &Option<String>) -> (r: Option<
    (NodeId, NodeId, String, u64),
>)
    ensures
        opt_edge(r) == bound_edge(outer@, ast_model::opt_text(*var)),
{
    match var {
        Some(var) => match binding::edge_fields(outer, var.as_str()) {
            Some((s, d, t)) => {
                let n: u64 = match binding::edge_seq(outer, var.as_str()) {
                    Some(n) => n,
                    None => 0,
                };
                Some((NodeId(s as u64), NodeId(d as u64), t, n))
            },
            None => None,
        },
        None => None,
    }
}

/// Where a relationship with these ends leads from a node in a direction.
pub open spec fn far_end(from: NodeId, s: NodeId, d: NodeId, direction: Direction) -> Option<
    NodeId,
> {
    match direction {
        Direction::Incoming => if from == d {
            Some(s)
        } else {
            None
        },
        Direction::Outgoing => if from == s {
            Some(d)
        } else {
            None
        },
        Direction::Both => if from == s {
            Some(d)
        } else if from == d {
            Some(s)
        } else {
            None
        },
    }
}

/// Where a relationship with these ends leads from a node in a direction.
fn find_far_end(from: NodeId, s: NodeId, d: NodeId, direction: Direction) -> (r: Option<NodeId>)
    ensures
        r == far_end(from, s, d, direction),
{
    match direction {
        Direction::Incoming => if from == d {
            Some(s)
        } else {
            None
        },
        Direction::Outgoing => if from == s {
            Some(d)
        } else {
            None
        },
        Direction::Both => if from == s {
            Some(d)
        } else if from == d {
            Some(s)
        } else {
            None
        },
    }
}

/// The row of a relationship that is bound already, if it is of a type to follow and leads
/// from the node.
pub open spec fn bound_edge_row(
    rec: Row,
    src: NodeId,
    e: (NodeId, NodeId, Seq<char>, u64),
    x: ExpansionView,
    m: Model,
) -> Rows {
    if x.edge_types.len() > 0 && !x.edge_types.contains(e.2) {
        Ok(Seq::empty())
    } else {
        match far_end(src, e.0, e.1, x.direction) {
            Some(dst) => match (m.node)(dst) {
                Ok(n) => {
                    let there = binding::node_row(rec, n, x.dst_alias);
                    Ok(
                        seq![
                            match x.rel_alias {
                                Some(a) => binding::edge_row(
                                    there,
                                    a,
                                    e.0,
                                    e.1,
                                    e.2,
                                    Some(e.3),
                                    Row::empty(),
                                ),
                                None => there,
                            },
                        ],
                    )
                },
                Err(e) => Err(e),
            },
            None => Ok(Seq::empty()),
        }
    }
}

/// The row of a relationship that is bound already.
fn row_of_bound_edge<S: Source>(
    db: &S,
    rec: &NamedRecord,
    src: NodeId,
    e: &(NodeId, NodeId, String, u64),
    x: &Expansion,
) -> (r: Outcome)
    ensures
        source::steady(*db) ==> flow::rows_told(r) == bound_edge_row(
            rec@,
            src,
            (e.0, e.1, e.2@, e.3),
            x@,
            source::model(*db),
        ),
{
    assert(x@.edge_types.len() == x.edge_types@.len());
    if x.edge_types.len() > 0 && !project::has_text(&x.edge_types, e.2.as_str()) {
        return Ok(read::no_rows());
    }
    match find_far_end(src, e.0, e.1, x.direction) {
        Some(dst) => match source::ask_node(db, dst) {
            Ok(n) => {
                let mut new_rec = rec.dup();
                binding::populate_node_bindings(&mut new_rec, &n, x.dst_alias.as_str());
                match &x.rel_alias {
                    Some(a) => {
                        let none = AssocList::new();
                        assert(value::props_view(none.entries@) =~= Row::empty());
                        binding::bind_edge(
                            &mut new_rec,
                            a.as_str(),
                            e.0,
                            e.1,
                            e.2.as_str(),
                            Some(e.3),
                            &none,
                        );
                    },
                    None => {},
                }
                Ok(read::one_row(new_rec))
            },
            Err(e) => Err(e),
        },
        None => Ok(read::no_rows()),
    }
}

/// The row of a relationship to a node. There is none where another variable of the row is
/// bound to the same relationship.
pub open spec fn short_row(
    rec: Row,
    src: NodeId,
    to: NodeId,
    label: Seq<char>,
    bound: Option<NodeId>,
    x: ExpansionView,
    m: Model,
) -> Rows {
    if expand::elsewhere(bound, to) {
        Ok(Seq::empty())
    } else {
        match (m.node)(to) {
            Ok(n) => {
                let there = binding::node_row(rec, n, x.dst_alias);
                match x.rel_alias {
                    None => Ok(seq![there]),
                    Some(a) => {
                        let ends = expand::ends_of_edge(src, to, label, x.direction, m);
                        let key = binding::edge_key(ends.0.0 as i64, ends.1.0 as i64, label, 0);
                        if binding::bound_elsewhere(there, a, key) {
                            Ok(Seq::empty())
                        } else {
                            Ok(
                                seq![
                                    binding::edge_row(
                                        there,
                                        a,
                                        ends.0,
                                        ends.1,
                                        label,
                                        None,
                                        match (m.edge_properties)(ends.0, ends.1, label) {
                                            Ok(p) => p,
                                            Err(_) => Row::empty(),
                                        },
                                    ),
                                ],
                            )
                        }
                    },
                }
            },
            Err(e) => Err(e),
        }
    }
}

/// The row of a relationship to a node.
fn row_of_short<S: Source>(
    db: &S,
    rec: &NamedRecord,
    src: NodeId,
    to: NodeId,
    label: &str,
    bound: Option<NodeId>,
    x: &Expansion,
) -> (r: Outcome)
    ensures
        source::steady(*db) ==> flow::rows_told(r) == short_row(
            rec@,
            src,
            to,
            label@,
            bound,
            x@,
            source::model(*db),
        ),
{
    if expand::is_elsewhere(bound, to) {
        return Ok(read::no_rows());
    }
    match source::ask_node(db, to) {
        Ok(n) => {
            let mut new_rec = rec.dup();
            binding::populate_node_bindings(&mut new_rec, &n, x.dst_alias.as_str());
            match &x.rel_alias {
                Some(a) => {
                    let ends = expand::edge_ends(db, src, to, label, x.direction);
                    let key = binding::key_of(ends.0.0 as i64, ends.1.0 as i64, label, 0);
                    if binding::is_bound_elsewhere(&new_rec, a.as_str(), &key) {
                        return Ok(read::no_rows());
                    }
                    let props = match source::ask_edge_properties(db, ends.0, ends.1, label) {
                        Ok(p) => p,
                        Err(_) => {
                            let none = AssocList::new();
                            assert(value::props_view(none.entries@) =~= Row::empty());
                            none
                        },
                    };
                    binding::bind_edge(
                        &mut new_rec,
                        a.as_str(),
                        ends.0,
                        ends.1,
                        label,
                        None,
                        &props,
                    );
                },
                None => {},
            }
            Ok(read::one_row(new_rec))
        },
        Err(e) => Err(e),
    }
}

/// The nodes to go to from a node by relationships of a type.
pub open spec fn targets(src: NodeId, label: Seq<char>, x: ExpansionView, m: Model) -> Result<
    Seq<NodeId>,
    ErrorView,
> {
    if x.min_hops == 1 && x.max_hops == 1 {
        (m.neighbors)(src, label, x.direction)
    } else {
        (m.traverse)(src, label, x.direction, x.min_hops, x.max_hops)
    }
}

/// The nodes to go to from a node by relationships of a type.
pub fn find_targets<S: Source>(db: &S, src: NodeId, label: &str, x: &Expansion) -> (r: Result<
    Vec<NodeId>,
    GraphError,
>)
    ensures
        source::steady(*db) ==> source::ids_told(r) == targets(
            src,
            label@,
            x@,
            source::model(*db),
        ),
{
    if x.min_hops == 1 && x.max_hops == 1 {
        source::ask_neighbors(db, src, label, x.direction)
    } else {
        source::ask_traverse(db, src, label, x.direction, x.min_hops, x.max_hops)
    }
}

/// The rows of the relationships of a type.
pub open spec fn short_rows(
    rec: Row,
    src: NodeId,
    label: Seq<char>,
    bound: Option<NodeId>,
    x: ExpansionView,
    m: Model,
) -> Rows {
    match targets(src, label, x, m) {
        Ok(ids) => flow::each(ids, |to: NodeId| short_row(rec, src, to, label, bound, x, m)),
        Err(e) => Err(e),
    }
}

/// The rows of the relationships of a type.
fn rows_of_short<S: Source>(
    db: &S,
    rec: &NamedRecord,
    src: NodeId,
    label: &str,
    bound: Option<NodeId>,
    x: &Expansion,
) -> (r: Outcome)
    ensures
        source::steady(*db) ==> flow::rows_told(r) == short_rows(
            rec@,
            src,
            label@,
            bound,
            x@,
            source::model(*db),
        ),
{
    let ghost m = source::model(*db);
    let ghost (rv, lv, xv) = (rec@, label@, x@);
    match find_targets(db, src, label, x) {
        Ok(ids) => {
            assert(flow::viewed(ids@) =~= ids@);
            let f = |to: &NodeId| -> (o: Outcome)
                ensures
                    source::steady(*db) ==> flow::rows_told(o) == short_row(
                        rec@,
                        src,
                        *to,
                        label@,
                        bound,
                        x@,
                        source::model(*db),
                    ),
                { row_of_short(db, rec, src, *to, label, bound, x) };
            flow::gather(
                &ids,
                f,
                Ghost(|to: NodeId| short_row(rv, src, to, lv, bound, xv, m)),
                Ghost(source::steady(*db)),
            )
        },
        Err(e) => Err(e),
    }
}

/// The rows of single relationships.
pub open spec fn single_rows(
    rec: Row,
    outer: Row,
    src: NodeId,
    labels: Seq<Seq<char>>,
    x: ExpansionView,
    bound: Option<NodeId>,
    m: Model,
) -> Rows {
    match bound_edge(outer, x.rel_alias) {
        Some(e) => bound_edge_row(rec, src, e, x, m),
        None => flow::each(labels, |label: Seq<char>| short_rows(rec, src, label, bound, x, m)),
    }
}

/// The rows of single relationships.
fn rows_of_single<S: Source>(
    db: &S,
    rec: &NamedRecord,
    outer: &NamedRecord,
    src: NodeId,
    labels: &Vec<String>,
    x: &Expansion,
    bound: Option<NodeId>,
) -> (r: Outcome)
    ensures
        source::steady(*db) ==> flow::rows_told(r) == single_rows(
            rec@,
            outer@,
            src,
            ast_model::texts(labels@),
            x@,
            bound,
            source::model(*db),
        ),
{
    match find_bound_edge(outer, &x.rel_alias) {
        Some(e) => row_of_bound_edge(db, rec, src, &e, x),
        None => {
            let ghost m = source::model(*db);
            let ghost (rv, xv) = (rec@, x@);
            assert(flow::viewed(labels@) =~= ast_model::texts(labels@));
            let f = |label: &String| -> (o: Outcome)
                ensures
                    source::steady(*db) ==> flow::rows_told(o) == short_rows(
                        rec@,
                        src,
                        label@,
                        bound,
                        x@,
                        source::model(*db),
                    ),
                { rows_of_short(db, rec, src, label.as_str(), bound, x) };
            flow::gather(
                labels,
                f,
                Ghost(|label: Seq<char>| short_rows(rv, src, label, bound, xv, m)),
                Ghost(source::steady(*db)),
            )
        },
    }
}

/// The rows that one row expands to inside a subquery.
pub open spec fn expanded(rec: Row, outer: Row, x: ExpansionView, work: u64, m: Model) -> Rows {
    match binding::node_in(assoc::lookup(rec, x.src_alias)) {
        None => Ok(Seq::empty()),
        Some(src) => match expand::types_from(src, x, m) {
            Err(e) => Err(e),
            Ok(labels) => {
                let bound = bound_node(rec, outer, x.dst_alias);
                if x.var_length {
                    long_rows(rec, outer, src, x, bound, work, m)
                } else {
                    single_rows(rec, outer, src, labels, x, bound, m)
                }
            },
        },
    }
}

/// The rows that one row expands to inside a subquery.
fn expand_one<S: Source>(
    db: &S,
    rec: &NamedRecord,
    outer: &NamedRecord,
    x: &Expansion,
    work: u64,
) -> (r: Outcome)
    ensures
        source::steady(*db) ==> flow::rows_told(r) == expanded(
            rec@,
            outer@,
            x@,
            work,
            source::model(*db),
        ),
{
    let src = match binding::node_field(rec, x.src_alias.as_str()) {
        Some(id) => id,
        None => {
            return Ok(read::no_rows());
        },
    };
    let labels = match expand::labels_from(db, src, x) {
        Ok(labels) => labels,
        Err(e) => {
            return Err(e);
        },
    };
    let bound = find_bound_node(rec, outer, x.dst_alias.as_str());
    if x.var_length {
        rows_of_long(db, rec, outer, src, x, bound, work)
    } else {
        rows_of_single(db, rec, outer, src, &labels, x, bound)
    }
}

/// The rows that all rows expand to inside a subquery.
pub open spec fn expanded_rows(
    rs: Seq<Row>,
    outer: Row,
    x: ExpansionView,
    ctx: ExecContext,
    m: Model,
) -> Rows {
    read::limited_all(
        flow::each(rs, |rec: Row| expanded(rec, outer, x, ctx.max_traversal_work, m)),
        ctx,
    )
}

/// The rows that all rows expand to inside a subquery.
pub fn expand_rows<S: Source>(
    db: &S,
    rs: &Vec<NamedRecord>,
    outer: &NamedRecord,
    x: &Expansion,
    ctx: &ExecContext,
) -> (r: Outcome)
    ensures
        source::steady(*db) ==> flow::rows_told(r) == expanded_rows(
            record::rows(rs@),
            outer@,
            x@,
            *ctx,
            source::model(*db),
        ),
{
    let ghost m = source::model(*db);
    let ghost (ov, xv) = (outer@, x@);
    let work = ctx.max_traversal_work;
    assert(flow::viewed(rs@) =~= record::rows(rs@));
    let f = |rec: &NamedRecord| -> (o: Outcome)
        ensures
            source::steady(*db) ==> flow::rows_told(o) == expanded(
                rec@,
                outer@,
                x@,
                work,
                source::model(*db),
            ),
        { expand_one(db, rec, outer, x, work) };
    match flow::gather(
        rs,
        f,
        Ghost(|rec: Row| expanded(rec, ov, xv, work, m)),
        Ghost(source::steady(*db)),
    ) {
        Ok(out) => read::limit_rows(out, ctx),
        Err(e) => Err(e),
    }
}

} // verus!
