//! Paths: made of the nodes and relationships of a row, or the shortest between two nodes.
use super::flow;
use super::flow::{Outcome, Rows};
use super::read;
use crate::assoc;
use crate::ast_model;
use crate::binding;
use crate::binding::EdgeKey;
use crate::record;
use crate::record::{NamedRecord, Row};
use crate::source;
use crate::source::{Model, Source};
use crate::text;
use crate::types;
use crate::types::{Direction, ErrorView, GraphError, NodeId};
use crate::value;
use crate::value::{Edge, EdgeView, Node, NodeView, PathValue, PathValueView, Value, ValueView};
use vstd::prelude::*;

verus! {

/// What was found of the nodes of a path so far.
pub struct NodesFound {
    /// One of them is null.
    pub null: bool,
    /// No more are looked for.
    pub stopped: bool,
    pub nodes: Seq<NodeView>,
}

/// The nodes that the variables are bound to, up to one that is null or cannot be read.
pub open spec fn found_nodes(rec: Row, vars: Seq<Seq<char>>, m: Model) -> NodesFound
    decreases vars.len(),
{
    if vars.len() == 0 {
        NodesFound { null: false, stopped: false, nodes: Seq::empty() }
    } else {
        let f = found_nodes(rec, vars.drop_last(), m);
        if f.stopped {
            f
        } else if assoc::lookup(rec, vars.last()) == Some(ValueView::Null) {
            NodesFound { null: true, stopped: true, nodes: f.nodes }
        } else {
            match binding::integer_in(
                assoc::lookup(rec, text::dotted(vars.last(), "__id"@)),
            ) {
                Some(id) => match (m.node)(NodeId(id as u64)) {
                    Ok(n) => NodesFound { null: false, stopped: false, nodes: f.nodes.push(n) },
                    Err(_) => NodesFound { null: false, stopped: true, nodes: f.nodes },
                },
                None => f,
            }
        }
    }
}

/// Once stopped, nothing more is found.
proof fn lemma_found_stops(rec: Row, vars: Seq<Seq<char>>, m: Model, i: int)
    requires
        0 <= i <= vars.len(),
        found_nodes(rec, vars.take(i), m).stopped,
    ensures
        found_nodes(rec, vars, m) == found_nodes(rec, vars.take(i), m),
    decreases vars.len(),
{
    if i < vars.len() {
        assert(vars.drop_last().take(i) =~= vars.take(i));
        lemma_found_stops(rec, vars.drop_last(), m, i);
    } else {
        assert(vars.take(i) =~= vars);
    }
}

/// The nodes that the variables are bound to, and whether one of them is null.
fn find_nodes<S: Source>(db: &S, rec: &NamedRecord, vars: &Vec<String>) -> (r: (bool, Vec<Node>))
    ensures
        source::steady(*db) ==> r.0 == found_nodes(
            rec@,
            ast_model::texts(vars@),
            source::model(*db),
        ).null && value::nodes_view(r.1@) == found_nodes(
            rec@,
            ast_model::texts(vars@),
            source::model(*db),
        ).nodes,
{
    let ghost m = source::model(*db);
    let ghost s = ast_model::texts(vars@);
    let mut nodes: Vec<Node> = Vec::new();
    let mut i: usize = 0;
    assert(s.take(0) =~= Seq::<Seq<char>>::empty());
    assert(value::nodes_view(nodes@) =~= Seq::<NodeView>::empty());
    while i < vars.len()
        invariant
            i <= vars.len(),
            m == source::model(*db),
            s == ast_model::texts(vars@),
            source::steady(*db) ==> found_nodes(rec@, s.take(i as int), m) == (NodesFound {
                null: false,
                stopped: false,
                nodes: value::nodes_view(nodes@),
            }),
        decreases vars.len() - i,
    {
        assert(s.take(i + 1).drop_last() =~= s.take(i as int));
        assert(s.take(i + 1).last() == vars@[i as int]@);
        if binding::is_null_field(rec, vars[i].as_str()) {
            proof {
                if source::steady(*db) {
                    lemma_found_stops(rec@, s, m, i + 1);
                }
            }
            return (true, nodes);
        }
        match binding::integer_field(rec, text::field(vars[i].as_str(), "__id").as_str()) {
            Some(id) => match source::ask_node(db, NodeId(id as u64)) {
                Ok(n) => {
                    let ghost before = value::nodes_view(nodes@);
                    nodes.push(n);
                    assert(value::nodes_view(nodes@) =~= before.push(n@));
                },
                Err(_) => {
                    proof {
                        if source::steady(*db) {
                            lemma_found_stops(rec@, s, m, i + 1);
                        }
                    }
                    return (false, nodes);
                },
            },
            None => {},
        }
        i = i + 1;
    }
    assert(s.take(s.len() as int) =~= s);
    (false, nodes)
}

/// The relationships among the values.
pub open spec fn edges_among(s: Seq<ValueView>) -> Seq<EdgeView>
    decreases s.len(),
{
    if s.len() == 0 {
        Seq::empty()
    } else {
        match s.last() {
            ValueView::Edge(e) => edges_among(s.drop_last()).push(e),
            _ => edges_among(s.drop_last()),
        }
    }
}

/// Appends the relationships among the values.
fn push_edges(out: &mut Vec<Edge>, v: &Vec<Value>)
    ensures
        value::edges_view(final(out)@) == value::edges_view(old(out)@) + edges_among(
            value::values_view(v@),
        ),
{
    let ghost s = value::values_view(v@);
    let ghost base = value::edges_view(out@);
    let mut i: usize = 0;
    assert(s.take(0) =~= Seq::<ValueView>::empty());
    assert(base + Seq::<EdgeView>::empty() =~= base);
    while i < v.len()
        invariant
            i <= v.len(),
            s == value::values_view(v@),
            value::edges_view(out@) == base + edges_among(s.take(i as int)),
        decreases v.len() - i,
    {
        assert(s.take(i + 1).drop_last() =~= s.take(i as int));
        assert(s.take(i + 1).last() == v@[i as int]@);
        match &v[i] {
            Value::Edge(e) => {
                let ghost before = value::edges_view(out@);
                let copy = e.dup();
                out.push(copy);
                assert(value::edges_view(out@) =~= before.push(e@));
                assert(base + edges_among(s.take(i as int)).push(e@) =~= (base + edges_among(
                    s.take(i as int),
                )).push(e@));
            },
            _ => {},
        }
        i = i + 1;
    }
    assert(s.take(s.len() as int) =~= s);
}

/// The relationships that one variable is bound to.
pub open spec fn edges_of_var(rec: Row, var: Seq<char>) -> Seq<EdgeView> {
    match assoc::lookup(rec, var) {
        Some(ValueView::List(items)) => edges_among(items),
        _ => match binding::compound(rec, var) {
            Some(ValueView::Edge(e)) => seq![e],
            _ => Seq::empty(),
        },
    }
}

/// Appends the relationships that one variable is bound to.
fn push_var_edges(out: &mut Vec<Edge>, rec: &NamedRecord, var: &str)
    ensures
        value::edges_view(final(out)@) == value::edges_view(old(out)@) + edges_of_var(rec@, var@),
{
    let ghost base = value::edges_view(out@);
    match rec.get(var) {
        Some(Value::List(items)) => {
            push_edges(out, items);
            return;
        },
        _ => {},
    }
    match binding::build_compound_binding(rec, var) {
        Some(Value::Edge(e)) => {
            out.push(e);
            assert(value::edges_view(out@) =~= base + seq![e@]);
        },
        _ => {
            assert(base + Seq::<EdgeView>::empty() =~= base);
        },
    }
}

/// The relationships that the variables are bound to, up to one that is null.
pub open spec fn found_edges(rec: Row, vars: Seq<Seq<char>>) -> (bool, Seq<EdgeView>)
    decreases vars.len(),
{
    if vars.len() == 0 {
        (false, Seq::empty())
    } else {
        let f = found_edges(rec, vars.drop_last());
        if f.0 {
            f
        } else if assoc::lookup(rec, vars.last()) == Some(ValueView::Null) {
            (true, f.1)
        } else {
            (false, f.1 + edges_of_var(rec, vars.last()))
        }
    }
}

/// Once stopped, nothing more is found.
proof fn lemma_edges_stop(rec: Row, vars: Seq<Seq<char>>, i: int)
    requires
        0 <= i <= vars.len(),
        found_edges(rec, vars.take(i)).0,
    ensures
        found_edges(rec, vars) == found_edges(rec, vars.take(i)),
    decreases vars.len(),
{
    if i < vars.len() {
        assert(vars.drop_last().take(i) =~= vars.take(i));
        lemma_edges_stop(rec, vars.drop_last(), i);
    } else {
        assert(vars.take(i) =~= vars);
    }
}

/// The relationships that the variables are bound to, and whether one of them is null.
fn find_edges(rec: &NamedRecord, vars: &Vec<String>) -> (r: (bool, Vec<Edge>))
    ensures
        (r.0, value::edges_view(r.1@)) == found_edges(rec@, ast_model::texts(vars@)),
{
    let ghost s = ast_model::texts(vars@);
    let mut edges: Vec<Edge> = Vec::new();
    let mut i: usize = 0;
    assert(s.take(0) =~= Seq::<Seq<char>>::empty());
    assert(value::edges_view(edges@) =~= Seq::<EdgeView>::empty());
    while i < vars.len()
        invariant
            i <= vars.len(),
            s == ast_model::texts(vars@),
            found_edges(rec@, s.take(i as int)) == (false, value::edges_view(edges@)),
        decreases vars.len() - i,
    {
        assert(s.take(i + 1).drop_last() =~= s.take(i as int));
        assert(s.take(i + 1).last() == vars@[i as int]@);
        if binding::is_null_field(rec, vars[i].as_str()) {
            proof {
                lemma_edges_stop(rec@, s, i + 1);
            }
            return (true, edges);
        }
        push_var_edges(&mut edges, rec, vars[i].as_str());
        i = i + 1;
    }
    assert(s.take(s.len() as int) =~= s);
    (false, edges)
}

/// Some variable is bound to a list: the path has a part of variable length.
pub open spec fn any_list(rec: Row, vars: Seq<Seq<char>>) -> bool {
    exists|i: int|
        0 <= i < vars.len() && (match assoc::lookup(rec, #[trigger] vars[i]) {
            Some(ValueView::List(_)) => true,
            _ => false,
        })
}

/// True when some variable is bound to a list.
fn has_list(rec: &NamedRecord, vars: &Vec<String>) -> (r: bool)
    ensures
        r == any_list(rec@, ast_model::texts(vars@)),
{
    let ghost s = ast_model::texts(vars@);
    let mut i: usize = 0;
    while i < vars.len()
        invariant
            i <= vars.len(),
            s == ast_model::texts(vars@),
            forall|j: int|
                0 <= j < i ==> !(match assoc::lookup(rec@, #[trigger] s[j]) {
                    Some(ValueView::List(_)) => true,
                    _ => false,
                }),
        decreases vars.len() - i,
    {
        assert(s[i as int] == vars@[i as int]@);
        match rec.get(vars[i].as_str()) {
            Some(Value::List(_)) => {
                return true;
            },
            _ => {},
        }
        i = i + 1;
    }
    false
}

/// The node at the other end of a relationship. In a subquery, `inner`, relationships are
/// followed from start to end.
pub open spec fn next_node(from: NodeId, e: EdgeView, inner: bool) -> NodeId {
    if inner || from == e.src {
        e.dst
    } else {
        e.src
    }
}

/// The nodes along the relationships.
pub open spec fn walked(start: NodeView, edges: Seq<EdgeView>, inner: bool, m: Model) -> Result<
    Seq<NodeView>,
    ErrorView,
>
    decreases edges.len(),
{
    if edges.len() == 0 {
        Ok(seq![start])
    } else {
        match walked(start, edges.drop_last(), inner, m) {
            Ok(ns) => match (m.node)(next_node(ns.last().id, edges.last(), inner)) {
                Ok(n) => Ok(ns.push(n)),
                Err(e) => Err(e),
            },
            Err(e) => Err(e),
        }
    }
}

/// The first node that cannot be read decides.
proof fn lemma_walk_stops(start: NodeView, edges: Seq<EdgeView>, inner: bool, m: Model, i: int)
    requires
        0 <= i <= edges.len(),
        walked(start, edges.take(i), inner, m) is Err,
    ensures
        walked(start, edges, inner, m) == walked(start, edges.take(i), inner, m),
    decreases edges.len(),
{
    if i < edges.len() {
        assert(edges.drop_last().take(i) =~= edges.take(i));
        lemma_walk_stops(start, edges.drop_last(), inner, m, i);
    } else {
        assert(edges.take(i) =~= edges);
    }
}

/// The nodes along the relationships.
fn walk<S: Source>(db: &S, start: &Node, edges: &Vec<Edge>, inner: bool) -> (r: Result<
    Vec<Node>,
    GraphError,
>)
    ensures
        source::steady(*db) ==> source::nodes_told(r) == walked(
            start@,
            value::edges_view(edges@),
            inner,
            source::model(*db),
        ),
        r is Ok ==> r->Ok_0.len() > 0,
{
    let ghost m = source::model(*db);
    let ghost s = value::edges_view(edges@);
    let mut out: Vec<Node> = Vec::new();
    let copy = start.dup();
    out.push(copy);
    let mut i: usize = 0;
    assert(s.take(0) =~= Seq::<EdgeView>::empty());
    assert(value::nodes_view(out@) =~= seq![start@]);
    while i < edges.len()
        invariant
            i <= edges.len(),
            m == source::model(*db),
            s == value::edges_view(edges@),
            out.len() > 0,
            source::steady(*db) ==> walked(start@, s.take(i as int), inner, m) == Ok::<
                Seq<NodeView>,
                ErrorView,
            >(value::nodes_view(out@)),
        decreases edges.len() - i,
    {
        assert(s.take(i + 1).drop_last() =~= s.take(i as int));
        assert(s.take(i + 1).last() == edges@[i as int]@);
        let ghost before = value::nodes_view(out@);
        assert(before.last() == out@[out@.len() - 1]@);
        let from = out[out.len() - 1].id;
        let to = if inner || from == edges[i].src {
            edges[i].dst
        } else {
            edges[i].src
        };
        match source::ask_node(db, to) {
            Ok(n) => {
                out.push(n);
                assert(value::nodes_view(out@) =~= before.push(n@));
            },
            Err(e) => {
                proof {
                    if source::steady(*db) {
                        lemma_walk_stops(start@, s, inner, m, i + 1);
                    }
                }
                return Err(e);
            },
        }
        i = i + 1;
    }
    assert(s.take(s.len() as int) =~= s);
    Ok(out)
}

/// The nodes of a path with a part of variable length: those along its relationships, where the
/// last one is the one that was found.
pub open spec fn rebuilt(nodes: Seq<NodeView>, edges: Seq<EdgeView>, inner: bool, m: Model) -> Result<
    Seq<NodeView>,
    ErrorView,
> {
    if edges.len() == 0 {
        Ok(
            if nodes.len() > 1 {
                nodes.take(1)
            } else {
                nodes
            },
        )
    } else if nodes.len() == 0 || (inner && edges.len() + 1 <= nodes.len()) {
        Ok(nodes)
    } else {
        match walked(nodes[0], edges, inner, m) {
            Ok(ns) => Ok(
                if nodes.len() >= 2 {
                    ns.update(ns.len() - 1, nodes.last())
                } else {
                    ns
                },
            ),
            Err(e) => Err(e),
        }
    }
}

/// The nodes of a path with a part of variable length.
fn rebuild<S: Source>(db: &S, nodes: Vec<Node>, edges: &Vec<Edge>, inner: bool) -> (r: Result<
    Vec<Node>,
    GraphError,
>)
    ensures
        source::steady(*db) ==> source::nodes_told(r) == rebuilt(
            value::nodes_view(nodes@),
            value::edges_view(edges@),
            inner,
            source::model(*db),
        ),
{
    let ghost given = value::nodes_view(nodes@);
    if edges.len() == 0 {
        let mut nodes = nodes;
        nodes.truncate(1);
        assert(value::nodes_view(nodes@) =~= if given.len() > 1 {
            given.take(1)
        } else {
            given
        });
        return Ok(nodes);
    }
    if nodes.len() == 0 || (inner && edges.len() < nodes.len()) {
        return Ok(nodes);
    }
    assert(given[0] == nodes@[0]@);
    match walk(db, &nodes[0], edges, inner) {
        Ok(ns) => {
            let ghost along = value::nodes_view(ns@);
            let mut ns = ns;
            if nodes.len() >= 2 {
                let end = nodes[nodes.len() - 1].dup();
                let at = ns.len() - 1;
                assert(given.last() == end@);
                ns.set(at, end);
                assert(value::nodes_view(ns@) =~= along.update(along.len() - 1, given.last()));
            }
            Ok(ns)
        },
        Err(e) => Err(e),
    }
}

/// What tells the relationships of a path apart.
pub open spec fn path_keys(s: Seq<EdgeView>) -> Seq<EdgeKey> {
    Seq::new(
        s.len(),
        |i: int| binding::edge_key(s[i].src.0 as i64, s[i].dst.0 as i64, s[i].label, 0),
    )
}

/// What tells the relationships of a path apart.
fn keys_of_path(v: &Vec<Edge>) -> (r: Vec<(i64, i64, String, u64)>)
    ensures
        binding::keys_view(r@) == path_keys(value::edges_view(v@)),
{
    let ghost whole = path_keys(value::edges_view(v@));
    let mut out: Vec<(i64, i64, String, u64)> = Vec::new();
    let mut i: usize = 0;
    while i < v.len()
        invariant
            i <= v.len(),
            whole == path_keys(value::edges_view(v@)),
            binding::keys_view(out@) == whole.take(i as int),
        decreases v.len() - i,
    {
        let ghost before = binding::keys_view(out@);
        let e = &v[i];
        assert(value::edges_view(v@)[i as int] == e@);
        let k = binding::key_of(e.src.0 as i64, e.dst.0 as i64, e.label.as_str(), 0);
        out.push(k);
        assert(binding::keys_view(out@) =~= before.push(binding::key_view(k)));
        assert(whole.take(i + 1) =~= whole.take(i as int).push(whole[i as int]));
        i = i + 1;
    }
    assert(whole.take(whole.len() as int) =~= whole);
    out
}

/// The row with a path bound: null where a part of it is, nothing where no node was found. In a
/// subquery, `inner`, there is no row where a relationship occurs twice.
pub open spec fn path_row(
    rec: Row,
    path: Seq<char>,
    node_vars: Seq<Seq<char>>,
    rel_vars: Seq<Seq<char>>,
    inner: bool,
    m: Model,
) -> Rows {
    let ns = found_nodes(rec, node_vars, m);
    let es = found_edges(rec, rel_vars);
    if ns.null || es.0 {
        Ok(seq![assoc::put(rec, path, ValueView::Null)])
    } else if inner && binding::repeats(path_keys(es.1)) {
        Ok(Seq::empty())
    } else {
        match (if any_list(rec, rel_vars) {
            rebuilt(ns.nodes, es.1, inner, m)
        } else {
            Ok(ns.nodes)
        }) {
            Ok(nodes) => Ok(
                seq![
                    if nodes.len() == 0 {
                        rec
                    } else {
                        assoc::put(
                            rec,
                            path,
                            ValueView::Path(PathValueView { nodes, edges: es.1 }),
                        )
                    },
                ],
            ),
            Err(e) => Err(e),
        }
    }
}

/// The row with a path bound.
fn bind_path<S: Source>(
    db: &S,
    rec: &NamedRecord,
    path: &str,
    node_vars: &Vec<String>,
    rel_vars: &Vec<String>,
    inner: bool,
) -> (r: Outcome)
    ensures
        source::steady(*db) ==> flow::rows_told(r) == path_row(
            rec@,
            path@,
            ast_model::texts(node_vars@),
            ast_model::texts(rel_vars@),
            inner,
            source::model(*db),
        ),
{
    let (null_node, nodes) = find_nodes(db, rec, node_vars);
    let (null_edge, edges) = find_edges(rec, rel_vars);
    let mut out = rec.dup();
    if null_node || null_edge {
        out.set(text::owned(path), Value::Null);
        return Ok(read::one_row(out));
    }
    if inner && binding::has_repeats(&keys_of_path(&edges)) {
        return Ok(read::no_rows());
    }
    let nodes = if has_list(rec, rel_vars) {
        match rebuild(db, nodes, &edges, inner) {
            Ok(nodes) => nodes,
            Err(e) => {
                return Err(e);
            },
        }
    } else {
        nodes
    };
    if nodes.len() > 0 {
        let p = PathValue { nodes, edges };
        let v = Value::Path(p);
        assert(v@ == ValueView::Path(p@));
        out.set(text::owned(path), v);
    }
    Ok(read::one_row(out))
}

/// The rows with a path bound.
pub open spec fn path_rows(
    rs: Seq<Row>,
    path: Seq<char>,
    node_vars: Seq<Seq<char>>,
    rel_vars: Seq<Seq<char>>,
    inner: bool,
    m: Model,
) -> Rows {
    flow::each(rs, |rec: Row| path_row(rec, path, node_vars, rel_vars, inner, m))
}

/// The rows with a path bound.
pub fn materialize_paths<S: Source>(
    db: &S,
    rs: &Vec<NamedRecord>,
    path: &str,
    node_vars: &Vec<String>,
    rel_vars: &Vec<String>,
    inner: bool,
) -> (r: Outcome)
    ensures
        source::steady(*db) ==> flow::rows_told(r) == path_rows(
            record::rows(rs@),
            path@,
            ast_model::texts(node_vars@),
            ast_model::texts(rel_vars@),
            inner,
            source::model(*db),
        ),
{
    let ghost m = source::model(*db);
    let ghost (p, ns, es) = (path@, ast_model::texts(node_vars@), ast_model::texts(rel_vars@));
    assert(flow::viewed(rs@) =~= record::rows(rs@));
    let f = |rec: &NamedRecord| -> (o: Outcome)
        ensures
            source::steady(*db) ==> flow::rows_told(o) == path_row(
                rec@,
                path@,
                ast_model::texts(node_vars@),
                ast_model::texts(rel_vars@),
                inner,
                source::model(*db),
            ),
        { bind_path(db, rec, path, node_vars, rel_vars, inner) };
    flow::gather(
        rs,
        f,
        Ghost(|rec: Row| path_row(rec, p, ns, es, inner, m)),
        Ghost(source::steady(*db)),
    )
}

/// The nodes with the ids, up to the first that cannot be read.
pub open spec fn nodes_at(ids: Seq<NodeId>, m: Model) -> Result<Seq<NodeView>, ErrorView>
    decreases ids.len(),
{
    if ids.len() == 0 {
        Ok(Seq::empty())
    } else {
        match nodes_at(ids.drop_last(), m) {
            Ok(ns) => match (m.node)(ids.last()) {
                Ok(n) => Ok(ns.push(n)),
                Err(e) => Err(e),
            },
            Err(e) => Err(e),
        }
    }
}

/// The first node that cannot be read decides.
proof fn lemma_nodes_stop(ids: Seq<NodeId>, m: Model, i: int)
    requires
        0 <= i <= ids.len(),
        nodes_at(ids.take(i), m) is Err,
    ensures
        nodes_at(ids, m) == nodes_at(ids.take(i), m),
    decreases ids.len(),
{
    if i < ids.len() {
        assert(ids.drop_last().take(i) =~= ids.take(i));
        lemma_nodes_stop(ids.drop_last(), m, i);
    } else {
        assert(ids.take(i) =~= ids);
    }
}

/// The nodes with the ids.
fn read_nodes<S: Source>(db: &S, ids: &Vec<NodeId>) -> (r: Result<Vec<Node>, GraphError>)
    ensures
        source::steady(*db) ==> source::nodes_told(r) == nodes_at(ids@, source::model(*db)),
{
    let ghost m = source::model(*db);
    let mut out: Vec<Node> = Vec::new();
    let mut i: usize = 0;
    assert(ids@.take(0) =~= Seq::<NodeId>::empty());
    assert(value::nodes_view(out@) =~= Seq::<NodeView>::empty());
    while i < ids.len()
        invariant
            i <= ids.len(),
            m == source::model(*db),
            source::steady(*db) ==> nodes_at(ids@.take(i as int), m) == Ok::<
                Seq<NodeView>,
                ErrorView,
            >(value::nodes_view(out@)),
        decreases ids.len() - i,
    {
        assert(ids@.take(i + 1).drop_last() =~= ids@.take(i as int));
        match source::ask_node(db, ids[i]) {
            Ok(n) => {
                let ghost before = value::nodes_view(out@);
                out.push(n);
                assert(value::nodes_view(out@) =~= before.push(n@));
            },
            Err(e) => {
                proof {
                    if source::steady(*db) {
                        lemma_nodes_stop(ids@, m, i + 1);
                    }
                }
                return Err(e);
            },
        }
        i = i + 1;
    }
    assert(ids@.take(ids@.len() as int) =~= ids@);
    Ok(out)
}

/// The relationship between two nodes of a path, in whichever direction there is one.
pub open spec fn edge_between(a: NodeId, b: NodeId, label: Seq<char>, m: Model) -> Result<
    EdgeView,
    ErrorView,
> {
    match (m.edge_exists)(a, b, label) {
        Ok(forward) => {
            let (src, dst) = if forward {
                (a, b)
            } else {
                (b, a)
            };
            match (m.edge_properties)(src, dst, label) {
                Ok(properties) => Ok(EdgeView { src, dst, label, properties }),
                Err(e) => Err(e),
            }
        },
        Err(e) => Err(e),
    }
}

/// The relationship between two nodes of a path.
fn read_edge<S: Source>(db: &S, a: NodeId, b: NodeId, label: &str) -> (r: Result<Edge, GraphError>)
    ensures
        source::steady(*db) ==> types::outcome(r) == edge_between(
            a,
            b,
            label@,
            source::model(*db),
        ),
{
    let (src, dst) = match source::ask_edge_exists(db, a, b, label) {
        Ok(forward) => if forward {
            (a, b)
        } else {
            (b, a)
        },
        Err(e) => {
            return Err(e);
        },
    };
    match source::ask_edge_properties(db, src, dst, label) {
        Ok(properties) => Ok(Edge { src, dst, label: text::owned(label), properties }),
        Err(e) => Err(e),
    }
}

/// The relationships between the first `n` nodes of a path and those that follow them.
pub open spec fn edges_along(ids: Seq<NodeId>, n: int, label: Seq<char>, m: Model) -> Result<
    Seq<EdgeView>,
    ErrorView,
>
    decreases n,
{
    if n <= 0 {
        Ok(Seq::empty())
    } else {
        match edges_along(ids, n - 1, label, m) {
            Ok(es) => match edge_between(ids[n - 1], ids[n], label, m) {
                Ok(e) => Ok(es.push(e)),
                Err(e) => Err(e),
            },
            Err(e) => Err(e),
        }
    }
}

/// The first relationship that cannot be read decides.
proof fn lemma_along_stops(ids: Seq<NodeId>, n: int, label: Seq<char>, m: Model, i: int)
    requires
        0 <= i <= n,
        edges_along(ids, i, label, m) is Err,
    ensures
        edges_along(ids, n, label, m) == edges_along(ids, i, label, m),
    decreases n,
{
    if i < n {
        lemma_along_stops(ids, n - 1, label, m, i);
    }
}

/// The path through the nodes.
pub open spec fn path_through(ids: Seq<NodeId>, label: Seq<char>, m: Model) -> Result<
    PathValueView,
    ErrorView,
> {
    match nodes_at(ids, m) {
        Ok(nodes) => match edges_along(ids, ids.len() - 1, label, m) {
            Ok(edges) => Ok(PathValueView { nodes, edges }),
            Err(e) => Err(e),
        },
        Err(e) => Err(e),
    }
}

/// The path through the nodes, by relationships of one type.
pub fn build_path_value<S: Source>(db: &S, ids: &Vec<NodeId>, label: &str) -> (r: Result<
    PathValue,
    GraphError,
>)
    ensures
        source::steady(*db) ==> types::outcome(r) == path_through(
            ids@,
            label@,
            source::model(*db),
        ),
{
    let ghost m = source::model(*db);
    let nodes = match read_nodes(db, ids) {
        Ok(nodes) => nodes,
        Err(e) => {
            return Err(e);
        },
    };
    let mut edges: Vec<Edge> = Vec::new();
    assert(value::edges_view(edges@) =~= Seq::<EdgeView>::empty());
    if ids.len() == 0 {
        return Ok(PathValue { nodes, edges });
    }
    let mut i: usize = 0;
    while i < ids.len() - 1
        invariant
            ids.len() > 0,
            i <= ids.len() - 1,
            m == source::model(*db),
            source::steady(*db) ==> nodes_at(ids@, m) == Ok::<Seq<NodeView>, ErrorView>(
                value::nodes_view(nodes@),
            ),
            source::steady(*db) ==> edges_along(ids@, i as int, label@, m) == Ok::<
                Seq<EdgeView>,
                ErrorView,
            >(value::edges_view(edges@)),
        decreases ids.len() - i,
    {
        match read_edge(db, ids[i], ids[i + 1], label) {
            Ok(e) => {
                let ghost before = value::edges_view(edges@);
                edges.push(e);
                assert(value::edges_view(edges@) =~= before.push(e@));
            },
            Err(e) => {
                proof {
                    if source::steady(*db) {
                        lemma_along_stops(ids@, ids@.len() - 1, label@, m, i + 1);
                    }
                }
                return Err(e);
            },
        }
        i = i + 1;
    }
    Ok(PathValue { nodes, edges })
}

/// What a search for shortest paths looks for.
#[derive(Debug, PartialEq)]
pub struct PathSearch {
    pub src_alias: String,
    pub dst_alias: String,
    pub path_alias: String,
    /// The type to follow; the empty text means any.
    pub label: String,
    pub direction: Direction,
    pub max_hops: u32,
}

/// What a [`PathSearch`] says.
pub struct PathSearchView {
    pub src_alias: Seq<char>,
    pub dst_alias: Seq<char>,
    pub path_alias: Seq<char>,
    pub label: Seq<char>,
    pub direction: Direction,
    pub max_hops: u32,
}

impl View for PathSearch {
    type V = PathSearchView;

    open spec fn view(&self) -> PathSearchView {
        PathSearchView {
            src_alias: self.src_alias@,
            dst_alias: self.dst_alias@,
            path_alias: self.path_alias@,
            label: self.label@,
            direction: self.direction,
            max_hops: self.max_hops,
        }
    }
}

/// The row with the path through the nodes bound.
pub open spec fn way_row(rec: Row, ids: Seq<NodeId>, x: PathSearchView, m: Model) -> Rows {
    match path_through(ids, x.label, m) {
        Ok(p) => Ok(seq![assoc::put(rec, x.path_alias, ValueView::Path(p))]),
        Err(e) => Err(e),
    }
}

/// The row with the path through the nodes bound.
fn row_of_way<S: Source>(db: &S, rec: &NamedRecord, ids: &Vec<NodeId>, x: &PathSearch) -> (r: Outcome)
    ensures
        source::steady(*db) ==> flow::rows_told(r) == way_row(
            rec@,
            ids@,
            x@,
            source::model(*db),
        ),
{
    match build_path_value(db, ids, x.label.as_str()) {
        Ok(p) => {
            let mut out = rec.dup();
            let v = Value::Path(p);
            assert(v@ == ValueView::Path(p@));
            out.set(x.path_alias.clone(), v);
            Ok(read::one_row(out))
        },
        Err(e) => Err(e),
    }
}

/// The row with null in place of a path.
pub open spec fn no_way_row(rec: Row, x: PathSearchView) -> Rows {
    Ok(seq![assoc::put(rec, x.path_alias, ValueView::Null)])
}

/// The rows of the shortest paths between the nodes of a row: one, or all of them. Where there
/// is none, the path is null.
pub open spec fn shortest_rows(rec: Row, x: PathSearchView, all: bool, m: Model) -> Rows {
    match (
        binding::node_in(assoc::lookup(rec, x.src_alias)),
        binding::node_in(assoc::lookup(rec, x.dst_alias)),
    ) {
        (Some(src), Some(dst)) => if all {
            match (m.all_shortest_paths)(src, dst, x.label, x.direction, x.max_hops) {
                Ok(paths) => if paths.len() == 0 {
                    no_way_row(rec, x)
                } else {
                    flow::each(paths, |ids: Seq<NodeId>| way_row(rec, ids, x, m))
                },
                Err(e) => Err(e),
            }
        } else {
            match (m.shortest_path)(src, dst, x.label, x.direction, x.max_hops) {
                Ok(Some(ids)) => way_row(rec, ids, x, m),
                Ok(None) => no_way_row(rec, x),
                Err(e) => Err(e),
            }
        },
        _ => Ok(Seq::empty()),
    }
}

/// The rows of the shortest paths between the nodes of a row.
fn rows_of_shortest<S: Source>(db: &S, rec: &NamedRecord, x: &PathSearch, all: bool) -> (r: Outcome)
    ensures
        source::steady(*db) ==> flow::rows_told(r) == shortest_rows(
            rec@,
            x@,
            all,
            source::model(*db),
        ),
{
    let ghost m = source::model(*db);
    let ghost (rv, xv) = (rec@, x@);
    let src = match binding::node_field(rec, x.src_alias.as_str()) {
        Some(id) => id,
        None => {
            return Ok(read::no_rows());
        },
    };
    let dst = match binding::node_field(rec, x.dst_alias.as_str()) {
        Some(id) => id,
        None => {
            return Ok(read::no_rows());
        },
    };
    if all {
        match source::ask_all_shortest_paths(
            db,
            src,
            dst,
            x.label.as_str(),
            x.direction,
            x.max_hops,
        ) {
            Ok(paths) => {
                if paths.len() == 0 {
                    let mut out = rec.dup();
                    out.set(x.path_alias.clone(), Value::Null);
                    return Ok(read::one_row(out));
                }
                assert(flow::viewed(paths@) =~= source::ways(paths@));
                let f = |ids: &Vec<NodeId>| -> (o: Outcome)
                    ensures
                        source::steady(*db) ==> flow::rows_told(o) == way_row(
                            rec@,
                            ids@,
                            x@,
                            source::model(*db),
                        ),
                    { row_of_way(db, rec, ids, x) };
                flow::gather(
                    &paths,
                    f,
                    Ghost(|ids: Seq<NodeId>| way_row(rv, ids, xv, m)),
                    Ghost(source::steady(*db)),
                )
            },
            Err(e) => Err(e),
        }
    } else {
        match source::ask_shortest_path(db, src, dst, x.label.as_str(), x.direction, x.max_hops) {
            Ok(Some(ids)) => row_of_way(db, rec, &ids, x),
            Ok(None) => {
                let mut out = rec.dup();
                out.set(x.path_alias.clone(), Value::Null);
                Ok(read::one_row(out))
            },
            Err(e) => Err(e),
        }
    }
}

/// The rows of the shortest paths between the nodes of each row.
pub open spec fn shortest(rs: Seq<Row>, x: PathSearchView, all: bool, m: Model) -> Rows {
    flow::each(rs, |rec: Row| shortest_rows(rec, x, all, m))
}

/// The rows of the shortest paths between the nodes of each row.
pub fn shortest_paths<S: Source>(db: &S, rs: &Vec<NamedRecord>, x: &PathSearch, all: bool) -> (r: Outcome)
    ensures
        source::steady(*db) ==> flow::rows_told(r) == shortest(
            record::rows(rs@),
            x@,
            all,
            source::model(*db),
        ),
{
    let ghost m = source::model(*db);
    let ghost xv = x@;
    assert(flow::viewed(rs@) =~= record::rows(rs@));
    let f = |rec: &NamedRecord| -> (o: Outcome)
        ensures
            source::steady(*db) ==> flow::rows_told(o) == shortest_rows(
                rec@,
                x@,
                all,
                source::model(*db),
            ),
        { rows_of_shortest(db, rec, x, all) };
    flow::gather(rs, f, Ghost(|rec: Row| shortest_rows(rec, xv, all, m)), Ghost(source::steady(*db)))
}

} // verus!
