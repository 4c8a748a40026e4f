//! Following relationships from the nodes of rows.
use super::flow;
use super::flow::{Outcome, Rows};
use super::read;
use crate::assoc;
use crate::assoc::AssocList;
use crate::ast_copy;
use crate::ast_model;
use crate::binding;
use crate::plan::ExecContext;
use crate::record;
use crate::record::{NamedRecord, Row};
use crate::source;
use crate::source::{Model, PathAsk, PathRequest, Source, Step, StepView};
use crate::types::{Direction, ErrorView, GraphError, NodeId};
use crate::value;
use crate::value::{Edge, EdgeView, Node, NodeView, Value, ValueView};
use vstd::prelude::*;

verus! {

/// What an expansion follows, and where its results go.
#[derive(Debug, PartialEq)]
pub struct Expansion {
    pub src_alias: String,
    pub dst_alias: String,
    pub rel_alias: Option<String>,
    pub edge_types: Vec<String>,
    pub direction: Direction,
    pub min_hops: u32,
    pub max_hops: u32,
    pub var_length: bool,
    /// What each relationship of a variable-length path must have.
    pub filters: AssocList<Value>,
}

/// What an [`Expansion`] says.
pub struct ExpansionView {
    pub src_alias: Seq<char>,
    pub dst_alias: Seq<char>,
    pub rel_alias: Option<Seq<char>>,
    pub edge_types: Seq<Seq<char>>,
    pub direction: Direction,
    pub min_hops: u32,
    pub max_hops: u32,
    pub var_length: bool,
    pub filters: Row,
}

impl View for Expansion {
    type V = ExpansionView;

    open spec fn view(&self) -> ExpansionView {
        ExpansionView {
            src_alias: self.src_alias@,
            dst_alias: self.dst_alias@,
            rel_alias: ast_model::opt_text(self.rel_alias),
            edge_types: ast_model::texts(self.edge_types@),
            direction: self.direction,
            min_hops: self.min_hops,
            max_hops: self.max_hops,
            var_length: self.var_length,
            filters: value::props_view(self.filters.entries@),
        }
    }
}

/// The types to follow from a node: those asked for or, where none is, all that it has.
pub open spec fn types_from(id: NodeId, x: ExpansionView, m: Model) -> Result<
    Seq<Seq<char>>,
    ErrorView,
> {
    if x.edge_types.len() == 0 {
        (m.edge_labels)(id, x.direction)
    } else {
        Ok(x.edge_types)
    }
}

/// The types to follow from a node.
pub fn labels_from<S: Source>(db: &S, id: NodeId, x: &Expansion) -> (r: Result<
    Vec<String>,
    GraphError,
>)
    ensures
        source::steady(*db) ==> source::labels_told(r) == types_from(id, x@, source::model(*db)),
{
    if x.edge_types.len() == 0 {
        source::ask_edge_labels(db, id, x.direction)
    } else {
        Ok(ast_copy::dup_texts(&x.edge_types))
    }
}

/// The paths to ask for.
pub open spec fn path_ask(src: NodeId, x: ExpansionView, cap: Option<usize>, work: u64) -> PathAsk {
    PathAsk {
        src,
        labels: x.edge_types,
        direction: x.direction,
        min_hops: x.min_hops,
        max_hops: x.max_hops,
        filters: x.filters,
        cap,
        work,
    }
}

/// The paths to ask for.
pub fn path_request(src: NodeId, x: &Expansion, cap: Option<usize>, work: u64) -> (r: PathRequest)
    ensures
        r@ == path_ask(src, x@, cap, work),
{
    PathRequest {
        src,
        labels: ast_copy::dup_texts(&x.edge_types),
        direction: x.direction,
        min_hops: x.min_hops,
        max_hops: x.max_hops,
        filters: AssocList { entries: value::dup_props(&x.filters.entries) },
        cap,
        work,
    }
}

/// The relationship of a step. One whose properties cannot be read has none.
pub open spec fn step_edge(s: StepView, m: Model) -> ValueView {
    ValueView::Edge(
        EdgeView {
            src: s.edge_src,
            dst: s.edge_dst,
            label: s.edge_label,
            properties: match (m.edge_properties_at)(
                s.edge_src,
                s.edge_dst,
                s.edge_label,
                s.edge_seq,
            ) {
                Ok(p) => p,
                Err(_) => Row::empty(),
            },
        },
    )
}

/// The relationships of the steps.
pub open spec fn step_edges(s: Seq<StepView>, m: Model) -> Seq<ValueView> {
    Seq::new(s.len(), |i: int| step_edge(s[i], m))
}

/// No properties.
fn no_props() -> (r: AssocList<Value>)
    ensures
        value::props_view(r.entries@) == Row::empty(),
{
    let r = AssocList::new();
    assert(value::props_view(r.entries@) =~= Row::empty());
    r
}

/// The relationships of the steps.
fn edges_of_steps<S: Source>(db: &S, v: &Vec<Step>) -> (r: Vec<Value>)
    ensures
        source::steady(*db) ==> value::values_view(r@) == step_edges(
            source::steps(v@),
            source::model(*db),
        ),
{
    let ghost whole = step_edges(source::steps(v@), source::model(*db));
    let mut out: Vec<Value> = Vec::new();
    let mut i: usize = 0;
    while i < v.len()
        invariant
            i <= v.len(),
            whole == step_edges(source::steps(v@), source::model(*db)),
            source::steady(*db) ==> value::values_view(out@) == whole.take(i as int),
        decreases v.len() - i,
    {
        let s = &v[i];
        let properties = match source::ask_edge_properties_at(
            db,
            s.edge_src,
            s.edge_dst,
            s.edge_label.as_str(),
            s.edge_seq,
        ) {
            Ok(p) => p,
            Err(_) => no_props(),
        };
        let e = Edge {
            src: s.edge_src,
            dst: s.edge_dst,
            label: s.edge_label.clone(),
            properties,
        };
        let ghost before = value::values_view(out@);
        let edge = Value::Edge(e);
        assert(edge@ == ValueView::Edge(e@));
        out.push(edge);
        assert(value::values_view(out@) =~= before.push(edge@));
        assert(whole.take(i + 1) =~= whole.take(i as int).push(whole[i as int]));
        i = i + 1;
    }
    assert(whole.take(whole.len() as int) =~= whole);
    out
}

/// The node is not the one that the variable is bound to already.
pub open spec fn elsewhere(bound: Option<NodeId>, id: NodeId) -> bool {
    match bound {
        Some(b) => b != id,
        None => false,
    }
}

/// True when the node is not the one that the variable is bound to already.
pub fn is_elsewhere(bound: Option<NodeId>, id: NodeId) -> (r: bool)
    ensures
        r == elsewhere(bound, id),
{
    match bound {
        Some(b) => b != id,
        None => false,
    }
}

/// The row of a variable-length path: its end, and its relationships as a list.
pub open spec fn path_row(
    rec: Row,
    path: (NodeId, Seq<StepView>),
    x: ExpansionView,
    bound: Option<NodeId>,
    m: Model,
) -> Rows {
    if elsewhere(bound, path.0) {
        Ok(Seq::empty())
    } else {
        match (m.node)(path.0) {
            Ok(n) => {
                let there = binding::node_row(rec, n, x.dst_alias);
                Ok(
                    seq![
                        match x.rel_alias {
                            Some(a) => assoc::put(
                                there,
                                a,
                                ValueView::List(step_edges(path.1, m)),
                            ),
                            None => there,
                        },
                    ],
                )
            },
            Err(e) => Err(e),
        }
    }
}

/// The row of a variable-length path.
pub fn row_of_path<S: Source>(
    db: &S,
    rec: &NamedRecord,
    path: &(NodeId, Vec<Step>),
    x: &Expansion,
    bound: Option<NodeId>,
) -> (r: Outcome)
    ensures
        source::steady(*db) ==> flow::rows_told(r) == path_row(
            rec@,
            (path.0, source::steps(path.1@)),
            x@,
            bound,
            source::model(*db),
        ),
{
    if is_elsewhere(bound, path.0) {
        return Ok(read::no_rows());
    }
    match source::ask_node(db, path.0) {
        Ok(n) => {
            let mut new_rec = rec.dup();
            binding::populate_node_bindings(&mut new_rec, &n, x.dst_alias.as_str());
            match &x.rel_alias {
                Some(a) => {
                    let list = edges_of_steps(db, &path.1);
                    new_rec.set(a.clone(), Value::List(list));
                },
                None => {},
            }
            Ok(read::one_row(new_rec))
        },
        Err(e) => Err(e),
    }
}

/// The rows of the paths.
pub open spec fn path_rows(
    rec: Row,
    paths: Seq<(NodeId, Seq<StepView>)>,
    x: ExpansionView,
    bound: Option<NodeId>,
    m: Model,
) -> Rows {
    flow::each(paths, |p: (NodeId, Seq<StepView>)| path_row(rec, p, x, bound, m))
}

/// The rows of the paths.
fn rows_of_paths<S: Source>(
    db: &S,
    rec: &NamedRecord,
    paths: &Vec<(NodeId, Vec<Step>)>,
    x: &Expansion,
    bound: Option<NodeId>,
) -> (r: Outcome)
    ensures
        source::steady(*db) ==> flow::rows_told(r) == path_rows(
            rec@,
            source::ends_with_steps(paths@),
            x@,
            bound,
            source::model(*db),
        ),
{
    let ghost m = source::model(*db);
    let ghost g = |p: (NodeId, Seq<StepView>)| path_row(rec@, p, x@, bound, m);
    let ghost s = source::ends_with_steps(paths@);
    let mut out: Vec<NamedRecord> = Vec::new();
    let mut i: usize = 0;
    assert(s.take(0) =~= Seq::empty());
    assert(record::rows(out@) =~= Seq::<Row>::empty());
    while i < paths.len()
        invariant
            i <= paths.len(),
            m == source::model(*db),
            g == (|p: (NodeId, Seq<StepView>)| path_row(rec@, p, x@, bound, m)),
            s == source::ends_with_steps(paths@),
            source::steady(*db) ==> flow::each(s.take(i as int), g) == Ok::<Seq<Row>, ErrorView>(
                record::rows(out@),
            ),
        decreases paths.len() - i,
    {
        proof {
            flow::lemma_each_step(s, g, i as int);
        }
        match row_of_path(db, rec, &paths[i], x, bound) {
            Ok(more) => {
                flow::append_rows(&mut out, more);
            },
            Err(e) => {
                proof {
                    if source::steady(*db) {
                        flow::lemma_each_stops(s, g, i + 1);
                    }
                }
                return Err(e);
            },
        }
        i = i + 1;
    }
    assert(s.take(s.len() as int) =~= s);
    Ok(out)
}

/// The ends of a relationship between two nodes, in its own direction.
pub open spec fn ends_of_edge(
    from: NodeId,
    to: NodeId,
    label: Seq<char>,
    direction: Direction,
    m: Model,
) -> (NodeId, NodeId) {
    match direction {
        Direction::Incoming => (to, from),
        Direction::Outgoing => (from, to),
        Direction::Both => if (m.edge_exists)(from, to, label) == Ok::<bool, ErrorView>(true) {
            (from, to)
        } else {
            (to, from)
        },
    }
}

/// The ends of a relationship between two nodes, in its own direction.
pub fn edge_ends<S: Source>(
    db: &S,
    from: NodeId,
    to: NodeId,
    label: &str,
    direction: Direction,
) -> (r: (NodeId, NodeId))
    ensures
        source::steady(*db) ==> r == ends_of_edge(from, to, label@, direction, source::model(*db)),
{
    match direction {
        Direction::Incoming => (to, from),
        Direction::Outgoing => (from, to),
        Direction::Both => match source::ask_edge_exists(db, from, to, label) {
            Ok(true) => (from, to),
            _ => (to, from),
        },
    }
}

/// The row of one relationship to a node. There is none where another variable of the row is
/// bound to the same relationship.
pub open spec fn hop_row(
    rec: Row,
    n: NodeView,
    ends: (NodeId, NodeId),
    label: Seq<char>,
    edge: (u64, Row),
    alias: Seq<char>,
    dst_alias: Seq<char>,
) -> Rows {
    let there = binding::node_row(rec, n, dst_alias);
    let key = binding::edge_key(ends.0.0 as i64, ends.1.0 as i64, label, edge.0);
    if binding::bound_elsewhere(there, alias, key) {
        Ok(Seq::empty())
    } else {
        Ok(
            seq![
                binding::edge_row(there, alias, ends.0, ends.1, label, Some(edge.0), edge.1),
            ],
        )
    }
}

/// The row of one relationship to a node.
fn row_of_hop(
    rec: &NamedRecord,
    n: &Node,
    ends: (NodeId, NodeId),
    label: &str,
    edge: &(u64, AssocList<Value>),
    alias: &str,
    dst_alias: &str,
) -> (r: Vec<NamedRecord>)
    ensures
        hop_row(
            rec@,
            n@,
            ends,
            label@,
            (edge.0, value::props_view(edge.1.entries@)),
            alias@,
            dst_alias@,
        ) == Ok::<Seq<Row>, ErrorView>(record::rows(r@)),
{
    let mut new_rec = rec.dup();
    binding::populate_node_bindings(&mut new_rec, n, dst_alias);
    let key = binding::key_of(ends.0.0 as i64, ends.1.0 as i64, label, edge.0);
    if binding::is_bound_elsewhere(&new_rec, alias, &key) {
        return read::no_rows();
    }
    binding::bind_edge(&mut new_rec, alias, ends.0, ends.1, label, Some(edge.0), &edge.1);
    read::one_row(new_rec)
}

/// The relationships to bind: those there are, or one without properties.
pub open spec fn edges_or_one(all: Seq<(u64, Row)>) -> Seq<(u64, Row)> {
    if all.len() == 0 {
        seq![(0u64, Row::empty())]
    } else {
        all
    }
}

/// The rows of the relationships to a node.
pub open spec fn hop_rows(
    rec: Row,
    from: NodeId,
    to: NodeId,
    label: Seq<char>,
    alias: Seq<char>,
    x: ExpansionView,
    m: Model,
) -> Rows {
    let ends = ends_of_edge(from, to, label, x.direction, m);
    match (m.all_edge_props)(ends.0, ends.1, label) {
        Ok(all) => match (m.node)(to) {
            Ok(n) => flow::each(
                edges_or_one(all),
                |e: (u64, Row)| hop_row(rec, n, ends, label, e, alias, x.dst_alias),
            ),
            Err(e) => Err(e),
        },
        Err(e) => Err(e),
    }
}

/// The rows of the relationships to a node.
fn rows_of_hops<S: Source>(
    db: &S,
    rec: &NamedRecord,
    from: NodeId,
    to: NodeId,
    label: &str,
    alias: &str,
    x: &Expansion,
) -> (r: Outcome)
    ensures
        source::steady(*db) ==> flow::rows_told(r) == hop_rows(
            rec@,
            from,
            to,
            label@,
            alias@,
            x@,
            source::model(*db),
        ),
{
    let ends = edge_ends(db, from, to, label, x.direction);
    let mut all = match source::ask_all_edge_props(db, ends.0, ends.1, label) {
        Ok(all) => all,
        Err(e) => {
            return Err(e);
        },
    };
    let ghost given = source::numbered(all@);
    let n = match source::ask_node(db, to) {
        Ok(n) => n,
        Err(e) => {
            return Err(e);
        },
    };
    if all.len() == 0 {
        all.push((0, no_props()));
    }
    let ghost s = source::numbered(all@);
    assert(s =~= edges_or_one(given));
    let ghost g = |e: (u64, Row)| hop_row(rec@, n@, ends, label@, e, alias@, x@.dst_alias);
    let mut out: Vec<NamedRecord> = Vec::new();
    let mut i: usize = 0;
    assert(s.take(0) =~= Seq::empty());
    assert(record::rows(out@) =~= Seq::<Row>::empty());
    while i < all.len()
        invariant
            i <= all.len(),
            g == (|e: (u64, Row)| hop_row(rec@, n@, ends, label@, e, alias@, x@.dst_alias)),
            s == source::numbered(all@),
            flow::each(s.take(i as int), g) == Ok::<Seq<Row>, ErrorView>(record::rows(out@)),
        decreases all.len() - i,
    {
        proof {
            flow::lemma_each_step(s, g, i as int);
        }
        let more = row_of_hop(rec, &n, ends, label, &all[i], alias, x.dst_alias.as_str());
        flow::append_rows(&mut out, more);
        i = i + 1;
    }
    assert(s.take(s.len() as int) =~= s);
    Ok(out)
}

/// The rows of the relationships of a type to a node.
pub open spec fn neighbor_rows(
    rec: Row,
    from: NodeId,
    to: NodeId,
    label: Seq<char>,
    bound: Option<NodeId>,
    x: ExpansionView,
    m: Model,
) -> Rows {
    if elsewhere(bound, to) {
        Ok(Seq::empty())
    } else {
        match x.rel_alias {
            None => match (m.node)(to) {
                Ok(n) => Ok(seq![binding::node_row(rec, n, x.dst_alias)]),
                Err(e) => Err(e),
            },
            Some(a) => hop_rows(rec, from, to, label, a, x, m),
        }
    }
}

/// The rows of the relationships of a type to a node.
fn rows_of_neighbor<S: Source>(
    db: &S,
    rec: &NamedRecord,
    from: NodeId,
    to: NodeId,
    label: &str,
    bound: Option<NodeId>,
    x: &Expansion,
) -> (r: Outcome)
    ensures
        source::steady(*db) ==> flow::rows_told(r) == neighbor_rows(
            rec@,
            from,
            to,
            label@,
            bound,
            x@,
            source::model(*db),
        ),
{
    if is_elsewhere(bound, to) {
        return Ok(read::no_rows());
    }
    match &x.rel_alias {
        None => match source::ask_node(db, to) {
            Ok(n) => {
                let mut new_rec = rec.dup();
                binding::populate_node_bindings(&mut new_rec, &n, x.dst_alias.as_str());
                Ok(read::one_row(new_rec))
            },
            Err(e) => Err(e),
        },
        Some(a) => rows_of_hops(db, rec, from, to, label, a.as_str(), x),
    }
}

/// The rows of the relationships of a type from a node.
pub open spec fn typed_rows(
    rec: Row,
    from: NodeId,
    label: Seq<char>,
    bound: Option<NodeId>,
    x: ExpansionView,
    m: Model,
) -> Rows {
    match (m.neighbors)(from, label, x.direction) {
        Ok(ids) => flow::each(ids, |to: NodeId| neighbor_rows(rec, from, to, label, bound, x, m)),
        Err(e) => Err(e),
    }
}

/// The rows of the relationships of a type from a node.
fn rows_of_type<S: Source>(
    db: &S,
    rec: &NamedRecord,
    from: NodeId,
    label: &str,
    bound: Option<NodeId>,
    x: &Expansion,
) -> (r: Outcome)
    ensures
        source::steady(*db) ==> flow::rows_told(r) == typed_rows(
            rec@,
            from,
            label@,
            bound,
            x@,
            source::model(*db),
        ),
{
    let ghost m = source::model(*db);
    let ghost (rv, lv, xv) = (rec@, label@, x@);
    match source::ask_neighbors(db, from, label, x.direction) {
        Ok(ids) => {
            assert(flow::viewed(ids@) =~= ids@);
            let f = |to: &NodeId| -> (o: Outcome)
                ensures
                    source::steady(*db) ==> flow::rows_told(o) == neighbor_rows(
                        rec@,
                        from,
                        *to,
                        label@,
                        bound,
                        x@,
                        source::model(*db),
                    ),
                { rows_of_neighbor(db, rec, from, *to, label, bound, x) };
            flow::gather(
                &ids,
                f,
                Ghost(|to: NodeId| neighbor_rows(rv, from, to, lv, bound, xv, m)),
                Ghost(source::steady(*db)),
            )
        },
        Err(e) => Err(e),
    }
}

/// The rows that one row expands to.
pub open spec fn expanded(
    rec: Row,
    x: ExpansionView,
    cap: Option<usize>,
    work: u64,
    m: Model,
) -> Rows {
    match binding::node_in(assoc::lookup(rec, x.src_alias)) {
        None => Ok(Seq::empty()),
        Some(src) => {
            let bound = binding::node_in(assoc::lookup(rec, x.dst_alias));
            match types_from(src, x, m) {
                Err(e) => Err(e),
                Ok(labels) => if x.var_length {
                    match (m.paths)(path_ask(src, x, cap, work)) {
                        Ok(paths) => path_rows(rec, paths, x, bound, m),
                        Err(e) => Err(e),
                    }
                } else {
                    flow::each(labels, |label: Seq<char>| typed_rows(rec, src, label, bound, x, m))
                },
            }
        },
    }
}

/// The rows that one row expands to. A variable that is bound to a node already keeps it, and
/// no relationship is bound twice in a row.
pub fn expand_record<S: Source>(
    db: &S,
    rec: &NamedRecord,
    x: &Expansion,
    cap: Option<usize>,
    work: u64,
) -> (r: Outcome)
    ensures
        source::steady(*db) ==> flow::rows_told(r) == expanded(
            rec@,
            x@,
            cap,
            work,
            source::model(*db),
        ),
{
    let src = match binding::node_field(rec, x.src_alias.as_str()) {
        Some(id) => id,
        None => {
            return Ok(read::no_rows());
        },
    };
    let labels = match labels_from(db, src, x) {
        Ok(labels) => labels,
        Err(e) => {
            return Err(e);
        },
    };
    let bound = binding::node_field(rec, x.dst_alias.as_str());
    if x.var_length {
        return match source::ask_paths(db, &path_request(src, x, cap, work)) {
            Ok(paths) => rows_of_paths(db, rec, &paths, x, bound),
            Err(e) => Err(e),
        };
    }
    let ghost m = source::model(*db);
    let ghost (rv, xv) = (rec@, x@);
    assert(flow::viewed(labels@) =~= ast_model::texts(labels@));
    let f = |label: &String| -> (o: Outcome)
        ensures
            source::steady(*db) ==> flow::rows_told(o) == typed_rows(
                rec@,
                src,
                label@,
                bound,
                x@,
                source::model(*db),
            ),
        { rows_of_type(db, rec, src, label.as_str(), bound, x) };
    flow::gather(
        &labels,
        f,
        Ghost(|label: Seq<char>| typed_rows(rv, src, label, bound, xv, m)),
        Ghost(source::steady(*db)),
    )
}

/// The rows that all rows expand to. Once there are as many as wanted, no row is expanded.
pub open spec fn expanded_all(
    rs: Seq<Row>,
    x: ExpansionView,
    cap: Option<usize>,
    work: u64,
    m: Model,
) -> Rows
    decreases rs.len(),
{
    if rs.len() == 0 {
        Ok(Seq::empty())
    } else {
        match expanded_all(rs.drop_last(), x, cap, work, m) {
            Ok(done) => match cap {
                None => match expanded(rs.last(), x, None, work, m) {
                    Ok(more) => Ok(done + more),
                    Err(e) => Err(e),
                },
                Some(c) => if done.len() >= c {
                    Ok(done)
                } else {
                    match expanded(rs.last(), x, Some((c - done.len()) as usize), work, m) {
                        Ok(more) => Ok(done + more),
                        Err(e) => Err(e),
                    }
                },
            },
            Err(e) => Err(e),
        }
    }
}

/// The first row that fails decides.
proof fn lemma_expanded_stops(
    rs: Seq<Row>,
    x: ExpansionView,
    cap: Option<usize>,
    work: u64,
    m: Model,
    i: int,
)
    requires
        0 <= i <= rs.len(),
        expanded_all(rs.take(i), x, cap, work, m) is Err,
    ensures
        expanded_all(rs, x, cap, work, m) == expanded_all(rs.take(i), x, cap, work, m),
    decreases rs.len(),
{
    if i < rs.len() {
        assert(rs.drop_last().take(i) =~= rs.take(i));
        lemma_expanded_stops(rs.drop_last(), x, cap, work, m, i);
    } else {
        assert(rs.take(i) =~= rs);
    }
}

/// The rows that all rows expand to.
pub fn expand_rows<S: Source>(
    db: &S,
    rs: &Vec<NamedRecord>,
    x: &Expansion,
    cap: Option<usize>,
    ctx: &ExecContext,
) -> (r: Outcome)
    ensures
        source::steady(*db) ==> flow::rows_told(r) == read::limited_all(
            expanded_all(record::rows(rs@), x@, cap, ctx.max_traversal_work, source::model(*db)),
            *ctx,
        ),
{
    let work = ctx.max_traversal_work;
    let ghost m = source::model(*db);
    let ghost s = record::rows(rs@);
    let mut out: Vec<NamedRecord> = Vec::new();
    let mut i: usize = 0;
    assert(s.take(0) =~= Seq::<Row>::empty());
    assert(record::rows(out@) =~= Seq::<Row>::empty());
    while i < rs.len()
        invariant
            i <= rs.len(),
            m == source::model(*db),
            s == record::rows(rs@),
            work == ctx.max_traversal_work,
            source::steady(*db) ==> expanded_all(s.take(i as int), x@, cap, work, m) == Ok::<
                Seq<Row>,
                ErrorView,
            >(record::rows(out@)),
        decreases rs.len() - i,
    {
        assert(s.take(i + 1).drop_last() =~= s.take(i as int));
        assert(s.take(i + 1).last() == rs@[i as int]@);
        assert(record::rows(out@).len() == out@.len());
        let enough = match cap {
            Some(c) => out.len() >= c,
            None => false,
        };
        if !enough {
            let left = match cap {
                Some(c) => Some(c - out.len()),
                None => None,
            };
            match expand_record(db, &rs[i], x, left, work) {
                Ok(more) => {
                    flow::append_rows(&mut out, more);
                },
                Err(e) => {
                    proof {
                        if source::steady(*db) {
                            lemma_expanded_stops(s, x@, cap, work, m, i + 1);
                        }
                    }
                    return Err(e);
                },
            }
        }
        i = i + 1;
    }
    assert(s.take(s.len() as int) =~= s);
    read::limit_rows(out, ctx)
}

} // verus!
