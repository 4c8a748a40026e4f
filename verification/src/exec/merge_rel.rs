//! MERGE of a relationship.
use crate::assoc;
use crate::ast::{NodePattern, Pattern, PatternElement, RelDirection, RelPattern};
use crate::ast_model;
use crate::binding;
use crate::exec::change;
use crate::exec::change::{Change, ChangeView};
use crate::exec::merge;
use crate::exec::merge_set;
use crate::exec::project;
use crate::record::{NamedRecord, Row};
use crate::source;
use crate::source::{Model, Source};
use crate::text;
use crate::types;
use crate::types::{ErrorCode, ErrorView, GraphError, NodeId};
use crate::value;
use crate::value::{Edge, EdgeView, Node, NodeView, PathValue, PathValueView, Value, ValueView};
use vstd::prelude::*;

verus! {

/// What a MERGE pattern consists of.
pub enum Shape<'a> {
    Node(&'a NodePattern),
    Relationship { src: &'a NodePattern, rel: &'a RelPattern, dst: &'a NodePattern },
}

/// A fault of a MERGE pattern.
pub open spec fn bad_pattern(message: Seq<char>) -> ErrorView {
    types::semantic_error(ErrorCode::Other, message)
}

/// A fault of a MERGE pattern.
fn pattern_error(message: &str) -> (r: GraphError)
    ensures
        r@ == bad_pattern(message@),
{
    GraphError::semantic(ErrorCode::Other, text::owned(message))
}

/// Why a MERGE pattern is none: it is a single node, or a node, a relationship and a node. For
/// a MERGE after other clauses, both ends of a relationship have a variable.
pub open spec fn pattern_fault(p: Pattern, after: bool) -> Option<ErrorView> {
    let s = p.elements@;
    if s.len() == 1 {
        match s[0] {
            PatternElement::Node(_) => None,
            _ => Some(bad_pattern("expected node pattern"@)),
        }
    } else if s.len() != 3 {
        Some(bad_pattern("MERGE pattern must be a single node or (node)-[rel]->(node)"@))
    } else {
        match (s[0], s[1], s[2]) {
            (
                PatternElement::Node(src),
                PatternElement::Relationship(_),
                PatternElement::Node(dst),
            ) => if after && src.variable is None {
                Some(bad_pattern("MERGE relationship source must have a variable"@))
            } else if after && dst.variable is None {
                Some(bad_pattern("MERGE relationship target must have a variable"@))
            } else {
                None
            },
            (PatternElement::Node(_), PatternElement::Relationship(_), _) => Some(
                bad_pattern("expected node pattern"@),
            ),
            (PatternElement::Node(_), _, _) => Some(
                bad_pattern("expected relationship pattern"@),
            ),
            _ => Some(bad_pattern("expected node pattern"@)),
        }
    }
}

/// What a MERGE pattern consists of.
pub fn merge_shape<'a>(p: &'a Pattern, after: bool) -> (r: Result<Shape<'a>, GraphError>)
    ensures
        match r {
            Ok(Shape::Node(n)) => {
                &&& pattern_fault(*p, after) is None
                &&& p.elements@.len() == 1
                &&& p.elements@[0] == PatternElement::Node(*n)
            },
            Ok(Shape::Relationship { src, rel, dst }) => {
                &&& pattern_fault(*p, after) is None
                &&& p.elements@.len() == 3
                &&& p.elements@[0] == PatternElement::Node(*src)
                &&& p.elements@[1] == PatternElement::Relationship(*rel)
                &&& p.elements@[2] == PatternElement::Node(*dst)
            },
            Err(e) => pattern_fault(*p, after) == Some(e@),
        },
{
    let s = &p.elements;
    if s.len() == 1 {
        return match &s[0] {
            PatternElement::Node(n) => Ok(Shape::Node(n)),
            _ => Err(pattern_error("expected node pattern")),
        };
    }
    if s.len() != 3 {
        return Err(
            pattern_error("MERGE pattern must be a single node or (node)-[rel]->(node)"),
        );
    }
    let src = match &s[0] {
        PatternElement::Node(n) => n,
        _ => {
            return Err(pattern_error("expected node pattern"));
        },
    };
    let rel = match &s[1] {
        PatternElement::Relationship(x) => x,
        _ => {
            return Err(pattern_error("expected relationship pattern"));
        },
    };
    let dst = match &s[2] {
        PatternElement::Node(n) => n,
        _ => {
            return Err(pattern_error("expected node pattern"));
        },
    };
    if after && src.variable.is_none() {
        return Err(pattern_error("MERGE relationship source must have a variable"));
    }
    if after && dst.variable.is_none() {
        return Err(pattern_error("MERGE relationship target must have a variable"));
    }
    Ok(Shape::Relationship { src, rel, dst })
}

/// The type of a relationship that is merged.
pub open spec fn rel_type(rel: RelPattern) -> Seq<char> {
    merge::first_label(ast_model::texts(rel.rel_types@))
}

/// The type of a relationship that is merged.
pub fn merged_type(rel: &RelPattern) -> (r: String)
    ensures
        r@ == rel_type(*rel),
{
    merge::leading_label(&rel.rel_types)
}

/// A relationship: its ends and its number.
pub type Hit = (NodeId, NodeId, u64);

/// What the MERGE of a relationship between two nodes comes to.
#[derive(Debug, PartialEq)]
pub enum RelFound {
    /// A row has no node at one of the ends.
    NoEnds,
    /// There are such relationships.
    Edges(Vec<Hit>),
    /// There is none: it is to be created.
    Missing(Change),
}

/// What a [`RelFound`] says.
pub enum RelFoundView {
    NoEnds,
    Edges(Seq<Hit>),
    Missing(ChangeView),
}

impl View for RelFound {
    type V = RelFoundView;

    open spec fn view(&self) -> RelFoundView {
        match self {
            RelFound::NoEnds => RelFoundView::NoEnds,
            RelFound::Edges(v) => RelFoundView::Edges(v@),
            RelFound::Missing(c) => RelFoundView::Missing(c@),
        }
    }
}

/// The relationship that is created where there is none.
pub open spec fn new_edge(src: NodeId, dst: NodeId, label: Seq<char>, want: Row) -> ChangeView {
    ChangeView::AddEdge { src, dst, label, properties: want }
}

/// Whether there is a relationship with the wanted values.
pub open spec fn edge_there(src: NodeId, dst: NodeId, label: Seq<char>, want: Row, m: Model) -> Result<
    bool,
    ErrorView,
> {
    match (m.edge_exists)(src, dst, label) {
        Err(e) => Err(e),
        Ok(false) => Ok(false),
        Ok(true) => if want.len() == 0 {
            Ok(true)
        } else {
            match (m.edge_properties)(src, dst, label) {
                Ok(props) => Ok(merge::has_props(props, want)),
                Err(e) => Err(e),
            }
        },
    }
}

/// What the MERGE of a relationship on its own comes to, between two nodes that are there: the
/// change that creates it, or nothing where it is there.
pub open spec fn edge_merged(rel: RelPattern, src: NodeId, dst: NodeId, m: Model) -> Result<
    Option<ChangeView>,
    ErrorView,
> {
    match merge::wanted(rel.properties.entries@, Row::empty(), m) {
        Err(e) => Err(e),
        Ok(want) => match edge_there(src, dst, rel_type(rel), want, m) {
            Err(e) => Err(e),
            Ok(true) => Ok(None),
            Ok(false) => Ok(Some(new_edge(src, dst, rel_type(rel), want))),
        },
    }
}

/// What the MERGE of a relationship on its own comes to, between two nodes that are there.
pub fn plan_edge_merge<S: Source>(db: &S, rel: &RelPattern, src: NodeId, dst: NodeId) -> (r: Result<
    Option<Change>,
    GraphError,
>)
    ensures
        source::steady(*db) ==> change::opt_change(r) == edge_merged(
            *rel,
            src,
            dst,
            source::model(*db),
        ),
{
    let label = merged_type(rel);
    let want = match merge::find_wanted(db, &rel.properties, &NamedRecord::new()) {
        Ok(w) => w,
        Err(e) => {
            return Err(e);
        },
    };
    let there = match source::ask_edge_exists(db, src, dst, label.as_str()) {
        Err(e) => {
            return Err(e);
        },
        Ok(false) => false,
        Ok(true) => {
            assert(want.fields.entries@.len() == want@.len());
            if want.fields.entries.len() == 0 {
                true
            } else {
                match source::ask_edge_properties(db, src, dst, label.as_str()) {
                    Ok(props) => merge::holds_props(&props, &want.fields.entries),
                    Err(e) => {
                        return Err(e);
                    },
                }
            }
        },
    };
    if there {
        Ok(None)
    } else {
        Ok(Some(Change::AddEdge { src, dst, label, properties: want.fields }))
    }
}

/// The relationships among numbered ones that hold the wanted values.
pub open spec fn hits(src: NodeId, dst: NodeId, all: Seq<(u64, Row)>, want: Row) -> Seq<Hit>
    decreases all.len(),
{
    if all.len() == 0 {
        Seq::empty()
    } else {
        let t = hits(src, dst, all.drop_last(), want);
        if merge::has_props(all.last().1, want) {
            t.push((src, dst, all.last().0))
        } else {
            t
        }
    }
}

/// The relationships between two nodes that hold the wanted values.
pub open spec fn hits_between(src: NodeId, dst: NodeId, label: Seq<char>, want: Row, m: Model) -> Result<
    Seq<Hit>,
    ErrorView,
> {
    match (m.all_edge_props)(src, dst, label) {
        Ok(all) => Ok(hits(src, dst, all, want)),
        Err(e) => Err(e),
    }
}

/// What a list of relationships says.
pub open spec fn hits_told(r: Result<Vec<Hit>, GraphError>) -> Result<Seq<Hit>, ErrorView> {
    match r {
        Ok(v) => Ok(v@),
        Err(e) => Err(e@),
    }
}

/// The relationships between two nodes that hold the wanted values.
fn find_hits<S: Source>(
    db: &S,
    src: NodeId,
    dst: NodeId,
    label: &str,
    want: &Vec<(String, Value)>,
) -> (r: Result<Vec<Hit>, GraphError>)
    ensures
        source::steady(*db) ==> hits_told(r) == hits_between(
            src,
            dst,
            label@,
            value::props_view(want@),
            source::model(*db),
        ),
{
    let ghost w = value::props_view(want@);
    match source::ask_all_edge_props(db, src, dst, label) {
        Err(e) => Err(e),
        Ok(all) => {
            let ghost s = source::numbered(all@);
            let mut out: Vec<Hit> = Vec::new();
            let mut i: usize = 0;
            assert(s.take(0) =~= Seq::<(u64, Row)>::empty());
            while i < all.len()
                invariant
                    i <= all.len(),
                    w == value::props_view(want@),
                    s == source::numbered(all@),
                    out@ == hits(src, dst, s.take(i as int), w),
                decreases all.len() - i,
            {
                assert(s.take(i + 1).drop_last() =~= s.take(i as int));
                assert(s.take(i + 1).last() == s[i as int]);
                if merge::holds_props(&all[i].1, want) {
                    out.push((src, dst, all[i].0));
                }
                i = i + 1;
            }
            assert(s.take(s.len() as int) =~= s);
            Ok(out)
        },
    }
}

/// What the MERGE of a relationship comes to on a row: all relationships with the wanted values
/// between the nodes of the row, in both directions where the pattern has none.
pub open spec fn row_rel_merged(
    rec: Row,
    src_var: Seq<char>,
    rel: RelPattern,
    dst_var: Seq<char>,
    m: Model,
) -> Result<RelFoundView, ErrorView> {
    let label = rel_type(rel);
    match (
        binding::integer_in(assoc::lookup(rec, src_var)),
        binding::integer_in(assoc::lookup(rec, dst_var)),
    ) {
        (Some(s), Some(d)) => {
            let src = NodeId(s as u64);
            let dst = NodeId(d as u64);
            match merge::wanted(rel.properties.entries@, rec, m) {
                Err(e) => Err(e),
                Ok(want) => match hits_between(src, dst, label, want, m) {
                    Err(e) => Err(e),
                    Ok(there) => {
                        let back = if rel.direction is Undirected {
                            hits_between(dst, src, label, want, m)
                        } else {
                            Ok(Seq::empty())
                        };
                        match back {
                            Err(e) => Err(e),
                            Ok(back) => Ok(
                                if there.len() + back.len() == 0 {
                                    RelFoundView::Missing(new_edge(src, dst, label, want))
                                } else {
                                    RelFoundView::Edges(there + back)
                                },
                            ),
                        }
                    },
                },
            }
        },
        _ => Ok(RelFoundView::NoEnds),
    }
}

/// What the MERGE of a relationship comes to on a row.
pub fn plan_row_rel_merge<S: Source>(
    db: &S,
    rec: &NamedRecord,
    src_var: &str,
    rel: &RelPattern,
    dst_var: &str,
) -> (r: Result<RelFound, GraphError>)
    ensures
        source::steady(*db) ==> types::outcome(r) == row_rel_merged(
            rec@,
            src_var@,
            *rel,
            dst_var@,
            source::model(*db),
        ),
{
    let label = merged_type(rel);
    let src = match binding::integer_field(rec, src_var) {
        Some(s) => NodeId(s as u64),
        None => {
            return Ok(RelFound::NoEnds);
        },
    };
    let dst = match binding::integer_field(rec, dst_var) {
        Some(d) => NodeId(d as u64),
        None => {
            return Ok(RelFound::NoEnds);
        },
    };
    let want = match merge::find_wanted(db, &rel.properties, rec) {
        Ok(w) => w,
        Err(e) => {
            return Err(e);
        },
    };
    let mut all = match find_hits(db, src, dst, label.as_str(), &want.fields.entries) {
        Ok(v) => v,
        Err(e) => {
            return Err(e);
        },
    };
    let ghost there = all@;
    match rel.direction {
        RelDirection::Undirected => match find_hits(
            db,
            dst,
            src,
            label.as_str(),
            &want.fields.entries,
        ) {
            Ok(back) => {
                let mut back = back;
                let ghost more = back@;
                all.append(&mut back);
                assert(all@ =~= there + more);
            },
            Err(e) => {
                return Err(e);
            },
        },
        _ => {
            assert(there + Seq::<Hit>::empty() =~= there);
        },
    }
    if all.len() == 0 {
        Ok(RelFound::Missing(Change::AddEdge { src, dst, label, properties: want.fields }))
    } else {
        Ok(RelFound::Edges(all))
    }
}

/// The row with the ends of a relationship bound to their variables.
pub open spec fn ends_row(src: NodePattern, dst: NodePattern, s: NodeId, d: NodeId) -> Row {
    let from = match src.variable {
        Some(v) => assoc::put(Row::empty(), v@, binding::id_view(s)),
        None => Row::empty(),
    };
    match dst.variable {
        Some(v) => assoc::put(from, v@, binding::id_view(d)),
        None => from,
    }
}

/// The row with the ends of a relationship bound to their variables.
pub fn bind_ends(src: &NodePattern, dst: &NodePattern, s: NodeId, d: NodeId) -> (r: NamedRecord)
    ensures
        r@ == ends_row(*src, *dst, s, d),
{
    let mut rec = NamedRecord::new();
    match &src.variable {
        Some(v) => {
            rec.set(v.clone(), binding::id_value(s));
        },
        None => {},
    }
    match &dst.variable {
        Some(v) => {
            rec.set(v.clone(), binding::id_value(d));
        },
        None => {},
    }
    rec
}

/// The row with a path of one node bound to the pattern's variable.
pub open spec fn with_node_path(rec: Row, path_var: Option<String>, n: NodeView) -> Row {
    match path_var {
        Some(v) => assoc::put(
            rec,
            v@,
            ValueView::Path(PathValueView { nodes: seq![n], edges: Seq::empty() }),
        ),
        None => rec,
    }
}

/// The row of a node that was merged, with what it holds now.
pub open spec fn merged_row(
    rec: Row,
    alias: Seq<char>,
    id: NodeId,
    path_var: Option<String>,
    m: Model,
) -> Result<Row, ErrorView> {
    match (m.node)(id) {
        Ok(n) => Ok(
            with_node_path(change::node_bound(rec, alias, id, n.properties), path_var, n),
        ),
        Err(e) => Err(e),
    }
}

/// The row of a node that was merged, with what it holds now.
pub fn bind_merged_node<S: Source>(
    db: &S,
    rec: &NamedRecord,
    alias: &str,
    id: NodeId,
    path_var: &Option<String>,
) -> (r: Result<NamedRecord, GraphError>)
    ensures
        source::steady(*db) ==> project::row_told(r) == merged_row(
            rec@,
            alias@,
            id,
            *path_var,
            source::model(*db),
        ),
{
    match source::ask_node(db, id) {
        Ok(n) => {
            let mut row = rec.dup();
            change::bind_node(&mut row, alias, id, &n.properties);
            match path_var {
                Some(v) => {
                    let mut nodes: Vec<Node> = Vec::new();
                    nodes.push(n);
                    let edges: Vec<Edge> = Vec::new();
                    assert(value::nodes_view(nodes@) =~= seq![n@]);
                    assert(value::edges_view(edges@) =~= Seq::<EdgeView>::empty());
                    row.set(v.clone(), Value::Path(PathValue { nodes, edges }));
                },
                None => {},
            }
            Ok(row)
        },
        Err(e) => Err(e),
    }
}

/// A relationship with its ends as a path.
pub open spec fn edge_path(src: NodeId, dst: NodeId, label: Seq<char>, seq: Option<u64>, m: Model) -> Result<
    ValueView,
    ErrorView,
> {
    match (m.node)(src) {
        Err(e) => Err(e),
        Ok(s) => match (m.node)(dst) {
            Err(e) => Err(e),
            Ok(d) => match merge_set::edge_props(src, dst, label, seq, m) {
                Err(e) => Err(e),
                Ok(properties) => Ok(
                    ValueView::Path(
                        PathValueView {
                            nodes: seq![s, d],
                            edges: seq![EdgeView { src, dst, label, properties }],
                        },
                    ),
                ),
            },
        },
    }
}

/// A relationship with its ends as a path.
pub fn find_edge_path<S: Source>(db: &S, src: NodeId, dst: NodeId, label: &str, seq: Option<u64>) -> (r: Result<
    Value,
    GraphError,
>)
    ensures
        source::steady(*db) ==> types::outcome(r) == edge_path(
            src,
            dst,
            label@,
            seq,
            source::model(*db),
        ),
{
    let s = match source::ask_node(db, src) {
        Ok(n) => n,
        Err(e) => {
            return Err(e);
        },
    };
    let d = match source::ask_node(db, dst) {
        Ok(n) => n,
        Err(e) => {
            return Err(e);
        },
    };
    match merge_set::find_edge_props(db, src, dst, label, seq) {
        Ok(properties) => {
            let mut nodes: Vec<Node> = Vec::new();
            nodes.push(s);
            nodes.push(d);
            let e = Edge { src, dst, label: text::owned(label), properties };
            let mut edges: Vec<Edge> = Vec::new();
            edges.push(e);
            assert(value::nodes_view(nodes@) =~= seq![s@, d@]);
            assert(value::edges_view(edges@) =~= seq![e@]);
            Ok(Value::Path(PathValue { nodes, edges }))
        },
        Err(e) => Err(e),
    }
}

/// The row of a relationship that was merged, with what it holds now: the relationship and the
/// path, where the pattern has variables for them.
pub open spec fn rel_row(
    rec: Row,
    rel: RelPattern,
    path_var: Option<String>,
    src: NodeId,
    dst: NodeId,
    seq: Option<u64>,
    m: Model,
) -> Result<Row, ErrorView> {
    let label = rel_type(rel);
    let with_rel = match rel.variable {
        Some(a) => match merge_set::edge_props(src, dst, label, seq, m) {
            Ok(props) => Ok(binding::edge_row(rec, a@, src, dst, label, seq, props)),
            Err(e) => Err(e),
        },
        None => Ok(rec),
    };
    match with_rel {
        Err(e) => Err(e),
        Ok(row) => match path_var {
            None => Ok(row),
            Some(p) => match edge_path(src, dst, label, seq, m) {
                Ok(v) => Ok(assoc::put(row, p@, v)),
                Err(e) => Err(e),
            },
        },
    }
}

/// The row of a relationship that was merged, with what it holds now.
pub fn bind_merged_edge<S: Source>(
    db: &S,
    rec: &NamedRecord,
    rel: &RelPattern,
    path_var: &Option<String>,
    src: NodeId,
    dst: NodeId,
    seq: Option<u64>,
) -> (r: Result<NamedRecord, GraphError>)
    ensures
        source::steady(*db) ==> project::row_told(r) == rel_row(
            rec@,
            *rel,
            *path_var,
            src,
            dst,
            seq,
            source::model(*db),
        ),
{
    let label = merged_type(rel);
    let mut row = rec.dup();
    match &rel.variable {
        Some(a) => match merge_set::find_edge_props(db, src, dst, label.as_str(), seq) {
            Ok(props) => {
                binding::bind_edge(&mut row, a.as_str(), src, dst, label.as_str(), seq, &props);
            },
            Err(e) => {
                return Err(e);
            },
        },
        None => {},
    }
    match path_var {
        None => Ok(row),
        Some(p) => match find_edge_path(db, src, dst, label.as_str(), seq) {
            Ok(v) => {
                row.set(p.clone(), v);
                Ok(row)
            },
            Err(e) => Err(e),
        },
    }
}

} // verus!
