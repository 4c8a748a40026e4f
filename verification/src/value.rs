//! Values, and the graph entities that are values.
use crate::assoc::AssocList;
use crate::ast_copy::dup_texts;
use crate::ast_model;
use crate::types::NodeId;
use vstd::prelude::*;

verus! {

/// A binary64 floating point number, by its bit pattern.
#[derive(Clone, Copy, Debug, PartialEq, Eq, Structural)]
pub struct Float {
    pub bits: u64,
}

impl View for Float {
    type V = Float;

    open spec fn view(&self) -> Float {
        *self
    }
}

/// Days since the epoch.
#[derive(Clone, Copy, Debug, PartialEq, Eq, Structural)]
pub struct Date(pub i64);

/// Nanoseconds since midnight.
#[derive(Clone, Copy, Debug, PartialEq, Eq, Structural)]
pub struct LocalTime(pub i64);

/// Nanoseconds since local midnight, and the offset from UTC in nanoseconds.
#[derive(Clone, Copy, Debug, PartialEq, Eq, Structural)]
pub struct Time(pub i64, pub i64);

/// Nanoseconds since the epoch.
#[derive(Clone, Copy, Debug, PartialEq, Eq, Structural)]
pub struct LocalDateTime(pub i64);

/// Local nanoseconds since the epoch, and the offset from UTC in nanoseconds.
#[derive(Clone, Copy, Debug, PartialEq, Eq, Structural)]
pub struct DateTime(pub i64, pub i64);

/// A span of time; its parts do not convert into one another.
#[derive(Clone, Copy, Debug, PartialEq, Eq, Structural)]
pub struct Duration {
    pub months: i64,
    pub days: i64,
    pub seconds: i64,
    pub nanos: i64,
}

/// A value that a query computes with.
#[derive(Debug, PartialEq)]
pub enum Value {
    /// The absent value.
    Null,
    /// A truth value.
    Bool(bool),
    /// An integer.
    I64(i64),
    /// A floating point number.
    F64(Float),
    /// Text.
    String(String),
    /// A list.
    List(Vec<Value>),
    /// A map from keys to values.
    MapValue(AssocList<Value>),
    /// A node.
    Node(Node),
    /// A relationship.
    Edge(Edge),
    /// A path.
    Path(PathValue),
    /// A calendar date.
    Date(Date),
    /// A time of day without an offset.
    LocalTime(LocalTime),
    /// A time of day with an offset.
    Time(Time),
    /// A date and time without an offset.
    LocalDateTime(LocalDateTime),
    /// A date and time with an offset.
    DateTime(DateTime),
    /// A span of time.
    Duration(Duration),
}

/// A node: its labels and its properties.
#[derive(Debug, PartialEq)]
pub struct Node {
    pub id: NodeId,
    pub labels: Vec<String>,
    pub properties: AssocList<Value>,
}

/// A relationship: its ends, its type and its properties.
#[derive(Debug, PartialEq)]
pub struct Edge {
    pub src: NodeId,
    pub dst: NodeId,
    pub label: String,
    pub properties: AssocList<Value>,
}

/// A path: its nodes and the relationships between them, in order.
#[derive(Debug, PartialEq)]
pub struct PathValue {
    pub nodes: Vec<Node>,
    pub edges: Vec<Edge>,
}

/// What a [`Value`] says.
pub enum ValueView {
    Null,
    Bool(bool),
    I64(i64),
    F64(Float),
    String(Seq<char>),
    List(Seq<ValueView>),
    MapValue(Seq<(Seq<char>, ValueView)>),
    Node(NodeView),
    Edge(EdgeView),
    Path(PathValueView),
    Date(Date),
    LocalTime(LocalTime),
    Time(Time),
    LocalDateTime(LocalDateTime),
    DateTime(DateTime),
    Duration(Duration),
}

/// What a [`Node`] says.
pub struct NodeView {
    pub id: NodeId,
    pub labels: Seq<Seq<char>>,
    pub properties: Seq<(Seq<char>, ValueView)>,
}

/// What a [`Edge`] says.
pub struct EdgeView {
    pub src: NodeId,
    pub dst: NodeId,
    pub label: Seq<char>,
    pub properties: Seq<(Seq<char>, ValueView)>,
}

/// What a [`PathValue`] says.
pub struct PathValueView {
    pub nodes: Seq<NodeView>,
    pub edges: Seq<EdgeView>,
}

pub open spec fn value_view(x: Value) -> ValueView
    decreases x,
{
    match x {
        Value::Null => ValueView::Null,
        Value::Bool(a) => ValueView::Bool(a),
        Value::I64(a) => ValueView::I64(a),
        Value::F64(a) => ValueView::F64(a),
        Value::String(a) => ValueView::String(a@),
        Value::List(a) => ValueView::List(values_view(a@)),
        Value::MapValue(a) => ValueView::MapValue(props_view(a.entries@)),
        Value::Node(a) => ValueView::Node(node_view(a)),
        Value::Edge(a) => ValueView::Edge(edge_view(a)),
        Value::Path(a) => ValueView::Path(path_value_view(a)),
        Value::Date(a) => ValueView::Date(a),
        Value::LocalTime(a) => ValueView::LocalTime(a),
        Value::Time(a) => ValueView::Time(a),
        Value::LocalDateTime(a) => ValueView::LocalDateTime(a),
        Value::DateTime(a) => ValueView::DateTime(a),
        Value::Duration(a) => ValueView::Duration(a),
    }
}

pub open spec fn node_view(x: Node) -> NodeView
    decreases x,
{
    NodeView {
        id: x.id,
        labels: ast_model::texts(x.labels@),
        properties: props_view(x.properties.entries@),
    }
}

pub open spec fn edge_view(x: Edge) -> EdgeView
    decreases x,
{
    EdgeView {
        src: x.src,
        dst: x.dst,
        label: x.label@,
        properties: props_view(x.properties.entries@),
    }
}

pub open spec fn path_value_view(x: PathValue) -> PathValueView
    decreases x,
{
    PathValueView {
        nodes: nodes_view(x.nodes@),
        edges: edges_view(x.edges@),
    }
}

pub open spec fn values_view(s: Seq<Value>) -> Seq<ValueView>
    decreases s,
{
    Seq::new(
        s.len(),
        |i: int| if 0 <= i < s.len() { value_view(s[i]) } else { arbitrary() },
    )
}

pub open spec fn nodes_view(s: Seq<Node>) -> Seq<NodeView>
    decreases s,
{
    Seq::new(
        s.len(),
        |i: int| if 0 <= i < s.len() { node_view(s[i]) } else { arbitrary() },
    )
}

pub open spec fn edges_view(s: Seq<Edge>) -> Seq<EdgeView>
    decreases s,
{
    Seq::new(
        s.len(),
        |i: int| if 0 <= i < s.len() { edge_view(s[i]) } else { arbitrary() },
    )
}

pub open spec fn props_view(s: Seq<(String, Value)>) -> Seq<(Seq<char>, ValueView)>
    decreases s,
{
    Seq::new(
        s.len(),
        |i: int| if 0 <= i < s.len() { (s[i].0@, value_view(s[i].1)) } else { arbitrary() },
    )
}

impl View for Value {
    type V = ValueView;

    open spec fn view(&self) -> ValueView {
        value_view(*self)
    }
}

impl View for Node {
    type V = NodeView;

    open spec fn view(&self) -> NodeView {
        node_view(*self)
    }
}

impl View for Edge {
    type V = EdgeView;

    open spec fn view(&self) -> EdgeView {
        edge_view(*self)
    }
}

impl View for PathValue {
    type V = PathValueView;

    open spec fn view(&self) -> PathValueView {
        path_value_view(*self)
    }
}

impl Value {
    /// A copy that says the same.
    pub fn dup(&self) -> (r: Value)
        ensures
            r@ == self@,
        decreases self,
    {
        match self {
            Value::Null => Value::Null,
            Value::Bool(a) => Value::Bool(*a),
            Value::I64(a) => Value::I64(*a),
            Value::F64(a) => Value::F64(*a),
            Value::String(a) => Value::String(a.clone()),
            Value::List(a) => Value::List(dup_values(a)),
            Value::MapValue(a) => Value::MapValue(AssocList { entries: dup_props(&a.entries) }),
            Value::Node(a) => Value::Node(a.dup()),
            Value::Edge(a) => Value::Edge(a.dup()),
            Value::Path(a) => Value::Path(a.dup()),
            Value::Date(a) => Value::Date(*a),
            Value::LocalTime(a) => Value::LocalTime(*a),
            Value::Time(a) => Value::Time(*a),
            Value::LocalDateTime(a) => Value::LocalDateTime(*a),
            Value::DateTime(a) => Value::DateTime(*a),
            Value::Duration(a) => Value::Duration(*a),
        }
    }
}

impl Node {
    /// A copy that says the same.
    pub fn dup(&self) -> (r: Node)
        ensures
            r@ == self@,
        decreases self,
    {
        Node {
            id: self.id,
            labels: dup_texts(&self.labels),
            properties: AssocList { entries: dup_props(&self.properties.entries) },
        }
    }
}

impl Edge {
    /// A copy that says the same.
    pub fn dup(&self) -> (r: Edge)
        ensures
            r@ == self@,
        decreases self,
    {
        Edge {
            src: self.src,
            dst: self.dst,
            label: self.label.clone(),
            properties: AssocList { entries: dup_props(&self.properties.entries) },
        }
    }
}

impl PathValue {
    /// A copy that says the same.
    pub fn dup(&self) -> (r: PathValue)
        ensures
            r@ == self@,
        decreases self,
    {
        PathValue {
            nodes: dup_nodes(&self.nodes),
            edges: dup_edges(&self.edges),
        }
    }
}

/// A copy of the list that says the same.
pub fn dup_values(v: &Vec<Value>) -> (r: Vec<Value>)
    ensures
        values_view(r@) == values_view(v@),
    decreases v,
{
    let mut out: Vec<Value> = Vec::new();
    let mut i: usize = 0;
    while i < v.len()
        invariant
            i <= v.len(),
            out.len() == i,
            decreases_to!(v => v@),
            forall|j: int| 0 <= j < i ==> #[trigger] values_view(out@)[j] == values_view(v@)[j],
        decreases v.len() - i,
    {
        let x = v[i].dup();
        let ghost before = out@;
        out.push(x);
        proof {
            assert forall|j: int| 0 <= j < i + 1 implies #[trigger] values_view(out@)[j] == values_view(v@)[j] by {
                if j < i {
                    assert(out@[j] == before[j]);
                    assert(values_view(before)[j] == values_view(v@)[j]);
                }
            }
        }
        i = i + 1;
    }
    assert(values_view(out@) =~= values_view(v@));
    out
}

/// A copy of the list that says the same.
pub fn dup_nodes(v: &Vec<Node>) -> (r: Vec<Node>)
    ensures
        nodes_view(r@) == nodes_view(v@),
    decreases v,
{
    let mut out: Vec<Node> = Vec::new();
    let mut i: usize = 0;
    while i < v.len()
        invariant
            i <= v.len(),
            out.len() == i,
            decreases_to!(v => v@),
            forall|j: int| 0 <= j < i ==> #[trigger] nodes_view(out@)[j] == nodes_view(v@)[j],
        decreases v.len() - i,
    {
        let x = v[i].dup();
        let ghost before = out@;
        out.push(x);
        proof {
            assert forall|j: int| 0 <= j < i + 1 implies #[trigger] nodes_view(out@)[j] == nodes_view(v@)[j] by {
                if j < i {
                    assert(out@[j] == before[j]);
                    assert(nodes_view(before)[j] == nodes_view(v@)[j]);
                }
            }
        }
        i = i + 1;
    }
    assert(nodes_view(out@) =~= nodes_view(v@));
    out
}

/// A copy of the list that says the same.
pub fn dup_edges(v: &Vec<Edge>) -> (r: Vec<Edge>)
    ensures
        edges_view(r@) == edges_view(v@),
    decreases v,
{
    let mut out: Vec<Edge> = Vec::new();
    let mut i: usize = 0;
    while i < v.len()
        invariant
            i <= v.len(),
            out.len() == i,
            decreases_to!(v => v@),
            forall|j: int| 0 <= j < i ==> #[trigger] edges_view(out@)[j] == edges_view(v@)[j],
        decreases v.len() - i,
    {
        let x = v[i].dup();
        let ghost before = out@;
        out.push(x);
        proof {
            assert forall|j: int| 0 <= j < i + 1 implies #[trigger] edges_view(out@)[j] == edges_view(v@)[j] by {
                if j < i {
                    assert(out@[j] == before[j]);
                    assert(edges_view(before)[j] == edges_view(v@)[j]);
                }
            }
        }
        i = i + 1;
    }
    assert(edges_view(out@) =~= edges_view(v@));
    out
}

/// A copy of the list that says the same.
pub fn dup_props(v: &Vec<(String, Value)>) -> (r: Vec<(String, Value)>)
    ensures
        props_view(r@) == props_view(v@),
    decreases v,
{
    let mut out: Vec<(String, Value)> = Vec::new();
    let mut i: usize = 0;
    while i < v.len()
        invariant
            i <= v.len(),
            out.len() == i,
            decreases_to!(v => v@),
            forall|j: int| 0 <= j < i ==> #[trigger] props_view(out@)[j] == props_view(v@)[j],
        decreases v.len() - i,
    {
        let x = (v[i].0.clone(), v[i].1.dup());
        let ghost before = out@;
        out.push(x);
        proof {
            assert forall|j: int| 0 <= j < i + 1 implies #[trigger] props_view(out@)[j] == props_view(v@)[j] by {
                if j < i {
                    assert(out@[j] == before[j]);
                    assert(props_view(before)[j] == props_view(v@)[j]);
                }
            }
        }
        i = i + 1;
    }
    assert(props_view(out@) =~= props_view(v@));
    out
}

} // verus!
