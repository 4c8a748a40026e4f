//! Where rows come from: storage and expression evaluation, as the executor sees them.
//!
//! The executor asks a [`Source`] for what it cannot compute itself. Nothing is assumed of the
//! answers. What the executor promises of its results it promises for a source whose answers
//! depend on the question alone; such a source is described by a [`Model`].
use crate::assoc::AssocList;
use crate::ast::Expr;
use crate::ast_model;
use crate::ast_model::ExprView;
use crate::plan::{AggregateFunction, LogicalOp};
use crate::record::{NamedRecord, Row};
use crate::types;
use crate::types::{Direction, ErrorView, GraphError, NodeId};
use crate::value;
use crate::value::{Float, Node, NodeView, Value, ValueView};
use vstd::prelude::*;

verus! {

/// One step of a path: the relationship that was followed.
#[derive(Debug, PartialEq)]
pub struct Step {
    pub edge_src: NodeId,
    pub edge_dst: NodeId,
    pub edge_label: String,
    pub edge_seq: u64,
}

/// What a [`Step`] says.
pub struct StepView {
    pub edge_src: NodeId,
    pub edge_dst: NodeId,
    pub edge_label: Seq<char>,
    pub edge_seq: u64,
}

impl View for Step {
    type V = StepView;

    open spec fn view(&self) -> StepView {
        StepView {
            edge_src: self.edge_src,
            edge_dst: self.edge_dst,
            edge_label: self.edge_label@,
            edge_seq: self.edge_seq,
        }
    }
}

/// Which paths are wanted.
#[derive(Debug, PartialEq)]
pub struct PathRequest {
    pub src: NodeId,
    /// The types to follow; none means any, at each hop.
    pub labels: Vec<String>,
    pub direction: Direction,
    pub min_hops: u32,
    pub max_hops: u32,
    /// What each relationship must have.
    pub filters: AssocList<Value>,
    /// How many paths are enough.
    pub cap: Option<usize>,
    /// How many relationships may be visited.
    pub work: u64,
}

/// What a [`PathRequest`] says.
pub struct PathAsk {
    pub src: NodeId,
    pub labels: Seq<Seq<char>>,
    pub direction: Direction,
    pub min_hops: u32,
    pub max_hops: u32,
    pub filters: Row,
    pub cap: Option<usize>,
    pub work: u64,
}

impl View for PathRequest {
    type V = PathAsk;

    open spec fn view(&self) -> PathAsk {
        PathAsk {
            src: self.src,
            labels: ast_model::texts(self.labels@),
            direction: self.direction,
            min_hops: self.min_hops,
            max_hops: self.max_hops,
            filters: value::props_view(self.filters.entries@),
            cap: self.cap,
            work: self.work,
        }
    }
}

/// A procedure. One that is registered has its rows; a built-in one computes them.
#[derive(Debug, PartialEq)]
pub struct Procedure {
    pub builtin: bool,
    pub inputs: Vec<String>,
    pub rows: Vec<AssocList<Value>>,
}

/// What a [`Procedure`] says.
pub struct ProcedureView {
    pub builtin: bool,
    pub inputs: Seq<Seq<char>>,
    pub rows: Seq<Row>,
}

impl View for Procedure {
    type V = ProcedureView;

    open spec fn view(&self) -> ProcedureView {
        ProcedureView {
            builtin: self.builtin,
            inputs: ast_model::texts(self.inputs@),
            rows: table(self.rows@),
        }
    }
}

/// What a table of rows says.
pub open spec fn table(s: Seq<AssocList<Value>>) -> Seq<Row> {
    Seq::new(s.len(), |i: int| value::props_view(s[i].entries@))
}

/// What a list of steps says.
pub open spec fn steps(s: Seq<Step>) -> Seq<StepView> {
    Seq::new(s.len(), |i: int| s[i]@)
}

/// What the outcome of a test says.
pub open spec fn plain(r: Result<bool, GraphError>) -> Result<bool, ErrorView> {
    match r {
        Ok(b) => Ok(b),
        Err(e) => Err(e@),
    }
}

/// What an answer of nodes says.
pub open spec fn nodes_told(r: Result<Vec<Node>, GraphError>) -> Result<Seq<NodeView>, ErrorView> {
    match r {
        Ok(v) => Ok(value::nodes_view(v@)),
        Err(e) => Err(e@),
    }
}

/// What an answer of ids says.
pub open spec fn ids_told(r: Result<Vec<NodeId>, GraphError>) -> Result<Seq<NodeId>, ErrorView> {
    match r {
        Ok(v) => Ok(v@),
        Err(e) => Err(e@),
    }
}

/// What an answer of ranked nodes says.
pub open spec fn ranked_told(r: Result<Option<Vec<(NodeId, Float)>>, GraphError>) -> Result<
    Option<Seq<(NodeId, Float)>>,
    ErrorView,
> {
    match r {
        Ok(Some(v)) => Ok(Some(v@)),
        Ok(None) => Ok(None),
        Err(e) => Err(e@),
    }
}

/// What an answer of labels says.
pub open spec fn labels_told(r: Result<Vec<String>, GraphError>) -> Result<
    Seq<Seq<char>>,
    ErrorView,
> {
    match r {
        Ok(v) => Ok(ast_model::texts(v@)),
        Err(e) => Err(e@),
    }
}

/// What an answer of lists of texts says.
pub open spec fn lists_told(r: Result<Vec<Vec<String>>, GraphError>) -> Result<
    Seq<Seq<Seq<char>>>,
    ErrorView,
> {
    match r {
        Ok(v) => Ok(Seq::new(v@.len(), |i: int| ast_model::texts(v@[i]@))),
        Err(e) => Err(e@),
    }
}

/// What a list of path ends says.
pub open spec fn ends_with_steps(s: Seq<(NodeId, Vec<Step>)>) -> Seq<(NodeId, Seq<StepView>)> {
    Seq::new(s.len(), |i: int| (s[i].0, steps(s[i].1@)))
}

/// What an answer of paths says.
pub open spec fn paths_told(r: Result<Vec<(NodeId, Vec<Step>)>, GraphError>) -> Result<
    Seq<(NodeId, Seq<StepView>)>,
    ErrorView,
> {
    match r {
        Ok(v) => Ok(ends_with_steps(v@)),
        Err(e) => Err(e@),
    }
}

/// What an answer of properties says.
pub open spec fn props_told(r: Result<AssocList<Value>, GraphError>) -> Result<Row, ErrorView> {
    match r {
        Ok(v) => Ok(value::props_view(v.entries@)),
        Err(e) => Err(e@),
    }
}

/// What a list of numbered properties says.
pub open spec fn numbered(s: Seq<(u64, AssocList<Value>)>) -> Seq<(u64, Row)> {
    Seq::new(s.len(), |i: int| (s[i].0, value::props_view(s[i].1.entries@)))
}

/// What an answer of numbered properties says.
pub open spec fn numbered_told(r: Result<Vec<(u64, AssocList<Value>)>, GraphError>) -> Result<
    Seq<(u64, Row)>,
    ErrorView,
> {
    match r {
        Ok(v) => Ok(numbered(v@)),
        Err(e) => Err(e@),
    }
}

/// What an answer of one path says.
pub open spec fn way_told(r: Result<Option<Vec<NodeId>>, GraphError>) -> Result<
    Option<Seq<NodeId>>,
    ErrorView,
> {
    match r {
        Ok(Some(v)) => Ok(Some(v@)),
        Ok(None) => Ok(None),
        Err(e) => Err(e@),
    }
}

/// What a list of paths says.
pub open spec fn ways(s: Seq<Vec<NodeId>>) -> Seq<Seq<NodeId>> {
    Seq::new(s.len(), |i: int| s[i]@)
}

/// What an answer of several paths says.
pub open spec fn ways_told(r: Result<Vec<Vec<NodeId>>, GraphError>) -> Result<
    Seq<Seq<NodeId>>,
    ErrorView,
> {
    match r {
        Ok(v) => Ok(ways(v@)),
        Err(e) => Err(e@),
    }
}

/// What an answer of a procedure says.
pub open spec fn procedure_told(r: Option<Procedure>) -> Option<ProcedureView> {
    match r {
        Some(p) => Some(p@),
        None => None,
    }
}

/// What an answer of a table says.
pub open spec fn table_told(r: Result<Vec<AssocList<Value>>, GraphError>) -> Result<
    Seq<Row>,
    ErrorView,
> {
    match r {
        Ok(v) => Ok(table(v@)),
        Err(e) => Err(e@),
    }
}

/// What the executor asks of storage and of expression evaluation.
pub trait Source {
    /// The value of an expression on a row.
    fn eval(&self, e: &Expr, rec: &NamedRecord) -> Result<Value, GraphError>;

    /// Whether a predicate holds on a row.
    fn holds(&self, e: &Expr, rec: &NamedRecord) -> Result<bool, GraphError>;

    /// The name of the column that an expression gives.
    fn column_name(&self, e: &Expr) -> String;

    /// An expression spelled out for a column that has no other name.
    fn spelled(&self, e: &Expr) -> String;

    /// A value as text, for messages.
    fn show(&self, v: &Value) -> String;

    /// A value spelled out in full, for messages.
    fn inspect(&self, v: &Value) -> String;

    /// The number that decimal digits stand for.
    fn decimal(&self, digits: &String) -> Float;

    /// A floating point aggregate over numbers; `share` is the percentile asked for.
    fn combine(&self, f: AggregateFunction, numbers: &Vec<Float>, share: Float) -> Float;

    /// The nodes with a label; all nodes for the empty label.
    fn nodes_by_label(&self, label: &str) -> Result<Vec<Node>, GraphError>;

    /// The node with an id.
    fn node(&self, id: NodeId) -> Result<Node, GraphError>;

    /// The nodes that an index over the properties gives for some values.
    fn index_ids(&self, label: &str, properties: &Vec<String>, keys: &Vec<(String, Value)>) -> Result<Vec<NodeId>, GraphError>;

    /// The nodes that a full-text index gives for a term, with their ranks; nothing where the term is too short for the index.
    fn fulltext(&self, label: &str, property: &str, term: &str) -> Result<Option<Vec<(NodeId, Float)>>, GraphError>;

    /// The types of the relationships at a node.
    fn edge_labels(&self, id: NodeId, direction: Direction) -> Result<Vec<String>, GraphError>;

    /// The nodes one relationship of a type away.
    fn neighbors(&self, id: NodeId, label: &str, direction: Direction) -> Result<Vec<NodeId>, GraphError>;

    /// The nodes some relationships of a type away.
    fn traverse(&self, id: NodeId, label: &str, direction: Direction, min_hops: u32, max_hops: u32) -> Result<Vec<NodeId>, GraphError>;

    /// The ends of the paths that leave a node, with their steps.
    fn paths(&self, ask: &PathRequest) -> Result<Vec<(NodeId, Vec<Step>)>, GraphError>;

    /// Whether there is a relationship of a type.
    fn edge_exists(&self, src: NodeId, dst: NodeId, label: &str) -> Result<bool, GraphError>;

    /// The properties of a relationship.
    fn edge_properties(&self, src: NodeId, dst: NodeId, label: &str) -> Result<AssocList<Value>, GraphError>;

    /// The properties of one of several relationships of a type.
    fn edge_properties_at(&self, src: NodeId, dst: NodeId, label: &str, seq: u64) -> Result<AssocList<Value>, GraphError>;

    /// The numbers and properties of all relationships of a type.
    fn all_edge_props(&self, src: NodeId, dst: NodeId, label: &str) -> Result<Vec<(u64, AssocList<Value>)>, GraphError>;

    /// The nodes of a shortest path.
    fn shortest_path(&self, src: NodeId, dst: NodeId, label: &str, direction: Direction, max_hops: u32) -> Result<Option<Vec<NodeId>>, GraphError>;

    /// The nodes of all shortest paths.
    fn all_shortest_paths(&self, src: NodeId, dst: NodeId, label: &str, direction: Direction, max_hops: u32) -> Result<Vec<Vec<NodeId>>, GraphError>;

    /// The procedure with a name.
    fn procedure(&self, name: &str) -> Option<Procedure>;

    /// The rows that a built-in procedure gives for some arguments.
    fn builtin_rows(&self, name: &str, args: &Vec<Value>) -> Result<Vec<AssocList<Value>>, GraphError>;

    /// The names of the slots that the rows of an operator have in a plan: what the operator binds,
    /// as far as the plan as a whole reads it.
    fn slots(&self, whole: &LogicalOp, op: &LogicalOp) -> Vec<String>;

    /// The properties of each index on a label.
    fn indexes(&self, label: &str) -> Result<Vec<Vec<String>>, GraphError>;

}

/// The answers of a source, where they depend on the question alone.
pub struct Model {
    pub eval: spec_fn(ExprView, Row) -> Result<ValueView, ErrorView>,
    pub holds: spec_fn(ExprView, Row) -> Result<bool, ErrorView>,
    pub column_name: spec_fn(ExprView) -> Seq<char>,
    pub spelled: spec_fn(ExprView) -> Seq<char>,
    pub show: spec_fn(ValueView) -> Seq<char>,
    pub inspect: spec_fn(ValueView) -> Seq<char>,
    pub decimal: spec_fn(Seq<char>) -> Float,
    pub combine: spec_fn(AggregateFunction, Seq<Float>, Float) -> Float,
    pub nodes_by_label: spec_fn(Seq<char>) -> Result<Seq<NodeView>, ErrorView>,
    pub node: spec_fn(NodeId) -> Result<NodeView, ErrorView>,
    pub index_ids: spec_fn(Seq<char>, Seq<Seq<char>>, Row) -> Result<Seq<NodeId>, ErrorView>,
    pub fulltext: spec_fn(Seq<char>, Seq<char>, Seq<char>) -> Result<Option<Seq<(NodeId, Float)>>, ErrorView>,
    pub edge_labels: spec_fn(NodeId, Direction) -> Result<Seq<Seq<char>>, ErrorView>,
    pub neighbors: spec_fn(NodeId, Seq<char>, Direction) -> Result<Seq<NodeId>, ErrorView>,
    pub traverse: spec_fn(NodeId, Seq<char>, Direction, u32, u32) -> Result<Seq<NodeId>, ErrorView>,
    pub paths: spec_fn(PathAsk) -> Result<Seq<(NodeId, Seq<StepView>)>, ErrorView>,
    pub edge_exists: spec_fn(NodeId, NodeId, Seq<char>) -> Result<bool, ErrorView>,
    pub edge_properties: spec_fn(NodeId, NodeId, Seq<char>) -> Result<Row, ErrorView>,
    pub edge_properties_at: spec_fn(NodeId, NodeId, Seq<char>, u64) -> Result<Row, ErrorView>,
    pub all_edge_props: spec_fn(NodeId, NodeId, Seq<char>) -> Result<Seq<(u64, Row)>, ErrorView>,
    pub shortest_path: spec_fn(NodeId, NodeId, Seq<char>, Direction, u32) -> Result<Option<Seq<NodeId>>, ErrorView>,
    pub all_shortest_paths: spec_fn(NodeId, NodeId, Seq<char>, Direction, u32) -> Result<Seq<Seq<NodeId>>, ErrorView>,
    pub procedure: spec_fn(Seq<char>) -> Option<ProcedureView>,
    pub builtin_rows: spec_fn(Seq<char>, Seq<ValueView>) -> Result<Seq<Row>, ErrorView>,
    pub slots: spec_fn(LogicalOp, LogicalOp) -> Seq<Seq<char>>,
    pub indexes: spec_fn(Seq<char>) -> Result<Seq<Seq<Seq<char>>>, ErrorView>,
}

/// The source gives the answers of the model to `eval`.
pub open spec fn obeys_eval<S: Source>(s: S, m: Model) -> bool {
    forall|e: &Expr, rec: &NamedRecord, r: Result<Value, GraphError>| #[trigger]
        call_ensures(S::eval, (&s, e, rec), r) ==> types::outcome(r) == (m.eval)(e@, rec@)
}

/// The source gives the answers of the model to `holds`.
pub open spec fn obeys_holds<S: Source>(s: S, m: Model) -> bool {
    forall|e: &Expr, rec: &NamedRecord, r: Result<bool, GraphError>| #[trigger]
        call_ensures(S::holds, (&s, e, rec), r) ==> plain(r) == (m.holds)(e@, rec@)
}

/// The source gives the answers of the model to `column_name`.
pub open spec fn obeys_column_name<S: Source>(s: S, m: Model) -> bool {
    forall|e: &Expr, r: String| #[trigger]
        call_ensures(S::column_name, (&s, e), r) ==> r@ == (m.column_name)(e@)
}

/// The source gives the answers of the model to `spelled`.
pub open spec fn obeys_spelled<S: Source>(s: S, m: Model) -> bool {
    forall|e: &Expr, r: String| #[trigger]
        call_ensures(S::spelled, (&s, e), r) ==> r@ == (m.spelled)(e@)
}

/// The source gives the answers of the model to `show`.
pub open spec fn obeys_show<S: Source>(s: S, m: Model) -> bool {
    forall|v: &Value, r: String| #[trigger]
        call_ensures(S::show, (&s, v), r) ==> r@ == (m.show)(v@)
}

/// The source gives the answers of the model to `inspect`.
pub open spec fn obeys_inspect<S: Source>(s: S, m: Model) -> bool {
    forall|v: &Value, r: String| #[trigger]
        call_ensures(S::inspect, (&s, v), r) ==> r@ == (m.inspect)(v@)
}

/// The source gives the answers of the model to `decimal`.
pub open spec fn obeys_decimal<S: Source>(s: S, m: Model) -> bool {
    forall|digits: &String, r: Float| #[trigger]
        call_ensures(S::decimal, (&s, digits), r) ==> r == (m.decimal)(digits@)
}

/// The source gives the answers of the model to `combine`.
pub open spec fn obeys_combine<S: Source>(s: S, m: Model) -> bool {
    forall|f: AggregateFunction, numbers: &Vec<Float>, share: Float, r: Float| #[trigger]
        call_ensures(S::combine, (&s, f, numbers, share), r) ==> r == (m.combine)(f, numbers@, share)
}

/// The source gives the answers of the model to `nodes_by_label`.
pub open spec fn obeys_nodes_by_label<S: Source>(s: S, m: Model) -> bool {
    forall|label: &str, r: Result<Vec<Node>, GraphError>| #[trigger]
        call_ensures(S::nodes_by_label, (&s, label), r) ==> nodes_told(r) == (m.nodes_by_label)(label@)
}

/// The source gives the answers of the model to `node`.
pub open spec fn obeys_node<S: Source>(s: S, m: Model) -> bool {
    forall|id: NodeId, r: Result<Node, GraphError>| #[trigger]
        call_ensures(S::node, (&s, id), r) ==> types::outcome(r) == (m.node)(id)
}

/// The source gives the answers of the model to `index_ids`.
pub open spec fn obeys_index_ids<S: Source>(s: S, m: Model) -> bool {
    forall|label: &str, properties: &Vec<String>, keys: &Vec<(String, Value)>, r: Result<Vec<NodeId>, GraphError>| #[trigger]
        call_ensures(S::index_ids, (&s, label, properties, keys), r) ==> ids_told(r) == (m.index_ids)(label@, ast_model::texts(properties@), value::props_view(keys@))
}

/// The source gives the answers of the model to `fulltext`.
pub open spec fn obeys_fulltext<S: Source>(s: S, m: Model) -> bool {
    forall|label: &str, property: &str, term: &str, r: Result<Option<Vec<(NodeId, Float)>>, GraphError>| #[trigger]
        call_ensures(S::fulltext, (&s, label, property, term), r) ==> ranked_told(r) == (m.fulltext)(label@, property@, term@)
}

/// The source gives the answers of the model to `edge_labels`.
pub open spec fn obeys_edge_labels<S: Source>(s: S, m: Model) -> bool {
    forall|id: NodeId, direction: Direction, r: Result<Vec<String>, GraphError>| #[trigger]
        call_ensures(S::edge_labels, (&s, id, direction), r) ==> labels_told(r) == (m.edge_labels)(id, direction)
}

/// The source gives the answers of the model to `neighbors`.
pub open spec fn obeys_neighbors<S: Source>(s: S, m: Model) -> bool {
    forall|id: NodeId, label: &str, direction: Direction, r: Result<Vec<NodeId>, GraphError>| #[trigger]
        call_ensures(S::neighbors, (&s, id, label, direction), r) ==> ids_told(r) == (m.neighbors)(id, label@, direction)
}

/// The source gives the answers of the model to `traverse`.
pub open spec fn obeys_traverse<S: Source>(s: S, m: Model) -> bool {
    forall|id: NodeId, label: &str, direction: Direction, min_hops: u32, max_hops: u32, r: Result<Vec<NodeId>, GraphError>| #[trigger]
        call_ensures(S::traverse, (&s, id, label, direction, min_hops, max_hops), r) ==> ids_told(r) == (m.traverse)(id, label@, direction, min_hops, max_hops)
}

/// The source gives the answers of the model to `paths`.
pub open spec fn obeys_paths<S: Source>(s: S, m: Model) -> bool {
    forall|ask: &PathRequest, r: Result<Vec<(NodeId, Vec<Step>)>, GraphError>| #[trigger]
        call_ensures(S::paths, (&s, ask), r) ==> paths_told(r) == (m.paths)(ask@)
}

/// The source gives the answers of the model to `edge_exists`.
pub open spec fn obeys_edge_exists<S: Source>(s: S, m: Model) -> bool {
    forall|src: NodeId, dst: NodeId, label: &str, r: Result<bool, GraphError>| #[trigger]
        call_ensures(S::edge_exists, (&s, src, dst, label), r) ==> plain(r) == (m.edge_exists)(src, dst, label@)
}

/// The source gives the answers of the model to `edge_properties`.
pub open spec fn obeys_edge_properties<S: Source>(s: S, m: Model) -> bool {
    forall|src: NodeId, dst: NodeId, label: &str, r: Result<AssocList<Value>, GraphError>| #[trigger]
        call_ensures(S::edge_properties, (&s, src, dst, label), r) ==> props_told(r) == (m.edge_properties)(src, dst, label@)
}

/// The source gives the answers of the model to `edge_properties_at`.
pub open spec fn obeys_edge_properties_at<S: Source>(s: S, m: Model) -> bool {
    forall|src: NodeId, dst: NodeId, label: &str, seq: u64, r: Result<AssocList<Value>, GraphError>| #[trigger]
        call_ensures(S::edge_properties_at, (&s, src, dst, label, seq), r) ==> props_told(r) == (m.edge_properties_at)(src, dst, label@, seq)
}

/// The source gives the answers of the model to `all_edge_props`.
pub open spec fn obeys_all_edge_props<S: Source>(s: S, m: Model) -> bool {
    forall|src: NodeId, dst: NodeId, label: &str, r: Result<Vec<(u64, AssocList<Value>)>, GraphError>| #[trigger]
        call_ensures(S::all_edge_props, (&s, src, dst, label), r) ==> numbered_told(r) == (m.all_edge_props)(src, dst, label@)
}

/// The source gives the answers of the model to `shortest_path`.
pub open spec fn obeys_shortest_path<S: Source>(s: S, m: Model) -> bool {
    forall|src: NodeId, dst: NodeId, label: &str, direction: Direction, max_hops: u32, r: Result<Option<Vec<NodeId>>, GraphError>| #[trigger]
        call_ensures(S::shortest_path, (&s, src, dst, label, direction, max_hops), r) ==> way_told(r) == (m.shortest_path)(src, dst, label@, direction, max_hops)
}

/// The source gives the answers of the model to `all_shortest_paths`.
pub open spec fn obeys_all_shortest_paths<S: Source>(s: S, m: Model) -> bool {
    forall|src: NodeId, dst: NodeId, label: &str, direction: Direction, max_hops: u32, r: Result<Vec<Vec<NodeId>>, GraphError>| #[trigger]
        call_ensures(S::all_shortest_paths, (&s, src, dst, label, direction, max_hops), r) ==> ways_told(r) == (m.all_shortest_paths)(src, dst, label@, direction, max_hops)
}

/// The source gives the answers of the model to `procedure`.
pub open spec fn obeys_procedure<S: Source>(s: S, m: Model) -> bool {
    forall|name: &str, r: Option<Procedure>| #[trigger]
        call_ensures(S::procedure, (&s, name), r) ==> procedure_told(r) == (m.procedure)(name@)
}

/// The source gives the answers of the model to `builtin_rows`.
pub open spec fn obeys_builtin_rows<S: Source>(s: S, m: Model) -> bool {
    forall|name: &str, args: &Vec<Value>, r: Result<Vec<AssocList<Value>>, GraphError>| #[trigger]
        call_ensures(S::builtin_rows, (&s, name, args), r) ==> table_told(r) == (m.builtin_rows)(name@, value::values_view(args@))
}

/// The source gives the answers of the model to `slots`.
pub open spec fn obeys_slots<S: Source>(s: S, m: Model) -> bool {
    forall|whole: &LogicalOp, op: &LogicalOp, r: Vec<String>| #[trigger]
        call_ensures(S::slots, (&s, whole, op), r) ==> ast_model::texts(r@) == (m.slots)(*whole, *op)
}

/// The source gives the answers of the model to `indexes`.
pub open spec fn obeys_indexes<S: Source>(s: S, m: Model) -> bool {
    forall|label: &str, r: Result<Vec<Vec<String>>, GraphError>| #[trigger]
        call_ensures(S::indexes, (&s, label), r) ==> lists_told(r) == (m.indexes)(label@)
}

/// The source gives the answers of the model.
pub open spec fn obeys<S: Source>(s: S, m: Model) -> bool {
    &&& obeys_eval(s, m)
    &&& obeys_holds(s, m)
    &&& obeys_column_name(s, m)
    &&& obeys_spelled(s, m)
    &&& obeys_show(s, m)
    &&& obeys_inspect(s, m)
    &&& obeys_decimal(s, m)
    &&& obeys_combine(s, m)
    &&& obeys_nodes_by_label(s, m)
    &&& obeys_node(s, m)
    &&& obeys_index_ids(s, m)
    &&& obeys_fulltext(s, m)
    &&& obeys_edge_labels(s, m)
    &&& obeys_neighbors(s, m)
    &&& obeys_traverse(s, m)
    &&& obeys_paths(s, m)
    &&& obeys_edge_exists(s, m)
    &&& obeys_edge_properties(s, m)
    &&& obeys_edge_properties_at(s, m)
    &&& obeys_all_edge_props(s, m)
    &&& obeys_shortest_path(s, m)
    &&& obeys_all_shortest_paths(s, m)
    &&& obeys_procedure(s, m)
    &&& obeys_builtin_rows(s, m)
    &&& obeys_slots(s, m)
    &&& obeys_indexes(s, m)
}

/// The answers of the source depend on the question alone.
pub closed spec fn steady<S: Source>(s: S) -> bool {
    exists|m: Model| obeys(s, m)
}

/// The answers of a source whose answers depend on the question alone.
pub closed spec fn model<S: Source>(s: S) -> Model {
    choose|m: Model| obeys(s, m)
}

/// A source that gives the answers of a model is steady, and gives the answers of its own.
pub proof fn modelled_means_steady<S: Source>(s: S, m: Model)
    requires
        obeys(s, m),
    ensures
        steady(s),
        obeys(s, model(s)),
{
}

/// The value of an expression on a row.
pub fn ask_eval<S: Source>(db: &S, e: &Expr, rec: &NamedRecord) -> (r: Result<Value, GraphError>)
    ensures
        steady(*db) ==> types::outcome(r) == (model(*db).eval)(e@, rec@),
{
    db.eval(e, rec)
}

/// Whether a predicate holds on a row.
pub fn ask_holds<S: Source>(db: &S, e: &Expr, rec: &NamedRecord) -> (r: Result<bool, GraphError>)
    ensures
        steady(*db) ==> plain(r) == (model(*db).holds)(e@, rec@),
{
    db.holds(e, rec)
}

/// The name of the column that an expression gives.
pub fn ask_column_name<S: Source>(db: &S, e: &Expr) -> (r: String)
    ensures
        steady(*db) ==> r@ == (model(*db).column_name)(e@),
{
    db.column_name(e)
}

/// An expression spelled out for a column that has no other name.
pub fn ask_spelled<S: Source>(db: &S, e: &Expr) -> (r: String)
    ensures
        steady(*db) ==> r@ == (model(*db).spelled)(e@),
{
    db.spelled(e)
}

/// A value as text, for messages.
pub fn ask_show<S: Source>(db: &S, v: &Value) -> (r: String)
    ensures
        steady(*db) ==> r@ == (model(*db).show)(v@),
{
    db.show(v)
}

/// A value spelled out in full, for messages.
pub fn ask_inspect<S: Source>(db: &S, v: &Value) -> (r: String)
    ensures
        steady(*db) ==> r@ == (model(*db).inspect)(v@),
{
    db.inspect(v)
}

/// The number that decimal digits stand for.
pub fn ask_decimal<S: Source>(db: &S, digits: &String) -> (r: Float)
    ensures
        steady(*db) ==> r == (model(*db).decimal)(digits@),
{
    db.decimal(digits)
}

/// A floating point aggregate over numbers; `share` is the percentile asked for.
pub fn ask_combine<S: Source>(db: &S, f: AggregateFunction, numbers: &Vec<Float>, share: Float) -> (r: Float)
    ensures
        steady(*db) ==> r == (model(*db).combine)(f, numbers@, share),
{
    db.combine(f, numbers, share)
}

/// The nodes with a label; all nodes for the empty label.
pub fn ask_nodes_by_label<S: Source>(db: &S, label: &str) -> (r: Result<Vec<Node>, GraphError>)
    ensures
        steady(*db) ==> nodes_told(r) == (model(*db).nodes_by_label)(label@),
{
    db.nodes_by_label(label)
}

/// The node with an id.
pub fn ask_node<S: Source>(db: &S, id: NodeId) -> (r: Result<Node, GraphError>)
    ensures
        steady(*db) ==> types::outcome(r) == (model(*db).node)(id),
{
    db.node(id)
}

/// The nodes that an index over the properties gives for some values.
pub fn ask_index_ids<S: Source>(db: &S, label: &str, properties: &Vec<String>, keys: &Vec<(String, Value)>) -> (r: Result<Vec<NodeId>, GraphError>)
    ensures
        steady(*db) ==> ids_told(r) == (model(*db).index_ids)(label@, ast_model::texts(properties@), value::props_view(keys@)),
{
    db.index_ids(label, properties, keys)
}

/// The nodes that a full-text index gives for a term, with their ranks; nothing where the term is too short for the index.
pub fn ask_fulltext<S: Source>(db: &S, label: &str, property: &str, term: &str) -> (r: Result<Option<Vec<(NodeId, Float)>>, GraphError>)
    ensures
        steady(*db) ==> ranked_told(r) == (model(*db).fulltext)(label@, property@, term@),
{
    db.fulltext(label, property, term)
}

/// The types of the relationships at a node.
pub fn ask_edge_labels<S: Source>(db: &S, id: NodeId, direction: Direction) -> (r: Result<Vec<String>, GraphError>)
    ensures
        steady(*db) ==> labels_told(r) == (model(*db).edge_labels)(id, direction),
{
    db.edge_labels(id, direction)
}

/// The nodes one relationship of a type away.
pub fn ask_neighbors<S: Source>(db: &S, id: NodeId, label: &str, direction: Direction) -> (r: Result<Vec<NodeId>, GraphError>)
    ensures
        steady(*db) ==> ids_told(r) == (model(*db).neighbors)(id, label@, direction),
{
    db.neighbors(id, label, direction)
}

/// The nodes some relationships of a type away.
pub fn ask_traverse<S: Source>(db: &S, id: NodeId, label: &str, direction: Direction, min_hops: u32, max_hops: u32) -> (r: Result<Vec<NodeId>, GraphError>)
    ensures
        steady(*db) ==> ids_told(r) == (model(*db).traverse)(id, label@, direction, min_hops, max_hops),
{
    db.traverse(id, label, direction, min_hops, max_hops)
}

/// The ends of the paths that leave a node, with their steps.
pub fn ask_paths<S: Source>(db: &S, ask: &PathRequest) -> (r: Result<Vec<(NodeId, Vec<Step>)>, GraphError>)
    ensures
        steady(*db) ==> paths_told(r) == (model(*db).paths)(ask@),
{
    db.paths(ask)
}

/// Whether there is a relationship of a type.
pub fn ask_edge_exists<S: Source>(db: &S, src: NodeId, dst: NodeId, label: &str) -> (r: Result<bool, GraphError>)
    ensures
        steady(*db) ==> plain(r) == (model(*db).edge_exists)(src, dst, label@),
{
    db.edge_exists(src, dst, label)
}

/// The properties of a relationship.
pub fn ask_edge_properties<S: Source>(db: &S, src: NodeId, dst: NodeId, label: &str) -> (r: Result<AssocList<Value>, GraphError>)
    ensures
        steady(*db) ==> props_told(r) == (model(*db).edge_properties)(src, dst, label@),
{
    db.edge_properties(src, dst, label)
}

/// The properties of one of several relationships of a type.
pub fn ask_edge_properties_at<S: Source>(db: &S, src: NodeId, dst: NodeId, label: &str, seq: u64) -> (r: Result<AssocList<Value>, GraphError>)
    ensures
        steady(*db) ==> props_told(r) == (model(*db).edge_properties_at)(src, dst, label@, seq),
{
    db.edge_properties_at(src, dst, label, seq)
}

/// The numbers and properties of all relationships of a type.
pub fn ask_all_edge_props<S: Source>(db: &S, src: NodeId, dst: NodeId, label: &str) -> (r: Result<Vec<(u64, AssocList<Value>)>, GraphError>)
    ensures
        steady(*db) ==> numbered_told(r) == (model(*db).all_edge_props)(src, dst, label@),
{
    db.all_edge_props(src, dst, label)
}

/// The nodes of a shortest path.
pub fn ask_shortest_path<S: Source>(db: &S, src: NodeId, dst: NodeId, label: &str, direction: Direction, max_hops: u32) -> (r: Result<Option<Vec<NodeId>>, GraphError>)
    ensures
        steady(*db) ==> way_told(r) == (model(*db).shortest_path)(src, dst, label@, direction, max_hops),
{
    db.shortest_path(src, dst, label, direction, max_hops)
}

/// The nodes of all shortest paths.
pub fn ask_all_shortest_paths<S: Source>(db: &S, src: NodeId, dst: NodeId, label: &str, direction: Direction, max_hops: u32) -> (r: Result<Vec<Vec<NodeId>>, GraphError>)
    ensures
        steady(*db) ==> ways_told(r) == (model(*db).all_shortest_paths)(src, dst, label@, direction, max_hops),
{
    db.all_shortest_paths(src, dst, label, direction, max_hops)
}

/// The procedure with a name.
pub fn ask_procedure<S: Source>(db: &S, name: &str) -> (r: Option<Procedure>)
    ensures
        steady(*db) ==> procedure_told(r) == (model(*db).procedure)(name@),
{
    db.procedure(name)
}

/// The rows that a built-in procedure gives for some arguments.
pub fn ask_builtin_rows<S: Source>(db: &S, name: &str, args: &Vec<Value>) -> (r: Result<Vec<AssocList<Value>>, GraphError>)
    ensures
        steady(*db) ==> table_told(r) == (model(*db).builtin_rows)(name@, value::values_view(args@)),
{
    db.builtin_rows(name, args)
}

/// The names of the slots that the rows of an operator have in a plan: what the operator binds, as
/// far as the plan as a whole reads it.
pub fn ask_slots<S: Source>(db: &S, whole: &LogicalOp, op: &LogicalOp) -> (r: Vec<String>)
    ensures
        steady(*db) ==> ast_model::texts(r@) == (model(*db).slots)(*whole, *op),
{
    db.slots(whole, op)
}

/// The properties of each index on a label.
pub fn ask_indexes<S: Source>(db: &S, label: &str) -> (r: Result<Vec<Vec<String>>, GraphError>)
    ensures
        steady(*db) ==> lists_told(r) == (model(*db).indexes)(label@),
{
    db.indexes(label)
}

} // verus!
