//! What a write does, as far as it can be told before storage is touched: the changes to make,
//! and the row that the query goes on with once they are made.
use crate::assoc;
use crate::assoc::AssocList;
use crate::ast::{Expr, ExprKind};
use crate::ast_copy;
use crate::ast_model;
use crate::binding;
use crate::plan::LogicalOp;
use crate::record;
use crate::record::{NamedRecord, Row};
use crate::source;
use crate::source::{Model, Source};
use crate::text;
use crate::types;
use crate::types::{ErrorCode, ErrorKind, ErrorView, GraphError, NodeId, QueryPhase};
use crate::value;
use crate::value::{Edge, Node, Value, ValueView};
use vstd::prelude::*;

verus! {

/// A change to storage.
#[derive(Debug, PartialEq)]
pub enum Change {
    /// Creates a node, and enters it into the indexes.
    AddNode { labels: Vec<String>, properties: AssocList<Value> },
    /// Creates a relationship.
    AddEdge { src: NodeId, dst: NodeId, label: String, properties: AssocList<Value> },
    /// Sets a property of a node; null removes it.
    SetNodeProperty { id: NodeId, property: String, value: Value },
    /// Removes a property of a node.
    RemoveNodeProperty { id: NodeId, property: String },
    /// Replaces all properties of a node.
    SetNodeProperties { id: NodeId, properties: AssocList<Value> },
    /// Adds a label to a node.
    AddLabel { id: NodeId, label: String },
    /// Takes a label from a node.
    RemoveLabel { id: NodeId, label: String },
    /// Sets a property of a relationship; null removes it. Without a number it is the only one
    /// of its type between its ends.
    SetEdgeProperty {
        src: NodeId,
        dst: NodeId,
        label: String,
        seq: Option<u64>,
        property: String,
        value: Value,
    },
    /// Replaces all properties of a relationship.
    SetEdgeProperties {
        src: NodeId,
        dst: NodeId,
        label: String,
        seq: u64,
        properties: AssocList<Value>,
    },
    /// Brings the indexes of some labels up to date with changed properties of a node.
    Reindex { id: NodeId, labels: Vec<String>, old: AssocList<Value>, new: AssocList<Value> },
    /// Enters a node into the indexes of all its labels.
    RefreshIndexes { id: NodeId },
}

/// What a [`Change`] says.
pub enum ChangeView {
    AddNode { labels: Seq<Seq<char>>, properties: Row },
    AddEdge { src: NodeId, dst: NodeId, label: Seq<char>, properties: Row },
    SetNodeProperty { id: NodeId, property: Seq<char>, value: ValueView },
    RemoveNodeProperty { id: NodeId, property: Seq<char> },
    SetNodeProperties { id: NodeId, properties: Row },
    AddLabel { id: NodeId, label: Seq<char> },
    RemoveLabel { id: NodeId, label: Seq<char> },
    SetEdgeProperty {
        src: NodeId,
        dst: NodeId,
        label: Seq<char>,
        seq: Option<u64>,
        property: Seq<char>,
        value: ValueView,
    },
    SetEdgeProperties { src: NodeId, dst: NodeId, label: Seq<char>, seq: u64, properties: Row },
    Reindex { id: NodeId, labels: Seq<Seq<char>>, old: Row, new: Row },
    RefreshIndexes { id: NodeId },
}

impl View for Change {
    type V = ChangeView;

    open spec fn view(&self) -> ChangeView {
        match self {
            Change::AddNode { labels, properties } => ChangeView::AddNode {
                labels: ast_model::texts(labels@),
                properties: value::props_view(properties.entries@),
            },
            Change::AddEdge { src, dst, label, properties } => ChangeView::AddEdge {
                src: *src,
                dst: *dst,
                label: label@,
                properties: value::props_view(properties.entries@),
            },
            Change::SetNodeProperty { id, property, value } => ChangeView::SetNodeProperty {
                id: *id,
                property: property@,
                value: value@,
            },
            Change::RemoveNodeProperty { id, property } => ChangeView::RemoveNodeProperty {
                id: *id,
                property: property@,
            },
            Change::SetNodeProperties { id, properties } => ChangeView::SetNodeProperties {
                id: *id,
                properties: value::props_view(properties.entries@),
            },
            Change::AddLabel { id, label } => ChangeView::AddLabel { id: *id, label: label@ },
            Change::RemoveLabel { id, label } => ChangeView::RemoveLabel { id: *id, label: label@ },
            Change::SetEdgeProperty { src, dst, label, seq, property, value } =>
            ChangeView::SetEdgeProperty {
                src: *src,
                dst: *dst,
                label: label@,
                seq: *seq,
                property: property@,
                value: value@,
            },
            Change::SetEdgeProperties { src, dst, label, seq, properties } =>
            ChangeView::SetEdgeProperties {
                src: *src,
                dst: *dst,
                label: label@,
                seq: *seq,
                properties: value::props_view(properties.entries@),
            },
            Change::Reindex { id, labels, old, new } => ChangeView::Reindex {
                id: *id,
                labels: ast_model::texts(labels@),
                old: value::props_view(old.entries@),
                new: value::props_view(new.entries@),
            },
            Change::RefreshIndexes { id } => ChangeView::RefreshIndexes { id: *id },
        }
    }
}

/// What a list of changes says.
pub open spec fn changes_view(s: Seq<Change>) -> Seq<ChangeView> {
    Seq::new(s.len(), |i: int| s[i]@)
}

/// No changes.
pub fn no_changes() -> (r: Vec<Change>)
    ensures
        changes_view(r@) == Seq::<ChangeView>::empty(),
{
    let r: Vec<Change> = Vec::new();
    assert(changes_view(r@) =~= Seq::<ChangeView>::empty());
    r
}

/// A list with one change.
pub fn one_change(c: Change) -> (r: Vec<Change>)
    ensures
        changes_view(r@) == seq![c@],
{
    let mut r: Vec<Change> = Vec::new();
    r.push(c);
    assert(changes_view(r@) =~= seq![c@]);
    r
}

/// A list with two changes.
pub fn two_changes(a: Change, b: Change) -> (r: Vec<Change>)
    ensures
        changes_view(r@) == seq![a@, b@],
{
    let mut r: Vec<Change> = Vec::new();
    r.push(a);
    r.push(b);
    assert(changes_view(r@) =~= seq![a@, b@]);
    r
}

/// The changes to make, and the row to go on with once they are made.
#[derive(Debug, PartialEq)]
pub struct Planned {
    pub changes: Vec<Change>,
    pub row: NamedRecord,
}

/// What a [`Planned`] says.
pub struct PlannedView {
    pub changes: Seq<ChangeView>,
    pub row: Row,
}

impl View for Planned {
    type V = PlannedView;

    open spec fn view(&self) -> PlannedView {
        PlannedView { changes: changes_view(self.changes@), row: self.row@ }
    }
}

/// A plan that changes nothing.
pub open spec fn nothing(rec: Row) -> PlannedView {
    PlannedView { changes: Seq::empty(), row: rec }
}

/// A plan that changes nothing.
pub fn plan_nothing(rec: &NamedRecord) -> (r: Planned)
    ensures
        r@ == nothing(rec@),
{
    let changes: Vec<Change> = Vec::new();
    assert(changes_view(changes@) =~= Seq::<ChangeView>::empty());
    Planned { changes, row: rec.dup() }
}

/// The values of properties on a row. Null leaves a property out.
pub open spec fn evaluated(s: Seq<(String, Expr)>, rec: Row, m: Model) -> Result<Row, ErrorView>
    decreases s.len(),
{
    if s.len() == 0 {
        Ok(Row::empty())
    } else {
        match evaluated(s.drop_last(), rec, m) {
            Ok(p) => match (m.eval)(s.last().1@, rec) {
                Ok(v) => Ok(
                    if v is Null {
                        p
                    } else {
                        assoc::put(p, s.last().0@, v)
                    },
                ),
                Err(e) => Err(e),
            },
            Err(e) => Err(e),
        }
    }
}

/// The first property that fails decides.
proof fn lemma_evaluated_stops(s: Seq<(String, Expr)>, rec: Row, m: Model, i: int)
    requires
        0 <= i <= s.len(),
        evaluated(s.take(i), rec, m) is Err,
    ensures
        evaluated(s, rec, m) == evaluated(s.take(i), rec, m),
    decreases s.len(),
{
    if i < s.len() {
        assert(s.drop_last().take(i) =~= s.take(i));
        lemma_evaluated_stops(s.drop_last(), rec, m, i);
    } else {
        assert(s.take(i) =~= s);
    }
}

/// The values of properties on a row. Null leaves a property out.
pub fn evaluate_props<S: Source>(db: &S, properties: &AssocList<Expr>, rec: &NamedRecord) -> (r: Result<
    NamedRecord,
    GraphError,
>)
    ensures
        source::steady(*db) ==> types::outcome(r) == evaluated(
            properties.entries@,
            rec@,
            source::model(*db),
        ),
{
    let ghost m = source::model(*db);
    let entries = &properties.entries;
    let ghost s = entries@;
    let mut p = NamedRecord::new();
    let mut i: usize = 0;
    assert(s.take(0) =~= Seq::<(String, Expr)>::empty());
    while i < entries.len()
        invariant
            i <= entries.len(),
            s == entries@,
            s == properties.entries@,
            m == source::model(*db),
            source::steady(*db) ==> evaluated(s.take(i as int), rec@, m) == Ok::<Row, ErrorView>(
                p@,
            ),
        decreases entries.len() - i,
    {
        assert(s.take(i + 1).drop_last() =~= s.take(i as int));
        assert(s.take(i + 1).last() == s[i as int]);
        match source::ask_eval(db, &entries[i].1, rec) {
            Ok(Value::Null) => {},
            Ok(v) => {
                p.set(entries[i].0.clone(), v);
            },
            Err(e) => {
                proof {
                    if source::steady(*db) {
                        lemma_evaluated_stops(s, rec@, m, i + 1);
                    }
                }
                return Err(e);
            },
        }
        i = i + 1;
    }
    assert(s.take(s.len() as int) =~= s);
    Ok(p)
}

/// The row with a node that was just created or found bound to a variable: its id and its
/// properties, without its labels.
pub open spec fn node_bound(rec: Row, alias: Seq<char>, id: NodeId, props: Row) -> Row {
    let named = assoc::put(rec, alias, binding::id_view(id));
    let numbered = assoc::put(named, text::dotted(alias, "__id"@), binding::id_view(id));
    record::put_all(numbered, record::fields_of(alias, props))
}

/// Binds a node that was just created or found to a variable.
pub fn bind_node(rec: &mut NamedRecord, alias: &str, id: NodeId, props: &AssocList<Value>)
    ensures
        final(rec)@ == node_bound(old(rec)@, alias@, id, value::props_view(props.entries@)),
{
    rec.set(text::owned(alias), binding::id_value(id));
    rec.set(text::field(alias, "__id"), binding::id_value(id));
    rec.set_fields(alias, &props.entries);
}

/// What variables are bound to nodes.
pub type Bindings = Seq<(Seq<char>, NodeId)>;

/// What a list of bindings says.
pub open spec fn bindings_view(s: Seq<(String, NodeId)>) -> Bindings {
    Seq::new(s.len(), |i: int| (s[i].0@, s[i].1))
}

/// The node that a variable is bound to: the last one.
pub open spec fn bound(s: Bindings, var: Seq<char>) -> Option<NodeId>
    decreases s.len(),
{
    if s.len() == 0 {
        None
    } else if s.last().0 == var {
        Some(s.last().1)
    } else {
        bound(s.drop_last(), var)
    }
}

/// The node that a variable is bound to.
fn find_bound(v: &Vec<(String, NodeId)>, var: &str) -> (r: Option<NodeId>)
    ensures
        r == bound(bindings_view(v@), var@),
{
    let ghost s = bindings_view(v@);
    let mut i = v.len();
    assert(s.take(s.len() as int) =~= s);
    while i > 0
        invariant
            i <= v.len(),
            s == bindings_view(v@),
            bound(s, var@) == bound(s.take(i as int), var@),
        decreases i,
    {
        assert(s.take(i as int).last() == s[i - 1]);
        assert(s.take(i as int).drop_last() =~= s.take(i - 1));
        if text::same_str(v[i - 1].0.as_str(), var) {
            return Some(v[i - 1].1);
        }
        i = i - 1;
    }
    None
}

/// A row in which things are created, and the variables bound to nodes in it.
#[derive(Debug, PartialEq)]
pub struct Creation {
    pub bindings: Vec<(String, NodeId)>,
    pub row: NamedRecord,
}

/// What a [`Creation`] says.
pub struct CreationView {
    pub bindings: Bindings,
    pub row: Row,
}

impl View for Creation {
    type V = CreationView;

    open spec fn view(&self) -> CreationView {
        CreationView { bindings: bindings_view(self.bindings@), row: self.row@ }
    }
}

/// The bindings in the first `n` fields of a row: the variables that hold a node id.
pub open spec fn seeded(rec: Row, n: int) -> Bindings
    decreases n,
{
    if n <= 0 {
        Seq::empty()
    } else {
        let so_far = seeded(rec, n - 1);
        match rec[n - 1].1 {
            ValueView::I64(id) if !text::holds_part(rec[n - 1].0, "."@) => so_far.push(
                (rec[n - 1].0, NodeId(id as u64)),
            ),
            _ => so_far,
        }
    }
}

impl Creation {
    /// Nothing is bound yet.
    pub fn fresh() -> (r: Creation)
        ensures
            r@ == (CreationView { bindings: Seq::empty(), row: Row::empty() }),
    {
        let bindings: Vec<(String, NodeId)> = Vec::new();
        assert(bindings_view(bindings@) =~= Bindings::empty());
        Creation { bindings, row: NamedRecord::new() }
    }

    /// The variables of a row are bound.
    pub fn on_row(rec: &NamedRecord) -> (r: Creation)
        ensures
            r@ == (CreationView { bindings: seeded(rec@, rec@.len() as int), row: rec@ }),
    {
        let entries = &rec.fields.entries;
        let mut bindings: Vec<(String, NodeId)> = Vec::new();
        let mut i: usize = 0;
        assert(bindings_view(bindings@) =~= Bindings::empty());
        while i < entries.len()
            invariant
                i <= entries.len(),
                entries@ == rec.fields.entries@,
                bindings_view(bindings@) == seeded(rec@, i as int),
            decreases entries.len() - i,
        {
            let ghost before = bindings_view(bindings@);
            assert(rec@[i as int] == (entries@[i as int].0@, entries@[i as int].1@));
            if !text::contains(entries[i].0.as_str(), ".") {
                match &entries[i].1 {
                    Value::I64(id) => {
                        bindings.push((entries[i].0.clone(), NodeId(*id as u64)));
                        assert(bindings_view(bindings@) =~= before.push(
                            (entries@[i as int].0@, NodeId(*id as u64)),
                        ));
                    },
                    _ => {},
                }
            }
            i = i + 1;
        }
        Creation { bindings, row: rec.dup() }
    }
}

/// A variable that is bound to no node.
pub open spec fn unbound(var: Seq<char>) -> ErrorView {
    types::semantic_error(ErrorCode::Other, "unbound variable: "@ + var)
}

/// A variable that is bound to no node.
fn unbound_error(var: &str) -> (r: GraphError)
    ensures
        r@ == unbound(var@),
{
    GraphError::semantic(ErrorCode::Other, text::cat("unbound variable: ", var))
}

/// What an operator creates. `from` is the row that properties are computed on. With
/// `keep_bound`, a node whose variable is bound already is not created again.
pub open spec fn creation(
    op: LogicalOp,
    c: CreationView,
    from: Row,
    keep_bound: bool,
    m: Model,
) -> Result<Option<ChangeView>, ErrorView> {
    match op {
        LogicalOp::CreateNode { labels, alias, properties } => {
            let there = match alias {
                Some(a) => keep_bound && bound(c.bindings, a@) is Some,
                None => false,
            };
            if there {
                Ok(None)
            } else {
                match evaluated(properties.entries@, from, m) {
                    Ok(props) => Ok(
                        Some(
                            ChangeView::AddNode {
                                labels: ast_model::texts(labels@),
                                properties: props,
                            },
                        ),
                    ),
                    Err(e) => Err(e),
                }
            }
        },
        LogicalOp::CreateEdge { src_alias, dst_alias, edge_type, properties, .. } => match bound(
            c.bindings,
            src_alias@,
        ) {
            None => Err(unbound(src_alias@)),
            Some(src) => match bound(c.bindings, dst_alias@) {
                None => Err(unbound(dst_alias@)),
                Some(dst) => match evaluated(properties.entries@, from, m) {
                    Ok(props) => Ok(
                        Some(
                            ChangeView::AddEdge {
                                src,
                                dst,
                                label: edge_type@,
                                properties: props,
                            },
                        ),
                    ),
                    Err(e) => Err(e),
                },
            },
        },
        _ => Ok(None),
    }
}

/// What an optional change says.
pub open spec fn opt_change(r: Result<Option<Change>, GraphError>) -> Result<
    Option<ChangeView>,
    ErrorView,
> {
    match r {
        Ok(Some(c)) => Ok(Some(c@)),
        Ok(None) => Ok(None),
        Err(e) => Err(e@),
    }
}

/// What an operator creates.
pub fn plan_creation<S: Source>(
    db: &S,
    op: &LogicalOp,
    c: &Creation,
    from: &NamedRecord,
    keep_bound: bool,
) -> (r: Result<Option<Change>, GraphError>)
    ensures
        source::steady(*db) ==> opt_change(r) == creation(
            *op,
            c@,
            from@,
            keep_bound,
            source::model(*db),
        ),
{
    match op {
        LogicalOp::CreateNode { labels, alias, properties } => {
            match alias {
                Some(a) => {
                    if keep_bound && find_bound(&c.bindings, a.as_str()).is_some() {
                        return Ok(None);
                    }
                },
                None => {},
            }
            match evaluate_props(db, properties, from) {
                Ok(p) => Ok(
                    Some(
                        Change::AddNode {
                            labels: ast_copy::dup_texts(labels),
                            properties: p.fields,
                        },
                    ),
                ),
                Err(e) => Err(e),
            }
        },
        LogicalOp::CreateEdge { src_alias, dst_alias, edge_type, properties, .. } => {
            let src = match find_bound(&c.bindings, src_alias.as_str()) {
                Some(id) => id,
                None => {
                    return Err(unbound_error(src_alias.as_str()));
                },
            };
            let dst = match find_bound(&c.bindings, dst_alias.as_str()) {
                Some(id) => id,
                None => {
                    return Err(unbound_error(dst_alias.as_str()));
                },
            };
            match evaluate_props(db, properties, from) {
                Ok(p) => Ok(
                    Some(
                        Change::AddEdge {
                            src,
                            dst,
                            label: edge_type.clone(),
                            properties: p.fields,
                        },
                    ),
                ),
                Err(e) => Err(e),
            }
        },
        _ => Ok(None),
    }
}

/// The bindings and the row once a change is made; `id` is the id of a node that was created.
pub open spec fn noted(op: LogicalOp, c: CreationView, change: ChangeView, id: NodeId) -> CreationView {
    match (op, change) {
        (
            LogicalOp::CreateNode { alias: Some(a), .. },
            ChangeView::AddNode { properties, .. },
        ) => CreationView {
            bindings: c.bindings.push((a@, id)),
            row: node_bound(c.row, a@, id, properties),
        },
        (
            LogicalOp::CreateEdge { rel_alias: Some(a), .. },
            ChangeView::AddEdge { src, dst, label, properties },
        ) => CreationView {
            bindings: c.bindings,
            row: binding::edge_row(c.row, a@, src, dst, label, None, properties),
        },
        _ => c,
    }
}

/// The bindings and the row once a change is made.
pub fn note_creation(op: &LogicalOp, c: Creation, change: &Change, id: NodeId) -> (r: Creation)
    ensures
        r@ == noted(*op, c@, change@, id),
{
    match (op, change) {
        (
            LogicalOp::CreateNode { alias: Some(a), .. },
            Change::AddNode { properties, .. },
        ) => {
            let mut c = c;
            let ghost before = bindings_view(c.bindings@);
            bind_node(&mut c.row, a.as_str(), id, properties);
            c.bindings.push((a.clone(), id));
            assert(bindings_view(c.bindings@) =~= before.push((a@, id)));
            c
        },
        (
            LogicalOp::CreateEdge { rel_alias: Some(a), .. },
            Change::AddEdge { src, dst, label, properties },
        ) => {
            let mut c = c;
            binding::bind_edge(
                &mut c.row,
                a.as_str(),
                *src,
                *dst,
                label.as_str(),
                None,
                properties,
            );
            c
        },
        _ => c,
    }
}

/// A relationship to delete: its ends, its type, and its number if it is known.
pub type EdgeRef = (NodeId, NodeId, Seq<char>, Option<u64>);

/// What a list of relationships to delete says.
pub open spec fn edge_refs(s: Seq<(NodeId, NodeId, String, Option<u64>)>) -> Seq<EdgeRef> {
    Seq::new(s.len(), |i: int| (s[i].0, s[i].1, s[i].2@, s[i].3))
}

/// What is to be deleted.
#[derive(Debug, PartialEq)]
pub struct Deletion {
    pub edges: Vec<(NodeId, NodeId, String, Option<u64>)>,
    pub nodes: Vec<NodeId>,
}

/// What a [`Deletion`] says.
#[verifier::ext_equal]
pub struct DeletionView {
    pub edges: Seq<EdgeRef>,
    pub nodes: Seq<NodeId>,
}

impl View for Deletion {
    type V = DeletionView;

    open spec fn view(&self) -> DeletionView {
        DeletionView { edges: edge_refs(self.edges@), nodes: self.nodes@ }
    }
}

impl DeletionView {
    /// Both deletions.
    pub open spec fn and(self, other: DeletionView) -> DeletionView {
        DeletionView { edges: self.edges + other.edges, nodes: self.nodes + other.nodes }
    }
}

/// Nothing is to be deleted.
pub open spec fn no_deletion() -> DeletionView {
    DeletionView { edges: Seq::empty(), nodes: Seq::empty() }
}

/// A node is to be deleted.
pub open spec fn node_deletion(id: NodeId) -> DeletionView {
    DeletionView { edges: Seq::empty(), nodes: seq![id] }
}

/// A relationship is to be deleted.
pub open spec fn edge_deletion(src: NodeId, dst: NodeId, label: Seq<char>, seq: Option<u64>) -> DeletionView {
    DeletionView { edges: seq![(src, dst, label, seq)], nodes: Seq::empty() }
}

/// What a value names for deletion: a node, a relationship, all of a path, or what the items of
/// a list name.
pub open spec fn value_deletion(v: ValueView) -> DeletionView
    decreases v,
{
    match v {
        ValueView::Node(n) => node_deletion(n.id),
        ValueView::Edge(e) => edge_deletion(e.src, e.dst, e.label, None),
        ValueView::Path(p) => DeletionView {
            edges: Seq::new(
                p.edges.len(),
                |i: int| (p.edges[i].src, p.edges[i].dst, p.edges[i].label, None::<u64>),
            ),
            nodes: Seq::new(p.nodes.len(), |i: int| p.nodes[i].id),
        },
        ValueView::I64(id) => node_deletion(NodeId(id as u64)),
        ValueView::List(items) => list_deletion(items),
        _ => no_deletion(),
    }
}

/// What the items of a list name for deletion.
pub open spec fn list_deletion(s: Seq<ValueView>) -> DeletionView
    decreases s,
{
    if s.len() == 0 {
        no_deletion()
    } else {
        list_deletion(s.drop_last()).and(value_deletion(s.last()))
    }
}

/// What a variable names for deletion.
pub open spec fn var_deletion(rec: Row, var: Seq<char>) -> DeletionView {
    match binding::edge_ends(rec, var) {
        Some((s, d, t)) => edge_deletion(
            NodeId(s as u64),
            NodeId(d as u64),
            t,
            binding::edge_number(rec, var),
        ),
        None => match assoc::lookup(rec, var) {
            Some(v) => value_deletion(v),
            None => no_deletion(),
        },
    }
}

impl Deletion {
    /// Nothing is to be deleted.
    pub fn new() -> (r: Deletion)
        ensures
            r@ == no_deletion(),
    {
        let r = Deletion { edges: Vec::new(), nodes: Vec::new() };
        assert(r@ =~= no_deletion());
        r
    }

    /// Adds a node.
    fn push_node(&mut self, id: NodeId)
        ensures
            final(self)@ == old(self)@.and(node_deletion(id)),
    {
        let ghost before = self@;
        self.nodes.push(id);
        assert(self@.edges =~= before.edges + Seq::<EdgeRef>::empty());
        assert(self@.nodes =~= before.nodes + seq![id]);
    }

    /// Adds a relationship.
    fn push_edge(&mut self, src: NodeId, dst: NodeId, label: String, seq: Option<u64>)
        ensures
            final(self)@ == old(self)@.and(edge_deletion(src, dst, label@, seq)),
    {
        let ghost before = self@;
        self.edges.push((src, dst, label, seq));
        assert(self@.edges =~= before.edges + seq![(src, dst, label@, seq)]);
        assert(self@.nodes =~= before.nodes + Seq::<NodeId>::empty());
    }

    /// Adds all relationships and nodes of a path.
    fn push_path(&mut self, edges: &Vec<Edge>, nodes: &Vec<Node>)
        ensures
            final(self)@ == old(self)@.and(
                DeletionView {
                    edges: Seq::new(
                        edges@.len(),
                        |i: int| (edges@[i].src, edges@[i].dst, edges@[i].label@, None::<u64>),
                    ),
                    nodes: Seq::new(nodes@.len(), |i: int| nodes@[i].id),
                },
            ),
    {
        let ghost before = self@;
        let ghost es = Seq::new(
            edges@.len(),
            |i: int| (edges@[i].src, edges@[i].dst, edges@[i].label@, None::<u64>),
        );
        let ghost ns = Seq::new(nodes@.len(), |i: int| nodes@[i].id);
        let mut i: usize = 0;
        assert(before.edges + es.take(0) =~= before.edges);
        while i < edges.len()
            invariant
                i <= edges.len(),
                es == Seq::new(
                    edges@.len(),
                    |i: int| (edges@[i].src, edges@[i].dst, edges@[i].label@, None::<u64>),
                ),
                self@.nodes == before.nodes,
                self@.edges == before.edges + es.take(i as int),
            decreases edges.len() - i,
        {
            let ghost now = self@;
            let e = &edges[i];
            self.edges.push((e.src, e.dst, e.label.clone(), None));
            assert(self@.edges =~= now.edges.push(es[i as int]));
            assert(before.edges + es.take(i + 1) =~= (before.edges + es.take(i as int)).push(
                es[i as int],
            ));
            i = i + 1;
        }
        assert(es.take(es.len() as int) =~= es);
        let mut j: usize = 0;
        assert(before.nodes + ns.take(0) =~= before.nodes);
        while j < nodes.len()
            invariant
                j <= nodes.len(),
                ns == Seq::new(nodes@.len(), |i: int| nodes@[i].id),
                self@.edges == before.edges + es,
                self@.nodes == before.nodes + ns.take(j as int),
            decreases nodes.len() - j,
        {
            let ghost now = self@;
            self.nodes.push(nodes[j].id);
            assert(self@.nodes =~= now.nodes.push(ns[j as int]));
            assert(before.nodes + ns.take(j + 1) =~= (before.nodes + ns.take(j as int)).push(
                ns[j as int],
            ));
            j = j + 1;
        }
        assert(ns.take(ns.len() as int) =~= ns);
    }
}

/// Adds what a value names for deletion.
pub fn collect_value_entities(v: &Value, d: &mut Deletion)
    ensures
        final(d)@ == old(d)@.and(value_deletion(v@)),
    decreases v,
{
    let ghost before = d@;
    match v {
        Value::Node(n) => {
            d.push_node(n.id);
        },
        Value::Edge(e) => {
            d.push_edge(e.src, e.dst, e.label.clone(), None);
        },
        Value::Path(p) => {
            let ghost pv = p@;
            d.push_path(&p.edges, &p.nodes);
            assert(d@ =~= before.and(value_deletion(v@)));
        },
        Value::I64(id) => {
            d.push_node(NodeId(*id as u64));
        },
        Value::List(items) => {
            collect_list_entities(items, d);
        },
        _ => {
            assert(d@ =~= before.and(no_deletion()));
        },
    }
}

/// Adds what the items of a list name for deletion.
fn collect_list_entities(items: &Vec<Value>, d: &mut Deletion)
    ensures
        final(d)@ == old(d)@.and(list_deletion(value::values_view(items@))),
    decreases items,
{
    let ghost s = value::values_view(items@);
    let ghost before = d@;
    let mut i: usize = 0;
    assert(decreases_to!(items => items@));
    assert(s.take(0) =~= Seq::<ValueView>::empty());
    assert(d@ =~= before.and(no_deletion()));
    while i < items.len()
        invariant
            i <= items.len(),
            decreases_to!(items => items@),
            s == value::values_view(items@),
            d@ == before.and(list_deletion(s.take(i as int))),
        decreases items.len() - i,
    {
        assert(s.take(i + 1).drop_last() =~= s.take(i as int));
        assert(s.take(i + 1).last() == items@[i as int]@);
        let ghost now = d@;
        collect_value_entities(&items[i], d);
        assert(d@ =~= before.and(list_deletion(s.take(i + 1))));
        i = i + 1;
    }
    assert(s.take(s.len() as int) =~= s);
}

/// Adds what a variable names for deletion.
pub fn collect_var_entities(rec: &NamedRecord, var: &str, d: &mut Deletion)
    ensures
        final(d)@ == old(d)@.and(var_deletion(rec@, var@)),
{
    match binding::edge_fields(rec, var) {
        Some((s, t, l)) => {
            let seq = binding::edge_seq(rec, var);
            d.push_edge(NodeId(s as u64), NodeId(t as u64), l, seq);
        },
        None => match rec.get(var) {
            Some(v) => {
                collect_value_entities(v, d);
            },
            None => {
                assert(d@ =~= old(d)@.and(no_deletion()));
            },
        },
    }
}

/// A row with what was deleted in it marked, and what is to be deleted.
pub struct MarkedView {
    pub row: Row,
    pub deletion: DeletionView,
}

/// A row on which the expressions of a DELETE name what to delete. A variable is marked, so that
/// what it was bound to is not read any more.
pub open spec fn marked(rec: Row, exprs: Seq<Expr>, m: Model) -> Result<MarkedView, ErrorView>
    decreases exprs.len(),
{
    if exprs.len() == 0 {
        Ok(MarkedView { row: rec, deletion: no_deletion() })
    } else {
        match marked(rec, exprs.drop_last(), m) {
            Ok(s) => match exprs.last().kind {
                ExprKind::Variable(var) => Ok(
                    MarkedView {
                        row: assoc::put(
                            s.row,
                            text::dotted(var@, "__deleted"@),
                            ValueView::Bool(true),
                        ),
                        deletion: s.deletion.and(var_deletion(s.row, var@)),
                    },
                ),
                _ => match (m.eval)(exprs.last()@, s.row) {
                    Ok(v) => Ok(
                        MarkedView {
                            row: s.row,
                            deletion: s.deletion.and(value_deletion(v)),
                        },
                    ),
                    Err(e) => Err(e),
                },
            },
            Err(e) => Err(e),
        }
    }
}

/// The first expression that fails decides.
proof fn lemma_marked_stops(rec: Row, exprs: Seq<Expr>, m: Model, i: int)
    requires
        0 <= i <= exprs.len(),
        marked(rec, exprs.take(i), m) is Err,
    ensures
        marked(rec, exprs, m) == marked(rec, exprs.take(i), m),
    decreases exprs.len(),
{
    if i < exprs.len() {
        assert(exprs.drop_last().take(i) =~= exprs.take(i));
        lemma_marked_stops(rec, exprs.drop_last(), m, i);
    } else {
        assert(exprs.take(i) =~= exprs);
    }
}

/// Notes what the expressions of a DELETE name on a row, and marks it.
pub fn mark_deleted<S: Source>(
    db: &S,
    rec: &mut NamedRecord,
    exprs: &Vec<Expr>,
    d: &mut Deletion,
) -> (r: Result<(), GraphError>)
    ensures
        source::steady(*db) ==> (match marked(old(rec)@, exprs@, source::model(*db)) {
            Ok(s) => r is Ok && final(rec)@ == s.row && final(d)@ == old(d)@.and(s.deletion),
            Err(e) => types::verdict(r) == Err::<(), ErrorView>(e),
        }),
{
    let ghost m = source::model(*db);
    let ghost first = rec@;
    let ghost before = d@;
    let mut i: usize = 0;
    assert(exprs@.take(0) =~= Seq::<Expr>::empty());
    assert(d@ =~= before.and(no_deletion()));
    while i < exprs.len()
        invariant
            i <= exprs.len(),
            m == source::model(*db),
            first == old(rec)@,
            before == old(d)@,
            source::steady(*db) ==> (match marked(first, exprs@.take(i as int), m) {
                Ok(s) => rec@ == s.row && d@ == before.and(s.deletion),
                Err(_) => false,
            }),
        decreases exprs.len() - i,
    {
        assert(exprs@.take(i + 1).drop_last() =~= exprs@.take(i as int));
        assert(exprs@.take(i + 1).last() == exprs@[i as int]);
        let ghost now = marked(first, exprs@.take(i as int), m);
        match &exprs[i].kind {
            ExprKind::Variable(var) => {
                let ghost seen = rec@;
                collect_var_entities(rec, var.as_str(), d);
                rec.set(text::field(var.as_str(), "__deleted"), Value::Bool(true));
                assert(source::steady(*db) ==> d@ =~= before.and(
                    now->Ok_0.deletion.and(var_deletion(seen, var@)),
                ));
            },
            _ => match source::ask_eval(db, &exprs[i], rec) {
                Ok(v) => {
                    collect_value_entities(&v, d);
                    assert(source::steady(*db) ==> d@ =~= before.and(
                        now->Ok_0.deletion.and(value_deletion(v@)),
                    ));
                },
                Err(e) => {
                    proof {
                        if source::steady(*db) {
                            lemma_marked_stops(first, exprs@, m, i + 1);
                        }
                    }
                    return Err(e);
                },
            },
        }
        i = i + 1;
    }
    assert(exprs@.take(exprs@.len() as int) =~= exprs@);
    Ok(())
}

/// A node that still has relationships is not deleted.
pub open spec fn still_connected(id: NodeId) -> ErrorView {
    types::query_error(
        ErrorKind::Constraint,
        QueryPhase::Runtime,
        ErrorCode::DeleteConnectedNode,
        "cannot delete node "@ + text::decimal(id.0 as nat)
            + " because it still has relationships. Use DETACH DELETE."@,
        None,
        None,
    )
}

/// Refuses to delete a node that still has relationships, unless they are deleted with it.
pub fn check_disconnected(id: NodeId, detach: bool, has_edges: bool) -> (r: Result<(), GraphError>)
    ensures
        types::verdict(r) == (if !detach && has_edges {
            Err(still_connected(id))
        } else {
            Ok(())
        }),
{
    if !detach && has_edges {
        Err(
            GraphError::constraint(
                ErrorCode::DeleteConnectedNode,
                text::cat3(
                    "cannot delete node ",
                    text::number(id.0).as_str(),
                    " because it still has relationships. Use DETACH DELETE.",
                ),
            ),
        )
    } else {
        Ok(())
    }
}

} // verus!
