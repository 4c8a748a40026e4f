//! MERGE: what is found, what is created where nothing is, and the row to go on with.
use crate::assoc;
use crate::assoc::AssocList;
use crate::ast::{Expr, NodePattern};
use crate::ast_copy;
use crate::ast_model;
use crate::exec::assign;
use crate::exec::change::{Change, ChangeView};
use crate::exec::flow;
use crate::order;
use crate::record::{NamedRecord, Row};
use crate::source;
use crate::source::{Model, Source};
use crate::text;
use crate::types;
use crate::types::{ErrorCode, ErrorView, GraphError, NodeId};
use crate::value;
use crate::value::{Node, NodeView, Value};
use vstd::prelude::*;

verus! {

/// The fault of a MERGE with a property that is null.
pub open spec fn null_property() -> ErrorView {
    types::semantic_error(ErrorCode::MergeReadOwnWrites, "MERGE with null property value"@)
}

/// The values of the properties of a MERGE pattern on a row. None of them may be null.
pub open spec fn wanted(s: Seq<(String, Expr)>, rec: Row, m: Model) -> Result<Row, ErrorView>
    decreases s.len(),
{
    if s.len() == 0 {
        Ok(Row::empty())
    } else {
        match wanted(s.drop_last(), rec, m) {
            Ok(p) => match (m.eval)(s.last().1@, rec) {
                Ok(v) => if v is Null {
                    Err(null_property())
                } else {
                    Ok(assoc::put(p, s.last().0@, v))
                },
                Err(e) => Err(e),
            },
            Err(e) => Err(e),
        }
    }
}

/// The first property that fails decides.
proof fn lemma_wanted_stops(s: Seq<(String, Expr)>, rec: Row, m: Model, i: int)
    requires
        0 <= i <= s.len(),
        wanted(s.take(i), rec, m) is Err,
    ensures
        wanted(s, rec, m) == wanted(s.take(i), rec, m),
    decreases s.len(),
{
    if i < s.len() {
        assert(s.drop_last().take(i) =~= s.take(i));
        lemma_wanted_stops(s.drop_last(), rec, m, i);
    } else {
        assert(s.take(i) =~= s);
    }
}

/// The values of the properties of a MERGE pattern on a row.
pub fn find_wanted<S: Source>(db: &S, properties: &AssocList<Expr>, rec: &NamedRecord) -> (r: Result<
    NamedRecord,
    GraphError,
>)
    ensures
        source::steady(*db) ==> types::outcome(r) == wanted(
            properties.entries@,
            rec@,
            source::model(*db),
        ),
{
    let ghost m = source::model(*db);
    let entries = &properties.entries;
    let ghost s = entries@;
    let mut p = NamedRecord::new();
    let mut i: usize = 0;
    assert(s.take(0) =~= Seq::<(String, Expr)>::empty());
    while i < entries.len()
        invariant
            i <= entries.len(),
            s == entries@,
            s == properties.entries@,
            m == source::model(*db),
            source::steady(*db) ==> wanted(s.take(i as int), rec@, m) == Ok::<Row, ErrorView>(p@),
        decreases entries.len() - i,
    {
        assert(s.take(i + 1).drop_last() =~= s.take(i as int));
        assert(s.take(i + 1).last() == s[i as int]);
        let fault = match source::ask_eval(db, &entries[i].1, rec) {
            Ok(Value::Null) => GraphError::semantic(
                ErrorCode::MergeReadOwnWrites,
                text::owned("MERGE with null property value"),
            ),
            Ok(v) => {
                p.set(entries[i].0.clone(), v);
                i = i + 1;
                continue;
            },
            Err(e) => e,
        };
        proof {
            if source::steady(*db) {
                lemma_wanted_stops(s, rec@, m, i + 1);
            }
        }
        return Err(fault);
    }
    assert(s.take(s.len() as int) =~= s);
    Ok(p)
}

/// Properties hold all wanted values.
pub open spec fn has_props(props: Row, want: Row) -> bool {
    forall|i: int|
        0 <= i < want.len() ==> (match assoc::lookup(props, (#[trigger] want[i]).0) {
            Some(v) => order::same(v, want[i].1),
            None => false,
        })
}

/// True when properties hold all wanted values.
pub fn holds_props(props: &AssocList<Value>, want: &Vec<(String, Value)>) -> (r: bool)
    ensures
        r == has_props(value::props_view(props.entries@), value::props_view(want@)),
{
    let held = NamedRecord { fields: assign::dup_entries(props) };
    let ghost s = value::props_view(want@);
    let mut i: usize = 0;
    while i < want.len()
        invariant
            i <= want.len(),
            s == value::props_view(want@),
            held@ == value::props_view(props.entries@),
            forall|j: int|
                0 <= j < i ==> (match assoc::lookup(held@, (#[trigger] s[j]).0) {
                    Some(v) => order::same(v, s[j].1),
                    None => false,
                }),
        decreases want.len() - i,
    {
        assert(s[i as int] == (want@[i as int].0@, want@[i as int].1@));
        let ok = match held.get(want[i].0.as_str()) {
            Some(v) => order::equal(v, &want[i].1),
            None => false,
        };
        if !ok {
            return false;
        }
        i = i + 1;
    }
    true
}

/// A property has an index of its own.
pub open spec fn indexed_alone(indexes: Seq<Seq<Seq<char>>>, key: Seq<char>) -> bool {
    exists|i: int| 0 <= i < indexes.len() && #[trigger] indexes[i] == seq![key]
}

/// True when a property has an index of its own.
fn has_own_index(indexes: &Vec<Vec<String>>, key: &str) -> (r: bool)
    ensures
        r == indexed_alone(
            Seq::new(indexes@.len(), |i: int| ast_model::texts(indexes@[i]@)),
            key@,
        ),
{
    let ghost s = Seq::new(indexes@.len(), |i: int| ast_model::texts(indexes@[i]@));
    let mut i: usize = 0;
    while i < indexes.len()
        invariant
            i <= indexes.len(),
            s == Seq::new(indexes@.len(), |i: int| ast_model::texts(indexes@[i]@)),
            forall|j: int| 0 <= j < i ==> #[trigger] s[j] != seq![key@],
        decreases indexes.len() - i,
    {
        assert(s[i as int].len() == indexes@[i as int]@.len());
        if indexes[i].len() == 1 {
            assert(s[i as int][0] == indexes@[i as int]@[0]@);
            if text::same_str(indexes[i][0].as_str(), key) {
                assert(s[i as int] =~= seq![key@]);
                return true;
            }
        }
        i = i + 1;
    }
    false
}

/// The first wanted property from `i` on that has an index of its own.
pub open spec fn index_choice(want: Row, indexes: Seq<Seq<Seq<char>>>, i: int) -> Option<int>
    decreases want.len() - i,
{
    if 0 <= i < want.len() {
        if indexed_alone(indexes, want[i].0) {
            Some(i)
        } else {
            index_choice(want, indexes, i + 1)
        }
    } else {
        None
    }
}

/// Where nodes for a MERGE are looked for.
pub enum Candidates {
    /// The ids that an index gives.
    Ids(Vec<NodeId>),
    /// All nodes with the label.
    Nodes(Vec<Node>),
}

/// What a [`Candidates`] says.
pub enum CandidatesView {
    Ids(Seq<NodeId>),
    Nodes(Seq<NodeView>),
}

impl View for Candidates {
    type V = CandidatesView;

    open spec fn view(&self) -> CandidatesView {
        match self {
            Candidates::Ids(ids) => CandidatesView::Ids(ids@),
            Candidates::Nodes(nodes) => CandidatesView::Nodes(value::nodes_view(nodes@)),
        }
    }
}

/// Where nodes for a MERGE are looked for: in the index of the first property that has one of
/// its own, else among all nodes with the label.
pub open spec fn candidates(label: Seq<char>, want: Row, m: Model) -> Result<
    CandidatesView,
    ErrorView,
> {
    match (m.indexes)(label) {
        Err(e) => Err(e),
        Ok(indexes) => match index_choice(want, indexes, 0) {
            Some(i) => match (m.index_ids)(label, seq![want[i].0], seq![want[i]]) {
                Ok(ids) => Ok(CandidatesView::Ids(ids)),
                Err(e) => Err(e),
            },
            None => match (m.nodes_by_label)(label) {
                Ok(nodes) => Ok(CandidatesView::Nodes(nodes)),
                Err(e) => Err(e),
            },
        },
    }
}

/// Where nodes for a MERGE are looked for.
fn find_candidates<S: Source>(db: &S, label: &str, want: &Vec<(String, Value)>) -> (r: Result<
    Candidates,
    GraphError,
>)
    ensures
        source::steady(*db) ==> types::outcome(r) == candidates(
            label@,
            value::props_view(want@),
            source::model(*db),
        ),
{
    let ghost m = source::model(*db);
    let ghost s = value::props_view(want@);
    let indexes = match source::ask_indexes(db, label) {
        Ok(v) => v,
        Err(e) => {
            return Err(e);
        },
    };
    let ghost ix = Seq::new(indexes@.len(), |i: int| ast_model::texts(indexes@[i]@));
    let mut i: usize = 0;
    while i < want.len()
        invariant
            i <= want.len(),
            m == source::model(*db),
            s == value::props_view(want@),
            ix == Seq::new(indexes@.len(), |i: int| ast_model::texts(indexes@[i]@)),
            source::steady(*db) ==> (m.indexes)(label@) == Ok::<Seq<Seq<Seq<char>>>, ErrorView>(ix),
            index_choice(s, ix, i as int) == index_choice(s, ix, 0),
        decreases want.len() - i,
    {
        assert(s[i as int] == (want@[i as int].0@, want@[i as int].1@));
        if has_own_index(&indexes, want[i].0.as_str()) {
            let mut properties: Vec<String> = Vec::new();
            properties.push(want[i].0.clone());
            let mut keys: Vec<(String, Value)> = Vec::new();
            keys.push((want[i].0.clone(), want[i].1.dup()));
            assert(ast_model::texts(properties@) =~= seq![s[i as int].0]);
            assert(value::props_view(keys@) =~= seq![s[i as int]]);
            return match source::ask_index_ids(db, label, &properties, &keys) {
                Ok(ids) => Ok(Candidates::Ids(ids)),
                Err(e) => Err(e),
            };
        }
        i = i + 1;
    }
    match source::ask_nodes_by_label(db, label) {
        Ok(nodes) => Ok(Candidates::Nodes(nodes)),
        Err(e) => Err(e),
    }
}

/// A node where it holds all wanted values, as a list.
pub open spec fn node_if(n: NodeView, want: Row) -> Result<Seq<NodeView>, ErrorView> {
    Ok(
        if has_props(n.properties, want) {
            seq![n]
        } else {
            Seq::empty()
        },
    )
}

/// A node by its id, where it holds all wanted values, as a list.
pub open spec fn id_if(id: NodeId, want: Row, m: Model) -> Result<Seq<NodeView>, ErrorView> {
    match (m.node)(id) {
        Ok(n) => node_if(n, want),
        Err(e) => Err(e),
    }
}

/// The nodes with a label that hold all wanted values.
pub open spec fn matches(label: Seq<char>, want: Row, m: Model) -> Result<Seq<NodeView>, ErrorView> {
    match candidates(label, want, m) {
        Err(e) => Err(e),
        Ok(CandidatesView::Ids(ids)) => flow::each(ids, |id: NodeId| id_if(id, want, m)),
        Ok(CandidatesView::Nodes(nodes)) => flow::each(nodes, |n: NodeView| node_if(n, want)),
    }
}

/// The nodes with a label that hold all wanted values.
pub fn find_merge_matches<S: Source>(db: &S, label: &str, want: &Vec<(String, Value)>) -> (r: Result<
    Vec<Node>,
    GraphError,
>)
    ensures
        source::steady(*db) ==> source::nodes_told(r) == matches(
            label@,
            value::props_view(want@),
            source::model(*db),
        ),
{
    let ghost m = source::model(*db);
    let ghost w = value::props_view(want@);
    let mut out: Vec<Node> = Vec::new();
    assert(value::nodes_view(out@) =~= Seq::<NodeView>::empty());
    match find_candidates(db, label, want) {
        Err(e) => Err(e),
        Ok(Candidates::Ids(ids)) => {
            let ghost f = |id: NodeId| id_if(id, w, m);
            let mut i: usize = 0;
            assert(ids@.take(0) =~= Seq::<NodeId>::empty());
            while i < ids.len()
                invariant
                    i <= ids.len(),
                    m == source::model(*db),
                    w == value::props_view(want@),
                    f == (|id: NodeId| id_if(id, w, m)),
                    source::steady(*db) ==> candidates(label@, w, m) == Ok::<
                        CandidatesView,
                        ErrorView,
                    >(CandidatesView::Ids(ids@)),
                    source::steady(*db) ==> flow::each(ids@.take(i as int), f) == Ok::<
                        Seq<NodeView>,
                        ErrorView,
                    >(value::nodes_view(out@)),
                decreases ids.len() - i,
            {
                proof {
                    flow::lemma_each_step(ids@, f, i as int);
                }
                let ghost before = value::nodes_view(out@);
                match source::ask_node(db, ids[i]) {
                    Ok(n) => {
                        if holds_props(&n.properties, want) {
                            out.push(n);
                            assert(value::nodes_view(out@) =~= before + seq![n@]);
                        } else {
                            assert(before + Seq::<NodeView>::empty() =~= before);
                        }
                    },
                    Err(e) => {
                        proof {
                            if source::steady(*db) {
                                flow::lemma_each_stops(ids@, f, i + 1);
                            }
                        }
                        return Err(e);
                    },
                }
                i = i + 1;
            }
            assert(ids@.take(ids@.len() as int) =~= ids@);
            Ok(out)
        },
        Ok(Candidates::Nodes(nodes)) => {
            let ghost f = |n: NodeView| node_if(n, w);
            let ghost s = value::nodes_view(nodes@);
            let mut i: usize = 0;
            assert(s.take(0) =~= Seq::<NodeView>::empty());
            while i < nodes.len()
                invariant
                    i <= nodes.len(),
                    w == value::props_view(want@),
                    s == value::nodes_view(nodes@),
                    f == (|n: NodeView| node_if(n, w)),
                    flow::each(s.take(i as int), f) == Ok::<Seq<NodeView>, ErrorView>(
                        value::nodes_view(out@),
                    ),
                decreases nodes.len() - i,
            {
                proof {
                    flow::lemma_each_step(s, f, i as int);
                }
                assert(s[i as int] == nodes@[i as int]@);
                let ghost before = value::nodes_view(out@);
                if holds_props(&nodes[i].properties, want) {
                    out.push(nodes[i].dup());
                    assert(value::nodes_view(out@) =~= before + seq![nodes@[i as int]@]);
                } else {
                    assert(before + Seq::<NodeView>::empty() =~= before);
                }
                i = i + 1;
            }
            assert(s.take(s.len() as int) =~= s);
            Ok(out)
        },
    }
}

/// The first of some ids whose node holds all wanted values; those behind it are not read.
pub open spec fn first_of_ids(ids: Seq<NodeId>, want: Row, m: Model) -> Result<
    Option<NodeView>,
    ErrorView,
>
    decreases ids.len(),
{
    if ids.len() == 0 {
        Ok(None)
    } else {
        match (m.node)(ids[0]) {
            Err(e) => Err(e),
            Ok(n) => if has_props(n.properties, want) {
                Ok(Some(n))
            } else {
                first_of_ids(ids.drop_first(), want, m)
            },
        }
    }
}

/// The first of some nodes that holds all wanted values.
pub open spec fn first_of_nodes(nodes: Seq<NodeView>, want: Row) -> Option<NodeView>
    decreases nodes.len(),
{
    if nodes.len() == 0 {
        None
    } else if has_props(nodes[0].properties, want) {
        Some(nodes[0])
    } else {
        first_of_nodes(nodes.drop_first(), want)
    }
}

/// A node with a label that holds all wanted values, if there is one.
pub open spec fn first_match(label: Seq<char>, want: Row, m: Model) -> Result<
    Option<NodeView>,
    ErrorView,
> {
    match candidates(label, want, m) {
        Err(e) => Err(e),
        Ok(CandidatesView::Ids(ids)) => first_of_ids(ids, want, m),
        Ok(CandidatesView::Nodes(nodes)) => Ok(first_of_nodes(nodes, want)),
    }
}

/// What an optional node says.
pub open spec fn opt_node(r: Result<Option<Node>, GraphError>) -> Result<Option<NodeView>, ErrorView> {
    match r {
        Ok(Some(n)) => Ok(Some(n@)),
        Ok(None) => Ok(None),
        Err(e) => Err(e@),
    }
}

/// A node with a label that holds all wanted values, if there is one.
pub fn find_merge_match_evaluated<S: Source>(db: &S, label: &str, want: &Vec<(String, Value)>) -> (r: Result<
    Option<Node>,
    GraphError,
>)
    ensures
        source::steady(*db) ==> opt_node(r) == first_match(
            label@,
            value::props_view(want@),
            source::model(*db),
        ),
{
    let ghost m = source::model(*db);
    let ghost w = value::props_view(want@);
    match find_candidates(db, label, want) {
        Err(e) => Err(e),
        Ok(Candidates::Ids(ids)) => {
            let mut i: usize = 0;
            assert(ids@.skip(0) =~= ids@);
            while i < ids.len()
                invariant
                    i <= ids.len(),
                    m == source::model(*db),
                    w == value::props_view(want@),
                    source::steady(*db) ==> candidates(label@, w, m) == Ok::<
                        CandidatesView,
                        ErrorView,
                    >(CandidatesView::Ids(ids@)),
                    first_of_ids(ids@, w, m) == first_of_ids(ids@.skip(i as int), w, m)
                        || !source::steady(*db),
                decreases ids.len() - i,
            {
                assert(ids@.skip(i as int)[0] == ids@[i as int]);
                assert(ids@.skip(i as int).drop_first() =~= ids@.skip(i + 1));
                match source::ask_node(db, ids[i]) {
                    Ok(n) => {
                        if holds_props(&n.properties, want) {
                            return Ok(Some(n));
                        }
                    },
                    Err(e) => {
                        return Err(e);
                    },
                }
                i = i + 1;
            }
            Ok(None)
        },
        Ok(Candidates::Nodes(nodes)) => {
            let ghost s = value::nodes_view(nodes@);
            let mut i: usize = 0;
            assert(s.skip(0) =~= s);
            while i < nodes.len()
                invariant
                    i <= nodes.len(),
                    m == source::model(*db),
                    w == value::props_view(want@),
                    s == value::nodes_view(nodes@),
                    source::steady(*db) ==> candidates(label@, w, m) == Ok::<
                        CandidatesView,
                        ErrorView,
                    >(CandidatesView::Nodes(s)),
                    first_of_nodes(s, w) == first_of_nodes(s.skip(i as int), w),
                decreases nodes.len() - i,
            {
                assert(s.skip(i as int)[0] == nodes@[i as int]@);
                assert(s.skip(i as int).drop_first() =~= s.skip(i + 1));
                if holds_props(&nodes[i].properties, want) {
                    return Ok(Some(nodes[i].dup()));
                }
                i = i + 1;
            }
            Ok(None)
        },
    }
}

/// A node carries all labels.
pub open spec fn has_labels(n: NodeView, labels: Seq<Seq<char>>) -> bool {
    forall|i: int| 0 <= i < labels.len() ==> n.labels.contains(#[trigger] labels[i])
}

/// True when a node carries all labels.
fn holds_labels(n: &Node, labels: &Vec<String>) -> (r: bool)
    ensures
        r == has_labels(n@, ast_model::texts(labels@)),
{
    let ghost s = ast_model::texts(labels@);
    let mut i: usize = 0;
    while i < labels.len()
        invariant
            i <= labels.len(),
            s == ast_model::texts(labels@),
            forall|j: int| 0 <= j < i ==> n@.labels.contains(#[trigger] s[j]),
        decreases labels.len() - i,
    {
        assert(s[i as int] == labels@[i as int]@);
        if !crate::exec::project::has_text(&n.labels, labels[i].as_str()) {
            return false;
        }
        i = i + 1;
    }
    true
}

/// The first of some nodes that carries all labels.
pub open spec fn first_labelled(nodes: Seq<NodeView>, labels: Seq<Seq<char>>) -> Option<NodeView>
    decreases nodes.len(),
{
    if nodes.len() == 0 {
        None
    } else if has_labels(nodes[0], labels) {
        Some(nodes[0])
    } else {
        first_labelled(nodes.drop_first(), labels)
    }
}

/// The first label, or the empty one.
pub open spec fn first_label(labels: Seq<Seq<char>>) -> Seq<char> {
    if labels.len() > 0 {
        labels[0]
    } else {
        ""@
    }
}

/// The first label, or the empty one.
pub fn leading_label(labels: &Vec<String>) -> (r: String)
    ensures
        r@ == first_label(ast_model::texts(labels@)),
{
    if labels.len() > 0 {
        labels[0].clone()
    } else {
        text::owned("")
    }
}

/// A node that carries all labels and holds all wanted values, if there is one.
pub open spec fn labelled_match(labels: Seq<Seq<char>>, want: Row, m: Model) -> Result<
    Option<NodeView>,
    ErrorView,
> {
    match matches(first_label(labels), want, m) {
        Ok(nodes) => Ok(first_labelled(nodes, labels)),
        Err(e) => Err(e),
    }
}

/// A node that carries all labels and holds all wanted values, if there is one.
pub fn find_merge_match_multi_label<S: Source>(
    db: &S,
    labels: &Vec<String>,
    want: &Vec<(String, Value)>,
) -> (r: Result<Option<Node>, GraphError>)
    ensures
        source::steady(*db) ==> opt_node(r) == labelled_match(
            ast_model::texts(labels@),
            value::props_view(want@),
            source::model(*db),
        ),
{
    let ghost m = source::model(*db);
    let ghost w = value::props_view(want@);
    let ghost ls = ast_model::texts(labels@);
    match find_merge_matches(db, leading_label(labels).as_str(), want) {
        Err(e) => Err(e),
        Ok(nodes) => {
            let ghost s = value::nodes_view(nodes@);
            let mut i: usize = 0;
            assert(s.skip(0) =~= s);
            while i < nodes.len()
                invariant
                    i <= nodes.len(),
                    m == source::model(*db),
                    w == value::props_view(want@),
                    ls == ast_model::texts(labels@),
                    s == value::nodes_view(nodes@),
                    source::steady(*db) ==> matches(first_label(ls), w, m) == Ok::<
                        Seq<NodeView>,
                        ErrorView,
                    >(s),
                    first_labelled(s, ls) == first_labelled(s.skip(i as int), ls),
                decreases nodes.len() - i,
            {
                assert(s.skip(i as int)[0] == nodes@[i as int]@);
                assert(s.skip(i as int).drop_first() =~= s.skip(i + 1));
                if holds_labels(&nodes[i], labels) {
                    return Ok(Some(nodes[i].dup()));
                }
                i = i + 1;
            }
            Ok(None)
        },
    }
}

/// What a MERGE of a node comes to.
#[derive(Debug, PartialEq)]
pub enum Found {
    /// There are such nodes; the first alone where one is enough.
    Nodes(Vec<NodeId>),
    /// There is none: it is to be created.
    Missing(Change),
}

/// What a [`Found`] says.
pub enum FoundView {
    Nodes(Seq<NodeId>),
    Missing(ChangeView),
}

impl View for Found {
    type V = FoundView;

    open spec fn view(&self) -> FoundView {
        match self {
            Found::Nodes(ids) => FoundView::Nodes(ids@),
            Found::Missing(c) => FoundView::Missing(c@),
        }
    }
}

/// The label on its own; none for the empty one.
pub open spec fn alone(label: Seq<char>) -> Seq<Seq<char>> {
    if label.len() == 0 {
        Seq::empty()
    } else {
        seq![label]
    }
}

/// The label on its own; none for the empty one.
fn label_alone(label: String) -> (r: Vec<String>)
    ensures
        ast_model::texts(r@) == alone(label@),
{
    let mut r: Vec<String> = Vec::new();
    if text::same_str(label.as_str(), "") {
        proof {
            reveal_strlit("");
        }
        assert(ast_model::texts(r@) =~= Seq::<Seq<char>>::empty());
    } else {
        proof {
            reveal_strlit("");
            if label@.len() == 0 {
                assert(label@ =~= ""@);
            }
        }
        r.push(label);
        assert(ast_model::texts(r@) =~= seq![label@]);
    }
    r
}

/// One node, or its creation.
pub open spec fn one_or_missing(n: Option<NodeView>, labels: Seq<Seq<char>>, want: Row) -> FoundView {
    match n {
        Some(n) => FoundView::Nodes(seq![n.id]),
        None => FoundView::Missing(ChangeView::AddNode { labels, properties: want }),
    }
}

/// One node, or its creation.
fn one_or_create(n: Option<Node>, labels: Vec<String>, want: NamedRecord) -> (r: Found)
    ensures
        r@ == one_or_missing(
            (match n {
                Some(n) => Some(n@),
                None => None,
            }),
            ast_model::texts(labels@),
            want@,
        ),
{
    match n {
        Some(n) => {
            let mut ids: Vec<NodeId> = Vec::new();
            ids.push(n.id);
            assert(ids@ =~= seq![n.id]);
            Found::Nodes(ids)
        },
        None => Found::Missing(Change::AddNode { labels, properties: want.fields }),
    }
}

/// What a MERGE of a node on its own comes to: a node with all labels of the pattern.
pub open spec fn node_merged(p: NodePattern, m: Model) -> Result<FoundView, ErrorView> {
    let labels = ast_model::texts(p.labels@);
    match wanted(p.properties.entries@, Row::empty(), m) {
        Err(e) => Err(e),
        Ok(want) => match labelled_match(labels, want, m) {
            Err(e) => Err(e),
            Ok(n) => Ok(one_or_missing(n, labels, want)),
        },
    }
}

/// What a MERGE of a node on its own comes to.
pub fn plan_node_merge<S: Source>(db: &S, p: &NodePattern) -> (r: Result<Found, GraphError>)
    ensures
        source::steady(*db) ==> types::outcome(r) == node_merged(*p, source::model(*db)),
{
    match find_wanted(db, &p.properties, &NamedRecord::new()) {
        Err(e) => Err(e),
        Ok(want) => match find_merge_match_multi_label(db, &p.labels, &want.fields.entries) {
            Err(e) => Err(e),
            Ok(n) => Ok(one_or_create(n, ast_copy::dup_texts(&p.labels), want)),
        },
    }
}

/// What the MERGE of an end of a relationship comes to: a node with the first label of its
/// pattern.
pub open spec fn end_merged(p: NodePattern, m: Model) -> Result<FoundView, ErrorView> {
    let label = first_label(ast_model::texts(p.labels@));
    match wanted(p.properties.entries@, Row::empty(), m) {
        Err(e) => Err(e),
        Ok(want) => match first_match(label, want, m) {
            Err(e) => Err(e),
            Ok(n) => Ok(one_or_missing(n, alone(label), want)),
        },
    }
}

/// What the MERGE of an end of a relationship comes to.
pub fn find_or_create_merge_node<S: Source>(db: &S, p: &NodePattern) -> (r: Result<
    Found,
    GraphError,
>)
    ensures
        source::steady(*db) ==> types::outcome(r) == end_merged(*p, source::model(*db)),
{
    let label = leading_label(&p.labels);
    match find_wanted(db, &p.properties, &NamedRecord::new()) {
        Err(e) => Err(e),
        Ok(want) => match find_merge_match_evaluated(db, label.as_str(), &want.fields.entries) {
            Err(e) => Err(e),
            Ok(n) => Ok(one_or_create(n, label_alone(label), want)),
        },
    }
}

/// The ids of nodes.
pub open spec fn node_ids(s: Seq<NodeView>) -> Seq<NodeId> {
    Seq::new(s.len(), |i: int| s[i].id)
}

/// What a MERGE of a node for a row comes to: all nodes with the first label of the pattern.
pub open spec fn row_merged(p: NodePattern, rec: Row, m: Model) -> Result<FoundView, ErrorView> {
    let label = first_label(ast_model::texts(p.labels@));
    match wanted(p.properties.entries@, rec, m) {
        Err(e) => Err(e),
        Ok(want) => match matches(label, want, m) {
            Err(e) => Err(e),
            Ok(nodes) => Ok(
                if nodes.len() == 0 {
                    FoundView::Missing(
                        ChangeView::AddNode { labels: alone(label), properties: want },
                    )
                } else {
                    FoundView::Nodes(node_ids(nodes))
                },
            ),
        },
    }
}

/// What a MERGE of a node for a row comes to.
pub fn plan_row_merge<S: Source>(db: &S, p: &NodePattern, rec: &NamedRecord) -> (r: Result<
    Found,
    GraphError,
>)
    ensures
        source::steady(*db) ==> types::outcome(r) == row_merged(*p, rec@, source::model(*db)),
{
    let label = leading_label(&p.labels);
    let want = match find_wanted(db, &p.properties, rec) {
        Ok(w) => w,
        Err(e) => {
            return Err(e);
        },
    };
    let nodes = match find_merge_matches(db, label.as_str(), &want.fields.entries) {
        Ok(v) => v,
        Err(e) => {
            return Err(e);
        },
    };
    if nodes.len() == 0 {
        return Ok(
            Found::Missing(
                Change::AddNode { labels: label_alone(label), properties: want.fields },
            ),
        );
    }
    let ghost whole = node_ids(value::nodes_view(nodes@));
    let mut ids: Vec<NodeId> = Vec::new();
    let mut i: usize = 0;
    while i < nodes.len()
        invariant
            i <= nodes.len(),
            whole == node_ids(value::nodes_view(nodes@)),
            ids@ == whole.take(i as int),
        decreases nodes.len() - i,
    {
        ids.push(nodes[i].id);
        assert(whole.take(i + 1) =~= whole.take(i as int).push(whole[i as int]));
        i = i + 1;
    }
    assert(whole.take(whole.len() as int) =~= whole);
    Ok(Found::Nodes(ids))
}

} // verus!
