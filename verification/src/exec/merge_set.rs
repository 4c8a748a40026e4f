//! ON CREATE and ON MATCH of a MERGE.
use crate::assoc;
use crate::assoc::AssocList;
use crate::ast::{Expr, SetItem};
use crate::ast_model;
use crate::binding;
use crate::exec::assign;
use crate::exec::change;
use crate::exec::change::{Change, ChangeView};
use crate::record::{NamedRecord, Row};
use crate::source;
use crate::source::{Model, Source};
use crate::types::{ErrorView, GraphError, NodeId};
use crate::value;
use crate::value::{Value, ValueView};
use vstd::prelude::*;

verus! {

/// The properties that an expression stands for: those of a map, a node, a relationship or the
/// node with an id; none for anything else.
pub open spec fn map_of(e: Expr, rec: Row, m: Model) -> Result<Row, ErrorView> {
    match (m.eval)(e@, rec) {
        Ok(ValueView::MapValue(entries)) => Ok(entries),
        Ok(ValueView::Node(n)) => Ok(n.properties),
        Ok(ValueView::Edge(e)) => Ok(e.properties),
        Ok(ValueView::I64(id)) => match (m.node)(NodeId(id as u64)) {
            Ok(n) => Ok(n.properties),
            Err(_) => Ok(Row::empty()),
        },
        Ok(_) => Ok(Row::empty()),
        Err(e) => Err(e),
    }
}

/// The properties that an expression stands for.
pub fn resolve_to_map<S: Source>(db: &S, e: &Expr, rec: &NamedRecord) -> (r: Result<
    AssocList<Value>,
    GraphError,
>)
    ensures
        source::steady(*db) ==> source::props_told(r) == map_of(*e, rec@, source::model(*db)),
{
    let r: AssocList<Value> = match source::ask_eval(db, e, rec) {
        Ok(Value::MapValue(entries)) => entries,
        Ok(Value::Node(n)) => n.properties,
        Ok(Value::Edge(x)) => x.properties,
        Ok(Value::I64(id)) => match source::ask_node(db, NodeId(id as u64)) {
            Ok(n) => n.properties,
            Err(_) => NamedRecord::new().fields,
        },
        Ok(_) => NamedRecord::new().fields,
        Err(e) => {
            return Err(e);
        },
    };
    Ok(r)
}

/// A node or a relationship whose properties are set.
#[derive(Debug, PartialEq)]
pub enum Owner {
    Node(NodeId),
    Edge { src: NodeId, dst: NodeId, label: String, seq: Option<u64> },
}

/// What an [`Owner`] says.
pub enum OwnerView {
    Node(NodeId),
    Edge { src: NodeId, dst: NodeId, label: Seq<char>, seq: Option<u64> },
}

impl View for Owner {
    type V = OwnerView;

    open spec fn view(&self) -> OwnerView {
        match self {
            Owner::Node(id) => OwnerView::Node(*id),
            Owner::Edge { src, dst, label, seq } => OwnerView::Edge {
                src: *src,
                dst: *dst,
                label: label@,
                seq: *seq,
            },
        }
    }
}

/// The change that sets one property.
pub open spec fn setting(owner: OwnerView, property: Seq<char>, value: ValueView) -> ChangeView {
    match owner {
        OwnerView::Node(id) => ChangeView::SetNodeProperty { id, property, value },
        OwnerView::Edge { src, dst, label, seq } => ChangeView::SetEdgeProperty {
            src,
            dst,
            label,
            seq,
            property,
            value,
        },
    }
}

/// The change that sets one property.
fn set_one(owner: &Owner, property: &String, value: Value) -> (r: Change)
    ensures
        r@ == setting(owner@, property@, value@),
{
    match owner {
        Owner::Node(id) => Change::SetNodeProperty { id: *id, property: property.clone(), value },
        Owner::Edge { src, dst, label, seq } => Change::SetEdgeProperty {
            src: *src,
            dst: *dst,
            label: label.clone(),
            seq: *seq,
            property: property.clone(),
            value,
        },
    }
}

/// The changes that set properties one by one; with `clear`, to null.
pub open spec fn settings(owner: OwnerView, props: Row, clear: bool) -> Seq<ChangeView> {
    Seq::new(
        props.len(),
        |i: int|
            setting(
                owner,
                props[i].0,
                if clear {
                    ValueView::Null
                } else {
                    props[i].1
                },
            ),
    )
}

/// Appends the changes that set properties one by one.
fn set_each(out: &mut Vec<Change>, owner: &Owner, props: &Vec<(String, Value)>, clear: bool)
    ensures
        change::changes_view(final(out)@) == change::changes_view(old(out)@) + settings(
            owner@,
            value::props_view(props@),
            clear,
        ),
{
    let ghost first = change::changes_view(out@);
    let ghost whole = settings(owner@, value::props_view(props@), clear);
    let mut i: usize = 0;
    assert(first + whole.take(0) =~= first);
    while i < props.len()
        invariant
            i <= props.len(),
            whole == settings(owner@, value::props_view(props@), clear),
            change::changes_view(out@) == first + whole.take(i as int),
        decreases props.len() - i,
    {
        let ghost before = change::changes_view(out@);
        let v = if clear {
            Value::Null
        } else {
            props[i].1.dup()
        };
        let c = set_one(owner, &props[i].0, v);
        out.push(c);
        assert(change::changes_view(out@) =~= before.push(c@));
        assert(whole[i as int] == c@);
        assert(first + whole.take(i + 1) =~= (first + whole.take(i as int)).push(whole[i as int]));
        i = i + 1;
    }
    assert(whole.take(whole.len() as int) =~= whole);
}

/// What an item of ON CREATE or ON MATCH does to a node.
pub open spec fn node_set(item: SetItem, id: NodeId, rec: Row, m: Model) -> Result<
    Seq<ChangeView>,
    ErrorView,
> {
    match item {
        SetItem::Property(a) => match (m.node)(id) {
            Err(e) => Err(e),
            Ok(n) => match (m.eval)(
                a.value@,
                assoc::put(rec, a.variable@, binding::id_view(id)),
            ) {
                Err(e) => Err(e),
                Ok(v) => Ok(
                    seq![
                        setting(OwnerView::Node(id), a.property@, v),
                        ChangeView::Reindex {
                            id,
                            labels: n.labels,
                            old: n.properties,
                            new: assoc::put(n.properties, a.property@, v),
                        },
                    ],
                ),
            },
        },
        SetItem::Label { labels, .. } => Ok(
            assign::label_changes(id, ast_model::texts(labels@), false).push(
                ChangeView::RefreshIndexes { id },
            ),
        ),
        SetItem::MapMerge { value, .. } => match map_of(value, rec, m) {
            Err(e) => Err(e),
            Ok(map) => match (m.node)(id) {
                Err(e) => Err(e),
                Ok(n) => Ok(
                    settings(OwnerView::Node(id), map, false).push(
                        ChangeView::Reindex {
                            id,
                            labels: n.labels,
                            old: n.properties,
                            new: overlaid(n.properties, map),
                        },
                    ),
                ),
            },
        },
        SetItem::MapOverwrite { value, .. } => match map_of(value, rec, m) {
            Err(e) => Err(e),
            Ok(map) => match (m.node)(id) {
                Err(e) => Err(e),
                Ok(n) => Ok(
                    (settings(OwnerView::Node(id), n.properties, true) + settings(
                        OwnerView::Node(id),
                        map,
                        false,
                    )).push(
                        ChangeView::Reindex {
                            id,
                            labels: n.labels,
                            old: n.properties,
                            new: overlaid(Row::empty(), map),
                        },
                    ),
                ),
            },
        },
    }
}

/// Properties with those of a map set; null takes one out.
pub open spec fn overlaid(base: Row, map: Row) -> Row
    decreases map.len(),
{
    if map.len() == 0 {
        base
    } else {
        assign::with_entry(overlaid(base, map.drop_last()), map.last().0, map.last().1)
    }
}

/// Properties with those of a map set.
fn overlay(base: NamedRecord, map: &Vec<(String, Value)>) -> (r: NamedRecord)
    ensures
        r@ == overlaid(base@, value::props_view(map@)),
{
    let ghost first = base@;
    let ghost s = value::props_view(map@);
    let mut p = base;
    let mut i: usize = 0;
    assert(s.take(0) =~= Row::empty());
    while i < map.len()
        invariant
            i <= map.len(),
            s == value::props_view(map@),
            p@ == overlaid(first, s.take(i as int)),
        decreases map.len() - i,
    {
        assert(s.take(i + 1).drop_last() =~= s.take(i as int));
        assert(s.take(i + 1).last() == (map@[i as int].0@, map@[i as int].1@));
        assign::set_entry(&mut p, map[i].0.as_str(), &map[i].1);
        i = i + 1;
    }
    assert(s.take(s.len() as int) =~= s);
    p
}

/// What a list of changes says.
pub open spec fn changes_told(r: Result<Vec<Change>, GraphError>) -> Result<
    Seq<ChangeView>,
    ErrorView,
> {
    match r {
        Ok(v) => Ok(change::changes_view(v@)),
        Err(e) => Err(e@),
    }
}

/// Appends a change.
fn add_change(out: &mut Vec<Change>, c: Change)
    ensures
        change::changes_view(final(out)@) == change::changes_view(old(out)@).push(c@),
{
    let ghost before = change::changes_view(out@);
    out.push(c);
    assert(change::changes_view(out@) =~= before.push(c@));
}

/// What setting all properties of a node from a map does.
fn plan_node_map<S: Source>(db: &S, e: &Expr, overwrite: bool, id: NodeId, rec: &NamedRecord) -> (r: Result<
    Vec<Change>,
    GraphError,
>)
    ensures
        source::steady(*db) ==> changes_told(r) == (match map_of(*e, rec@, source::model(*db)) {
            Err(e) => Err(e),
            Ok(map) => match (source::model(*db).node)(id) {
                Err(e) => Err(e),
                Ok(n) => {
                    let sets = settings(OwnerView::Node(id), map, false);
                    let all = if overwrite {
                        settings(OwnerView::Node(id), n.properties, true) + sets
                    } else {
                        sets
                    };
                    let base = if overwrite {
                        Row::empty()
                    } else {
                        n.properties
                    };
                    Ok(
                        all.push(
                            ChangeView::Reindex {
                                id,
                                labels: n.labels,
                                old: n.properties,
                                new: overlaid(base, map),
                            },
                        ),
                    )
                },
            },
        }),
{
    let map = match resolve_to_map(db, e, rec) {
        Ok(map) => map,
        Err(e) => {
            return Err(e);
        },
    };
    let n = match source::ask_node(db, id) {
        Ok(n) => n,
        Err(e) => {
            return Err(e);
        },
    };
    let owner = Owner::Node(id);
    let mut out: Vec<Change> = Vec::new();
    assert(change::changes_view(out@) =~= Seq::<ChangeView>::empty());
    let base = if overwrite {
        set_each(&mut out, &owner, &n.properties.entries, true);
        assert(change::changes_view(out@) =~= settings(OwnerView::Node(id), n@.properties, true));
        NamedRecord::new()
    } else {
        NamedRecord { fields: assign::dup_entries(&n.properties) }
    };
    let ghost cleared = change::changes_view(out@);
    set_each(&mut out, &owner, &map.entries, false);
    proof {
        let sets = settings(OwnerView::Node(id), value::props_view(map.entries@), false);
        if !overwrite {
            assert(cleared + sets =~= sets);
        }
    }
    let new = overlay(base, &map.entries);
    add_change(
        &mut out,
        Change::Reindex { id, labels: n.labels, old: n.properties, new: new.fields },
    );
    Ok(out)
}

/// What an item of ON CREATE or ON MATCH does to a node.
pub fn apply_merge_set_item_node<S: Source>(
    db: &S,
    item: &SetItem,
    id: NodeId,
    rec: &NamedRecord,
) -> (r: Result<Vec<Change>, GraphError>)
    ensures
        source::steady(*db) ==> changes_told(r) == node_set(
            *item,
            id,
            rec@,
            source::model(*db),
        ),
{
    match item {
        SetItem::Property(a) => {
            let n = match source::ask_node(db, id) {
                Ok(n) => n,
                Err(e) => {
                    return Err(e);
                },
            };
            let mut seen = rec.dup();
            seen.set(a.variable.clone(), binding::id_value(id));
            match source::ask_eval(db, &a.value, &seen) {
                Ok(v) => {
                    let mut new = NamedRecord { fields: assign::dup_entries(&n.properties) };
                    new.set(a.property.clone(), v.dup());
                    Ok(
                        change::two_changes(
                            set_one(&Owner::Node(id), &a.property, v),
                            Change::Reindex {
                                id,
                                labels: n.labels,
                                old: n.properties,
                                new: new.fields,
                            },
                        ),
                    )
                },
                Err(e) => Err(e),
            }
        },
        SetItem::Label { labels, .. } => {
            let mut out = assign::change_labels(id, labels, false);
            add_change(&mut out, Change::RefreshIndexes { id });
            Ok(out)
        },
        SetItem::MapMerge { value, .. } => plan_node_map(db, value, false, id, rec),
        SetItem::MapOverwrite { value, .. } => plan_node_map(db, value, true, id, rec),
    }
}

/// The properties of a relationship: by its number where it is known.
pub open spec fn edge_props(
    src: NodeId,
    dst: NodeId,
    label: Seq<char>,
    seq: Option<u64>,
    m: Model,
) -> Result<Row, ErrorView> {
    match seq {
        Some(n) => (m.edge_properties_at)(src, dst, label, n),
        None => (m.edge_properties)(src, dst, label),
    }
}

/// The properties of a relationship.
pub fn find_edge_props<S: Source>(db: &S, src: NodeId, dst: NodeId, label: &str, seq: Option<u64>) -> (r: Result<
    AssocList<Value>,
    GraphError,
>)
    ensures
        source::steady(*db) ==> source::props_told(r) == edge_props(
            src,
            dst,
            label@,
            seq,
            source::model(*db),
        ),
{
    match seq {
        Some(n) => source::ask_edge_properties_at(db, src, dst, label, n),
        None => source::ask_edge_properties(db, src, dst, label),
    }
}

/// What an item of ON CREATE or ON MATCH does to a relationship. Labels do nothing.
pub open spec fn edge_set(
    item: SetItem,
    src: NodeId,
    dst: NodeId,
    label: Seq<char>,
    seq: Option<u64>,
    rec: Row,
    m: Model,
) -> Result<Seq<ChangeView>, ErrorView> {
    let owner = OwnerView::Edge { src, dst, label, seq };
    match item {
        SetItem::Property(a) => match (m.eval)(a.value@, rec) {
            Ok(v) => Ok(seq![setting(owner, a.property@, v)]),
            Err(e) => Err(e),
        },
        SetItem::Label { .. } => Ok(Seq::empty()),
        SetItem::MapMerge { value, .. } => match map_of(value, rec, m) {
            Ok(map) => Ok(settings(owner, map, false)),
            Err(e) => Err(e),
        },
        SetItem::MapOverwrite { value, .. } => match map_of(value, rec, m) {
            Ok(map) => match edge_props(src, dst, label, seq, m) {
                Ok(old) => Ok(settings(owner, old, true) + settings(owner, map, false)),
                Err(e) => Err(e),
            },
            Err(e) => Err(e),
        },
    }
}

/// What an item of ON CREATE or ON MATCH does to a relationship; `seq` is its number, where
/// there may be several of its type between its ends.
pub fn apply_merge_set_item_edge<S: Source>(
    db: &S,
    item: &SetItem,
    src: NodeId,
    dst: NodeId,
    label: &str,
    seq: Option<u64>,
    rec: &NamedRecord,
) -> (r: Result<Vec<Change>, GraphError>)
    ensures
        source::steady(*db) ==> changes_told(r) == edge_set(
            *item,
            src,
            dst,
            label@,
            seq,
            rec@,
            source::model(*db),
        ),
{
    let owner = Owner::Edge { src, dst, label: crate::text::owned(label), seq };
    let mut out: Vec<Change> = Vec::new();
    assert(change::changes_view(out@) =~= Seq::<ChangeView>::empty());
    match item {
        SetItem::Property(a) => match source::ask_eval(db, &a.value, rec) {
            Ok(v) => Ok(change::one_change(set_one(&owner, &a.property, v))),
            Err(e) => Err(e),
        },
        SetItem::Label { .. } => Ok(out),
        SetItem::MapMerge { value, .. } => match resolve_to_map(db, value, rec) {
            Ok(map) => {
                set_each(&mut out, &owner, &map.entries, false);
                proof {
                    let sets = settings(owner@, value::props_view(map.entries@), false);
                    assert(Seq::<ChangeView>::empty() + sets =~= sets);
                }
                Ok(out)
            },
            Err(e) => Err(e),
        },
        SetItem::MapOverwrite { value, .. } => match resolve_to_map(db, value, rec) {
            Ok(map) => match find_edge_props(db, src, dst, label, seq) {
                Ok(old_props) => {
                    set_each(&mut out, &owner, &old_props.entries, true);
                    proof {
                        let clears = settings(
                            owner@,
                            value::props_view(old_props.entries@),
                            true,
                        );
                        assert(Seq::<ChangeView>::empty() + clears =~= clears);
                    }
                    set_each(&mut out, &owner, &map.entries, false);
                    Ok(out)
                },
                Err(e) => Err(e),
            },
            Err(e) => Err(e),
        },
    }
}

} // verus!
