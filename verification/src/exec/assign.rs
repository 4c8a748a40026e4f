//! SET and REMOVE: the changes to make, and the row to go on with.
use crate::assoc;
use crate::assoc::AssocList;
use crate::ast::{Assignment, Expr, RemoveItem};
use crate::ast_model;
use crate::binding;
use crate::exec::arrange;
use crate::exec::project;
use crate::exec::change;
use crate::exec::change::{Change, ChangeView, Planned, PlannedView};
use crate::order;
use crate::order::Place;
use crate::record;
use crate::record::{NamedRecord, Row};
use crate::source;
use crate::source::{Model, Source};
use crate::text;
use crate::types;
use crate::types::{ErrorCode, ErrorKind, ErrorView, GraphError, NodeId, QueryPhase};
use crate::value;
use crate::value::{Value, ValueView};
use vstd::prelude::*;

verus! {

/// What a variable of a SET or REMOVE is bound to.
pub enum Target {
    Edge { src: NodeId, dst: NodeId, label: String, seq: Option<u64> },
    Node(NodeId),
    /// Nothing that can be changed, as after an OPTIONAL MATCH.
    Nothing,
}

/// What a [`Target`] says.
pub enum TargetView {
    Edge { src: NodeId, dst: NodeId, label: Seq<char>, seq: Option<u64> },
    Node(NodeId),
    Nothing,
}

impl View for Target {
    type V = TargetView;

    open spec fn view(&self) -> TargetView {
        match self {
            Target::Edge { src, dst, label, seq } => TargetView::Edge {
                src: *src,
                dst: *dst,
                label: label@,
                seq: *seq,
            },
            Target::Node(id) => TargetView::Node(*id),
            Target::Nothing => TargetView::Nothing,
        }
    }
}

/// What a variable is bound to: a relationship where its ends and its type are noted, else a
/// node where it holds an id.
pub open spec fn target(rec: Row, var: Seq<char>) -> TargetView {
    match binding::edge_ends(rec, var) {
        Some((s, d, t)) => TargetView::Edge {
            src: NodeId(s as u64),
            dst: NodeId(d as u64),
            label: t,
            seq: binding::edge_number(rec, var),
        },
        None => node_target(rec, var),
    }
}

/// The node that a variable is bound to.
pub open spec fn node_target(rec: Row, var: Seq<char>) -> TargetView {
    match binding::integer_in(assoc::lookup(rec, var)) {
        Some(id) => TargetView::Node(NodeId(id as u64)),
        None => TargetView::Nothing,
    }
}

/// What a variable is bound to.
fn find_target(rec: &NamedRecord, var: &str) -> (r: Target)
    ensures
        r@ == target(rec@, var@),
{
    match binding::edge_fields(rec, var) {
        Some((s, d, t)) => Target::Edge {
            src: NodeId(s as u64),
            dst: NodeId(d as u64),
            label: t,
            seq: binding::edge_seq(rec, var),
        },
        None => find_node_target(rec, var),
    }
}

/// The node that a variable is bound to.
fn find_node_target(rec: &NamedRecord, var: &str) -> (r: Target)
    ensures
        r@ == node_target(rec@, var@),
{
    match binding::integer_field(rec, var) {
        Some(id) => Target::Node(NodeId(id as u64)),
        None => Target::Nothing,
    }
}

/// A value can be stored as a property: it is no map, node, relationship or path, and no list
/// that holds one.
pub open spec fn storable(v: ValueView) -> bool
    decreases v,
{
    match v {
        ValueView::MapValue(_) => false,
        ValueView::Node(_) => false,
        ValueView::Edge(_) => false,
        ValueView::Path(_) => false,
        ValueView::List(items) => all_storable(items),
        _ => true,
    }
}

/// All values can be stored as properties.
pub open spec fn all_storable(s: Seq<ValueView>) -> bool
    decreases s,
{
    s.len() == 0 || (all_storable(s.drop_last()) && storable(s.last()))
}

/// A list with a value that cannot be stored cannot be stored.
proof fn lemma_storable_stops(s: Seq<ValueView>, i: int)
    requires
        0 <= i <= s.len(),
        !all_storable(s.take(i)),
    ensures
        !all_storable(s),
    decreases s.len(),
{
    if i < s.len() {
        assert(s.drop_last().take(i) =~= s.take(i));
        lemma_storable_stops(s.drop_last(), i);
    } else {
        assert(s.take(i) =~= s);
    }
}

/// The fault of a value that cannot be stored.
pub open spec fn unstorable() -> ErrorView {
    types::query_error(
        ErrorKind::Type,
        QueryPhase::Runtime,
        ErrorCode::InvalidPropertyType,
        "maps, nodes, relationships, and paths cannot be stored as properties"@,
        None,
        None,
    )
}

/// Refuses a value that cannot be stored as a property.
pub fn validate_property_value(v: &Value) -> (r: Result<(), GraphError>)
    ensures
        types::verdict(r) == (if storable(v@) {
            Ok(())
        } else {
            Err(unstorable())
        }),
{
    if is_storable(v) {
        Ok(())
    } else {
        Err(
            GraphError::type_error(
                QueryPhase::Runtime,
                ErrorCode::InvalidPropertyType,
                text::owned("maps, nodes, relationships, and paths cannot be stored as properties"),
            ),
        )
    }
}

/// True when a value can be stored as a property.
fn is_storable(v: &Value) -> (r: bool)
    ensures
        r == storable(v@),
    decreases v,
{
    match v {
        Value::MapValue(_) => false,
        Value::Node(_) => false,
        Value::Edge(_) => false,
        Value::Path(_) => false,
        Value::List(items) => are_storable(items),
        _ => true,
    }
}

/// True when all values can be stored as properties.
fn are_storable(items: &Vec<Value>) -> (r: bool)
    ensures
        r == all_storable(value::values_view(items@)),
    decreases items,
{
    let ghost s = value::values_view(items@);
    let mut i: usize = 0;
    assert(decreases_to!(items => items@));
    assert(s.take(0) =~= Seq::<ValueView>::empty());
    while i < items.len()
        invariant
            i <= items.len(),
            decreases_to!(items => items@),
            s == value::values_view(items@),
            all_storable(s.take(i as int)),
        decreases items.len() - i,
    {
        assert(s.take(i + 1).drop_last() =~= s.take(i as int));
        assert(s.take(i + 1).last() == items@[i as int]@);
        if !is_storable(&items[i]) {
            proof {
                lemma_storable_stops(s, i + 1);
            }
            return false;
        }
        i = i + 1;
    }
    assert(s.take(s.len() as int) =~= s);
    true
}

/// The entries with one of them set; null takes it out.
pub open spec fn with_entry(s: Row, key: Seq<char>, v: ValueView) -> Row {
    if v is Null {
        assoc::swapped_out(s, key)
    } else {
        assoc::put(s, key, v)
    }
}

/// Sets an entry; null takes it out.
pub fn set_entry(rec: &mut NamedRecord, key: &str, v: &Value)
    ensures
        final(rec)@ == with_entry(old(rec)@, key@, v@),
{
    match v {
        Value::Null => {
            rec.remove(key);
        },
        _ => {
            rec.set(text::owned(key), v.dup());
        },
    }
}

/// A copy of properties.
pub fn dup_entries(p: &AssocList<Value>) -> (r: AssocList<Value>)
    ensures
        value::props_view(r.entries@) == value::props_view(p.entries@),
{
    AssocList { entries: value::dup_props(&p.entries) }
}

/// The label under which indexes are kept: the first.
pub open spec fn primary(labels: Seq<Seq<char>>) -> Seq<Seq<char>> {
    seq![
        if labels.len() > 0 {
            labels[0]
        } else {
            ""@
        },
    ]
}

/// The label under which indexes are kept.
fn primary_label(labels: &Vec<String>) -> (r: Vec<String>)
    ensures
        ast_model::texts(r@) == primary(ast_model::texts(labels@)),
{
    let mut r: Vec<String> = Vec::new();
    if labels.len() > 0 {
        r.push(labels[0].clone());
    } else {
        r.push(text::owned(""));
    }
    assert(ast_model::texts(r@) =~= primary(ast_model::texts(labels@)));
    r
}

/// The value to assign: what the expression gives, where it can be stored.
pub open spec fn assigned_value(rec: Row, e: Expr, m: Model) -> Result<ValueView, ErrorView> {
    match (m.eval)(e@, rec) {
        Ok(v) => if storable(v) {
            Ok(v)
        } else {
            Err(unstorable())
        },
        Err(e) => Err(e),
    }
}

/// The value to assign.
fn find_assigned_value<S: Source>(db: &S, rec: &NamedRecord, e: &Expr) -> (r: Result<
    Value,
    GraphError,
>)
    ensures
        source::steady(*db) ==> types::outcome(r) == assigned_value(
            rec@,
            *e,
            source::model(*db),
        ),
{
    match source::ask_eval(db, e, rec) {
        Ok(v) => match validate_property_value(&v) {
            Ok(_) => Ok(v),
            Err(e) => Err(e),
        },
        Err(e) => Err(e),
    }
}

/// What setting a property does.
pub open spec fn assigned(rec: Row, a: Assignment, m: Model) -> Result<PlannedView, ErrorView> {
    match target(rec, a.variable@) {
        TargetView::Nothing => Ok(change::nothing(rec)),
        TargetView::Edge { src, dst, label, seq } => match assigned_value(rec, a.value, m) {
            Ok(v) => Ok(
                PlannedView {
                    changes: seq![
                        ChangeView::SetEdgeProperty {
                            src,
                            dst,
                            label,
                            seq,
                            property: a.property@,
                            value: v,
                        },
                    ],
                    row: with_entry(rec, text::dotted(a.variable@, a.property@), v),
                },
            ),
            Err(e) => Err(e),
        },
        TargetView::Node(id) => match (m.node)(id) {
            Ok(n) => match assigned_value(rec, a.value, m) {
                Ok(v) => Ok(
                    PlannedView {
                        changes: seq![
                            ChangeView::SetNodeProperty { id, property: a.property@, value: v },
                            ChangeView::Reindex {
                                id,
                                labels: primary(n.labels),
                                old: n.properties,
                                new: with_entry(n.properties, a.property@, v),
                            },
                        ],
                        row: with_entry(rec, text::dotted(a.variable@, a.property@), v),
                    },
                ),
                Err(e) => Err(e),
            },
            Err(e) => Err(e),
        },
    }
}

/// What setting a property does.
pub fn plan_assignment<S: Source>(db: &S, rec: &NamedRecord, a: &Assignment) -> (r: Result<
    Planned,
    GraphError,
>)
    ensures
        source::steady(*db) ==> types::outcome(r) == assigned(rec@, *a, source::model(*db)),
{
    match find_target(rec, a.variable.as_str()) {
        Target::Nothing => Ok(change::plan_nothing(rec)),
        Target::Edge { src, dst, label, seq } => match find_assigned_value(db, rec, &a.value) {
            Ok(v) => {
                let mut row = rec.dup();
                set_entry(
                    &mut row,
                    text::field(a.variable.as_str(), a.property.as_str()).as_str(),
                    &v,
                );
                let changes = change::one_change(
                    Change::SetEdgeProperty {
                        src,
                        dst,
                        label,
                        seq,
                        property: a.property.clone(),
                        value: v,
                    },
                );
                Ok(Planned { changes, row })
            },
            Err(e) => Err(e),
        },
        Target::Node(id) => match source::ask_node(db, id) {
            Ok(n) => match find_assigned_value(db, rec, &a.value) {
                Ok(v) => {
                    let mut row = rec.dup();
                    set_entry(
                        &mut row,
                        text::field(a.variable.as_str(), a.property.as_str()).as_str(),
                        &v,
                    );
                    let mut new = NamedRecord { fields: dup_entries(&n.properties) };
                    set_entry(&mut new, a.property.as_str(), &v);
                    let changes = change::two_changes(
                        Change::SetNodeProperty { id, property: a.property.clone(), value: v },
                        Change::Reindex {
                            id,
                            labels: primary_label(&n.labels),
                            old: n.properties,
                            new: new.fields,
                        },
                    );
                    Ok(Planned { changes, row })
                },
                Err(e) => Err(e),
            },
            Err(e) => Err(e),
        },
    }
}

/// The text of a label in a list of labels; what is no text counts as the empty one.
pub open spec fn label_text(v: ValueView) -> Seq<char> {
    match v {
        ValueView::String(s) => s,
        _ => ""@,
    }
}

/// The order of labels.
pub open spec fn label_before() -> spec_fn(ValueView, ValueView) -> bool {
    |a: ValueView, b: ValueView| order::by_text(label_text(a), label_text(b)) == Place::Before
}

/// The text of a label.
fn text_of_label(v: &Value) -> (r: String)
    ensures
        r@ == label_text(v@),
{
    match v {
        Value::String(s) => s.clone(),
        _ => text::owned(""),
    }
}

/// True when a label comes before another.
fn is_label_before(a: &Value, b: &Value) -> (r: bool)
    ensures
        r == label_before()(a@, b@),
{
    order::place_texts(&text_of_label(a), &text_of_label(b)) == Place::Before
}

/// Puts a label into its place in an ordered list.
fn insert_label(v: &mut Vec<Value>, x: Value)
    ensures
        value::values_view(final(v)@) == arrange::sorted_in(
            value::values_view(old(v)@),
            x@,
            label_before(),
        ),
{
    let ghost s = value::values_view(v@);
    let ghost before = label_before();
    let mut at = v.len();
    while at > 0 && is_label_before(&x, &v[at - 1])
        invariant
            at <= v.len(),
            s == value::values_view(v@),
            before == label_before(),
            forall|j: int| at <= j < s.len() ==> before(x@, #[trigger] s[j]),
        decreases at,
    {
        at = at - 1;
        assert(s[at as int] == v@[at as int]@);
    }
    proof {
        if at > 0 {
            assert(s[at - 1] == v@[at - 1]@);
        }
        arrange::lemma_sorted_in(s, x@, before, at as int);
    }
    v.insert(at, x);
    assert(value::values_view(v@) =~= s.insert(at as int, x@));
}

/// The labels in order.
fn sort_labels(v: Vec<Value>) -> (r: Vec<Value>)
    ensures
        value::values_view(r@) == arrange::sorted(value::values_view(v@), label_before()),
{
    let ghost s = value::values_view(v@);
    let mut out: Vec<Value> = Vec::new();
    let mut i: usize = 0;
    assert(s.take(0) =~= Seq::<ValueView>::empty());
    assert(value::values_view(out@) =~= Seq::<ValueView>::empty());
    while i < v.len()
        invariant
            i <= v.len(),
            s == value::values_view(v@),
            value::values_view(out@) == arrange::sorted(s.take(i as int), label_before()),
        decreases v.len() - i,
    {
        assert(s.take(i + 1).drop_last() =~= s.take(i as int));
        assert(s.take(i + 1).last() == v@[i as int]@);
        insert_label(&mut out, v[i].dup());
        i = i + 1;
    }
    assert(s.take(s.len() as int) =~= s);
    out
}

/// A label is in a list of labels.
pub open spec fn has_label(s: Seq<ValueView>, label: Seq<char>) -> bool {
    exists|i: int| 0 <= i < s.len() && order::same(#[trigger] s[i], ValueView::String(label))
}

/// True when a label is in a list of labels.
fn holds_label(v: &Vec<Value>, label: &String) -> (r: bool)
    ensures
        r == has_label(value::values_view(v@), label@),
{
    let ghost s = value::values_view(v@);
    let x = Value::String(label.clone());
    let mut i: usize = 0;
    while i < v.len()
        invariant
            i <= v.len(),
            s == value::values_view(v@),
            x@ == ValueView::String(label@),
            forall|j: int| 0 <= j < i ==> !order::same(#[trigger] s[j], x@),
        decreases v.len() - i,
    {
        assert(s[i as int] == v@[i as int]@);
        if order::equal(&v[i], &x) {
            return true;
        }
        i = i + 1;
    }
    false
}

/// A list of labels with those of `more` that it lacks.
pub open spec fn labelled(s: Seq<ValueView>, more: Seq<Seq<char>>) -> Seq<ValueView>
    decreases more.len(),
{
    if more.len() == 0 {
        s
    } else {
        let t = labelled(s, more.drop_last());
        if has_label(t, more.last()) {
            t
        } else {
            t.push(ValueView::String(more.last()))
        }
    }
}

/// Adds those labels that a list lacks.
fn add_labels(v: Vec<Value>, more: &Vec<String>) -> (r: Vec<Value>)
    ensures
        value::values_view(r@) == labelled(value::values_view(v@), ast_model::texts(more@)),
{
    let ghost s = value::values_view(v@);
    let ghost t = ast_model::texts(more@);
    let mut out = v;
    let mut i: usize = 0;
    assert(t.take(0) =~= Seq::<Seq<char>>::empty());
    while i < more.len()
        invariant
            i <= more.len(),
            t == ast_model::texts(more@),
            value::values_view(out@) == labelled(s, t.take(i as int)),
        decreases more.len() - i,
    {
        assert(t.take(i + 1).drop_last() =~= t.take(i as int));
        assert(t.take(i + 1).last() == more@[i as int]@);
        if !holds_label(&out, &more[i]) {
            let ghost before = value::values_view(out@);
            out.push(Value::String(more[i].clone()));
            assert(value::values_view(out@) =~= before.push(ValueView::String(more@[i as int]@)));
        }
        i = i + 1;
    }
    assert(t.take(t.len() as int) =~= t);
    out
}

/// The texts in a list of labels.
pub open spec fn label_texts(s: Seq<ValueView>) -> Seq<Seq<char>>
    decreases s.len(),
{
    if s.len() == 0 {
        Seq::empty()
    } else {
        let t = label_texts(s.drop_last());
        match s.last() {
            ValueView::String(x) => t.push(x),
            _ => t,
        }
    }
}

/// The texts in a list of labels.
fn find_label_texts(v: &Vec<Value>) -> (r: Vec<String>)
    ensures
        ast_model::texts(r@) == label_texts(value::values_view(v@)),
{
    let ghost s = value::values_view(v@);
    let mut out: Vec<String> = Vec::new();
    let mut i: usize = 0;
    assert(s.take(0) =~= Seq::<ValueView>::empty());
    assert(ast_model::texts(out@) =~= Seq::<Seq<char>>::empty());
    while i < v.len()
        invariant
            i <= v.len(),
            s == value::values_view(v@),
            ast_model::texts(out@) == label_texts(s.take(i as int)),
        decreases v.len() - i,
    {
        assert(s.take(i + 1).drop_last() =~= s.take(i as int));
        assert(s.take(i + 1).last() == v@[i as int]@);
        match &v[i] {
            Value::String(x) => {
                let ghost before = ast_model::texts(out@);
                out.push(x.clone());
                assert(ast_model::texts(out@) =~= before.push(x@));
            },
            _ => {},
        }
        i = i + 1;
    }
    assert(s.take(s.len() as int) =~= s);
    out
}

/// The changes that add labels to a node, or take them away.
pub open spec fn label_changes(id: NodeId, labels: Seq<Seq<char>>, remove: bool) -> Seq<ChangeView> {
    Seq::new(
        labels.len(),
        |i: int|
            if remove {
                ChangeView::RemoveLabel { id, label: labels[i] }
            } else {
                ChangeView::AddLabel { id, label: labels[i] }
            },
    )
}

/// The changes that add labels to a node, or take them away.
pub fn change_labels(id: NodeId, labels: &Vec<String>, remove: bool) -> (r: Vec<Change>)
    ensures
        change::changes_view(r@) == label_changes(id, ast_model::texts(labels@), remove),
{
    let ghost whole = label_changes(id, ast_model::texts(labels@), remove);
    let mut out: Vec<Change> = Vec::new();
    let mut i: usize = 0;
    while i < labels.len()
        invariant
            i <= labels.len(),
            whole == label_changes(id, ast_model::texts(labels@), remove),
            change::changes_view(out@) == whole.take(i as int),
        decreases labels.len() - i,
    {
        let ghost before = change::changes_view(out@);
        let c = if remove {
            Change::RemoveLabel { id, label: labels[i].clone() }
        } else {
            Change::AddLabel { id, label: labels[i].clone() }
        };
        out.push(c);
        assert(change::changes_view(out@) =~= before.push(c@));
        assert(whole.take(i + 1) =~= whole.take(i as int).push(whole[i as int]));
        i = i + 1;
    }
    assert(whole.take(whole.len() as int) =~= whole);
    out
}

/// The row with labels added to a variable.
pub open spec fn relabelled(rec: Row, var: Seq<char>, labels: Seq<Seq<char>>) -> Row {
    match assoc::lookup(rec, text::dotted(var, "__labels"@)) {
        Some(ValueView::List(current)) => {
            let updated = arrange::sorted(labelled(current, labels), label_before());
            let joined = assoc::put(
                rec,
                text::dotted(var, "__label"@),
                ValueView::String(text::joined(label_texts(updated), ':')),
            );
            assoc::put(joined, text::dotted(var, "__labels"@), ValueView::List(updated))
        },
        _ => rec,
    }
}

/// What adding labels to a node does.
pub open spec fn labels_set(rec: Row, var: Seq<char>, labels: Seq<Seq<char>>) -> PlannedView {
    match node_target(rec, var) {
        TargetView::Node(id) => PlannedView {
            changes: label_changes(id, labels, false),
            row: relabelled(rec, var, labels),
        },
        _ => change::nothing(rec),
    }
}

/// What adding labels to a node does.
pub fn plan_labels(rec: &NamedRecord, var: &str, labels: &Vec<String>) -> (r: Planned)
    ensures
        r@ == labels_set(rec@, var@, ast_model::texts(labels@)),
{
    match find_node_target(rec, var) {
        Target::Node(id) => {
            let mut row = rec.dup();
            match rec.get(text::field(var, "__labels").as_str()) {
                Some(Value::List(current)) => {
                    let updated = sort_labels(add_labels(value::dup_values(current), labels));
                    let joined = text::join(&find_label_texts(&updated), ':');
                    row.set(text::field(var, "__label"), Value::String(joined));
                    row.set(text::field(var, "__labels"), Value::List(updated));
                },
                _ => {},
            }
            Planned { changes: change_labels(id, labels, false), row }
        },
        _ => change::plan_nothing(rec),
    }
}

/// The properties with those of a map set. With `check`, each must be storable.
pub open spec fn merged(base: Row, map: Row, check: bool) -> Result<Row, ErrorView>
    decreases map.len(),
{
    if map.len() == 0 {
        Ok(base)
    } else {
        match merged(base, map.drop_last(), check) {
            Ok(p) => if check && !storable(map.last().1) {
                Err(unstorable())
            } else {
                Ok(with_entry(p, map.last().0, map.last().1))
            },
            Err(e) => Err(e),
        }
    }
}

/// The first value that cannot be stored decides.
proof fn lemma_merged_stops(base: Row, map: Row, check: bool, i: int)
    requires
        0 <= i <= map.len(),
        merged(base, map.take(i), check) is Err,
    ensures
        merged(base, map, check) == merged(base, map.take(i), check),
    decreases map.len(),
{
    if i < map.len() {
        assert(map.drop_last().take(i) =~= map.take(i));
        lemma_merged_stops(base, map.drop_last(), check, i);
    } else {
        assert(map.take(i) =~= map);
    }
}

/// The properties with those of a map set.
pub fn merge_props(base: NamedRecord, map: &Vec<(String, Value)>, check: bool) -> (r: Result<
    NamedRecord,
    GraphError,
>)
    ensures
        types::outcome(r) == merged(base@, value::props_view(map@), check),
{
    let ghost first = base@;
    let ghost s = value::props_view(map@);
    let mut p = base;
    let mut i: usize = 0;
    assert(s.take(0) =~= Row::empty());
    while i < map.len()
        invariant
            i <= map.len(),
            first == base@,
            s == value::props_view(map@),
            merged(first, s.take(i as int), check) == Ok::<Row, ErrorView>(p@),
        decreases map.len() - i,
    {
        assert(s.take(i + 1).drop_last() =~= s.take(i as int));
        assert(s.take(i + 1).last() == (map@[i as int].0@, map@[i as int].1@));
        if check {
            match validate_property_value(&map[i].1) {
                Ok(_) => {},
                Err(e) => {
                    proof {
                        lemma_merged_stops(first, s, check, i + 1);
                    }
                    return Err(e);
                },
            }
        }
        set_entry(&mut p, map[i].0.as_str(), &map[i].1);
        i = i + 1;
    }
    assert(s.take(s.len() as int) =~= s);
    Ok(p)
}

/// A row without the fields of a variable for some properties.
pub open spec fn stripped(rec: Row, var: Seq<char>, props: Row) -> Row
    decreases props.len(),
{
    if props.len() == 0 {
        rec
    } else {
        assoc::swapped_out(
            stripped(rec, var, props.drop_last()),
            text::dotted(var, props.last().0),
        )
    }
}

/// A row in which the properties of a variable are replaced.
pub open spec fn reset(rec: Row, var: Seq<char>, old: Row, new: Row) -> Row {
    record::put_all(stripped(rec, var, old), record::fields_of(var, new))
}

/// A row in which the properties of a variable are replaced.
fn reset_row(
    rec: &NamedRecord,
    var: &str,
    old_props: &Vec<(String, Value)>,
    new_props: &Vec<(String, Value)>,
) -> (r: NamedRecord)
    ensures
        r@ == reset(rec@, var@, value::props_view(old_props@), value::props_view(new_props@)),
{
    let ghost s = value::props_view(old_props@);
    let mut row = rec.dup();
    let mut i: usize = 0;
    assert(s.take(0) =~= Row::empty());
    while i < old_props.len()
        invariant
            i <= old_props.len(),
            s == value::props_view(old_props@),
            row@ == stripped(rec@, var@, s.take(i as int)),
        decreases old_props.len() - i,
    {
        assert(s.take(i + 1).drop_last() =~= s.take(i as int));
        assert(s.take(i + 1).last() == (old_props@[i as int].0@, old_props@[i as int].1@));
        row.remove(text::field(var, old_props[i].0.as_str()).as_str());
        i = i + 1;
    }
    assert(s.take(s.len() as int) =~= s);
    row.set_fields(var, new_props);
    row
}

/// The number of the relationship to change: the one that is noted, else that of the first one
/// of its type between its ends.
pub open spec fn number_of(
    src: NodeId,
    dst: NodeId,
    label: Seq<char>,
    seq: Option<u64>,
    m: Model,
) -> Result<u64, ErrorView> {
    match seq {
        Some(n) => Ok(n),
        None => match (m.all_edge_props)(src, dst, label) {
            Ok(all) => Ok(
                if all.len() > 0 {
                    all[0].0
                } else {
                    0
                },
            ),
            Err(e) => Err(e),
        },
    }
}

/// What a number says.
pub open spec fn number_told(r: Result<u64, GraphError>) -> Result<u64, ErrorView> {
    match r {
        Ok(n) => Ok(n),
        Err(e) => Err(e@),
    }
}

/// The number of the relationship to change.
fn find_number<S: Source>(db: &S, src: NodeId, dst: NodeId, label: &str, seq: Option<u64>) -> (r: Result<
    u64,
    GraphError,
>)
    ensures
        source::steady(*db) ==> number_told(r) == number_of(
            src,
            dst,
            label@,
            seq,
            source::model(*db),
        ),
{
    match seq {
        Some(n) => Ok(n),
        None => match source::ask_all_edge_props(db, src, dst, label) {
            Ok(all) => {
                if all.len() > 0 {
                    Ok(all[0].0)
                } else {
                    Ok(0)
                }
            },
            Err(e) => Err(e),
        },
    }
}

/// What setting all properties of a relationship does.
pub open spec fn edge_reset(
    rec: Row,
    var: Seq<char>,
    src: NodeId,
    dst: NodeId,
    label: Seq<char>,
    seq: u64,
    map: Row,
    merge: bool,
    m: Model,
) -> Result<PlannedView, ErrorView> {
    match (m.edge_properties_at)(src, dst, label, seq) {
        Ok(old) => match merged(
            if merge {
                old
            } else {
                Row::empty()
            },
            map,
            true,
        ) {
            Ok(new) => Ok(
                PlannedView {
                    changes: seq![
                        ChangeView::SetEdgeProperties { src, dst, label, seq, properties: new },
                    ],
                    row: reset(rec, var, old, new),
                },
            ),
            Err(e) => Err(e),
        },
        Err(e) => Err(e),
    }
}

/// What setting all properties of a relationship does.
fn plan_edge_reset<S: Source>(
    db: &S,
    rec: &NamedRecord,
    var: &str,
    src: NodeId,
    dst: NodeId,
    label: String,
    seq: u64,
    map: &Vec<(String, Value)>,
    merge: bool,
) -> (r: Result<Planned, GraphError>)
    ensures
        source::steady(*db) ==> types::outcome(r) == edge_reset(
            rec@,
            var@,
            src,
            dst,
            label@,
            seq,
            value::props_view(map@),
            merge,
            source::model(*db),
        ),
{
    match source::ask_edge_properties_at(db, src, dst, label.as_str(), seq) {
        Ok(old) => {
            let base = if merge {
                NamedRecord { fields: dup_entries(&old) }
            } else {
                NamedRecord::new()
            };
            match merge_props(base, map, true) {
                Ok(new) => {
                    let row = reset_row(rec, var, &old.entries, &new.fields.entries);
                    let changes = change::one_change(
                        Change::SetEdgeProperties { src, dst, label, seq, properties: new.fields },
                    );
                    Ok(Planned { changes, row })
                },
                Err(e) => Err(e),
            }
        },
        Err(e) => Err(e),
    }
}

/// What setting all properties of a node does.
pub open spec fn node_reset(
    rec: Row,
    var: Seq<char>,
    id: NodeId,
    map: Row,
    merge: bool,
    m: Model,
) -> Result<PlannedView, ErrorView> {
    match (m.node)(id) {
        Ok(n) => match merged(
            if merge {
                n.properties
            } else {
                Row::empty()
            },
            map,
            false,
        ) {
            Ok(new) => Ok(
                PlannedView {
                    changes: seq![
                        ChangeView::SetNodeProperties { id, properties: new },
                        ChangeView::Reindex {
                            id,
                            labels: primary(n.labels),
                            old: n.properties,
                            new,
                        },
                    ],
                    row: reset(rec, var, n.properties, new),
                },
            ),
            Err(e) => Err(e),
        },
        Err(e) => Err(e),
    }
}

/// What setting all properties of a node does.
fn plan_node_reset<S: Source>(
    db: &S,
    rec: &NamedRecord,
    var: &str,
    id: NodeId,
    map: &Vec<(String, Value)>,
    merge: bool,
) -> (r: Result<Planned, GraphError>)
    ensures
        source::steady(*db) ==> types::outcome(r) == node_reset(
            rec@,
            var@,
            id,
            value::props_view(map@),
            merge,
            source::model(*db),
        ),
{
    match source::ask_node(db, id) {
        Ok(n) => {
            let base = if merge {
                NamedRecord { fields: dup_entries(&n.properties) }
            } else {
                NamedRecord::new()
            };
            match merge_props(base, map, false) {
                Ok(new) => {
                    let row = reset_row(rec, var, &n.properties.entries, &new.fields.entries);
                    let copy = dup_entries(&new.fields);
                    let changes = change::two_changes(
                        Change::SetNodeProperties { id, properties: new.fields },
                        Change::Reindex {
                            id,
                            labels: primary_label(&n.labels),
                            old: n.properties,
                            new: copy,
                        },
                    );
                    Ok(Planned { changes, row })
                },
                Err(e) => Err(e),
            }
        },
        Err(e) => Err(e),
    }
}

/// The fault of a SET from something that is no map.
pub open spec fn needs_map() -> ErrorView {
    types::semantic_error(ErrorCode::Other, "SET properties requires a map value"@)
}

/// The fault of a SET from something that is no map.
fn needs_map_error() -> (r: GraphError)
    ensures
        r@ == needs_map(),
{
    GraphError::semantic(ErrorCode::Other, text::owned("SET properties requires a map value"))
}

/// What setting all properties at once does; with `merge`, those that a map does not name stay.
pub open spec fn properties_set(rec: Row, var: Seq<char>, e: Expr, merge: bool, m: Model) -> Result<
    PlannedView,
    ErrorView,
> {
    match target(rec, var) {
        TargetView::Nothing => Ok(change::nothing(rec)),
        TargetView::Edge { src, dst, label, seq } => match number_of(src, dst, label, seq, m) {
            Err(e) => Err(e),
            Ok(n) => match (m.eval)(e@, rec) {
                Ok(ValueView::MapValue(map)) => edge_reset(
                    rec,
                    var,
                    src,
                    dst,
                    label,
                    n,
                    map,
                    merge,
                    m,
                ),
                Ok(ValueView::Null) => Ok(change::nothing(rec)),
                Ok(_) => Err(needs_map()),
                Err(e) => Err(e),
            },
        },
        TargetView::Node(id) => match (m.eval)(e@, rec) {
            Ok(ValueView::MapValue(map)) => node_reset(rec, var, id, map, merge, m),
            Ok(ValueView::Null) => Ok(change::nothing(rec)),
            Ok(_) => Err(needs_map()),
            Err(e) => Err(e),
        },
    }
}

/// What setting all properties at once does.
pub fn plan_properties<S: Source>(db: &S, rec: &NamedRecord, var: &str, e: &Expr, merge: bool) -> (r: Result<
    Planned,
    GraphError,
>)
    ensures
        source::steady(*db) ==> types::outcome(r) == properties_set(
            rec@,
            var@,
            *e,
            merge,
            source::model(*db),
        ),
{
    match find_target(rec, var) {
        Target::Nothing => Ok(change::plan_nothing(rec)),
        Target::Edge { src, dst, label, seq } => match find_number(db, src, dst, label.as_str(), seq) {
            Err(e) => Err(e),
            Ok(n) => match source::ask_eval(db, e, rec) {
                Ok(Value::MapValue(map)) => plan_edge_reset(
                    db,
                    rec,
                    var,
                    src,
                    dst,
                    label,
                    n,
                    &map.entries,
                    merge,
                ),
                Ok(Value::Null) => Ok(change::plan_nothing(rec)),
                Ok(_) => Err(needs_map_error()),
                Err(e) => Err(e),
            },
        },
        Target::Node(id) => match source::ask_eval(db, e, rec) {
            Ok(Value::MapValue(map)) => plan_node_reset(db, rec, var, id, &map.entries, merge),
            Ok(Value::Null) => Ok(change::plan_nothing(rec)),
            Ok(_) => Err(needs_map_error()),
            Err(e) => Err(e),
        },
    }
}

/// A list of labels without some of them.
pub open spec fn unlabelled(s: Seq<ValueView>, less: Seq<Seq<char>>) -> Seq<ValueView>
    decreases s.len(),
{
    if s.len() == 0 {
        Seq::empty()
    } else {
        let t = unlabelled(s.drop_last(), less);
        match s.last() {
            ValueView::String(x) if less.contains(x) => t,
            _ => t.push(s.last()),
        }
    }
}

/// A list of labels without some of them.
fn drop_labels(v: &Vec<Value>, less: &Vec<String>) -> (r: Vec<Value>)
    ensures
        value::values_view(r@) == unlabelled(value::values_view(v@), ast_model::texts(less@)),
{
    let ghost s = value::values_view(v@);
    let ghost t = ast_model::texts(less@);
    let mut out: Vec<Value> = Vec::new();
    let mut i: usize = 0;
    assert(s.take(0) =~= Seq::<ValueView>::empty());
    assert(value::values_view(out@) =~= Seq::<ValueView>::empty());
    while i < v.len()
        invariant
            i <= v.len(),
            s == value::values_view(v@),
            t == ast_model::texts(less@),
            value::values_view(out@) == unlabelled(s.take(i as int), t),
        decreases v.len() - i,
    {
        assert(s.take(i + 1).drop_last() =~= s.take(i as int));
        assert(s.take(i + 1).last() == v@[i as int]@);
        let gone = match &v[i] {
            Value::String(x) => project::has_text(less, x.as_str()),
            _ => false,
        };
        if !gone {
            let ghost before = value::values_view(out@);
            out.push(v[i].dup());
            assert(value::values_view(out@) =~= before.push(v@[i as int]@));
        }
        i = i + 1;
    }
    assert(s.take(s.len() as int) =~= s);
    out
}

/// What removing a property or labels does.
pub open spec fn removed(rec: Row, item: RemoveItem, m: Model) -> Result<PlannedView, ErrorView> {
    match item {
        RemoveItem::Property { variable, property } => {
            let row = assoc::swapped_out(rec, text::dotted(variable@, property@));
            match target(rec, variable@) {
                TargetView::Nothing => Ok(change::nothing(rec)),
                TargetView::Edge { src, dst, label, seq } => Ok(
                    PlannedView {
                        changes: seq![
                            ChangeView::SetEdgeProperty {
                                src,
                                dst,
                                label,
                                seq,
                                property: property@,
                                value: ValueView::Null,
                            },
                        ],
                        row,
                    },
                ),
                TargetView::Node(id) => match (m.node)(id) {
                    Ok(n) => Ok(
                        PlannedView {
                            changes: seq![
                                ChangeView::RemoveNodeProperty { id, property: property@ },
                                ChangeView::Reindex {
                                    id,
                                    labels: primary(n.labels),
                                    old: n.properties,
                                    new: assoc::swapped_out(n.properties, property@),
                                },
                            ],
                            row,
                        },
                    ),
                    Err(e) => Err(e),
                },
            }
        },
        RemoveItem::Label { variable, labels } => match node_target(rec, variable@) {
            TargetView::Node(id) => Ok(
                PlannedView {
                    changes: label_changes(id, ast_model::texts(labels@), true),
                    row: match assoc::lookup(rec, text::dotted(variable@, "__labels"@)) {
                        Some(ValueView::List(current)) => assoc::put(
                            rec,
                            text::dotted(variable@, "__labels"@),
                            ValueView::List(unlabelled(current, ast_model::texts(labels@))),
                        ),
                        _ => rec,
                    },
                },
            ),
            _ => Ok(change::nothing(rec)),
        },
    }
}

/// What removing a property or labels does.
pub fn plan_removal<S: Source>(db: &S, rec: &NamedRecord, item: &RemoveItem) -> (r: Result<
    Planned,
    GraphError,
>)
    ensures
        source::steady(*db) ==> types::outcome(r) == removed(rec@, *item, source::model(*db)),
{
    match item {
        RemoveItem::Property { variable, property } => {
            let mut row = rec.dup();
            row.remove(text::field(variable.as_str(), property.as_str()).as_str());
            match find_target(rec, variable.as_str()) {
                Target::Nothing => Ok(change::plan_nothing(rec)),
                Target::Edge { src, dst, label, seq } => {
                    let changes = change::one_change(
                        Change::SetEdgeProperty {
                            src,
                            dst,
                            label,
                            seq,
                            property: property.clone(),
                            value: Value::Null,
                        },
                    );
                    Ok(Planned { changes, row })
                },
                Target::Node(id) => match source::ask_node(db, id) {
                    Ok(n) => {
                        let mut new = NamedRecord { fields: dup_entries(&n.properties) };
                        new.remove(property.as_str());
                        let changes = change::two_changes(
                            Change::RemoveNodeProperty { id, property: property.clone() },
                            Change::Reindex {
                                id,
                                labels: primary_label(&n.labels),
                                old: n.properties,
                                new: new.fields,
                            },
                        );
                        Ok(Planned { changes, row })
                    },
                    Err(e) => Err(e),
                },
            }
        },
        RemoveItem::Label { variable, labels } => match find_node_target(rec, variable.as_str()) {
            Target::Node(id) => {
                let mut row = rec.dup();
                match rec.get(text::field(variable.as_str(), "__labels").as_str()) {
                    Some(Value::List(current)) => {
                        row.set(
                            text::field(variable.as_str(), "__labels"),
                            Value::List(drop_labels(current, labels)),
                        );
                    },
                    _ => {},
                }
                Ok(Planned { changes: change_labels(id, labels, true), row })
            },
            _ => Ok(change::plan_nothing(rec)),
        },
    }
}

} // verus!
