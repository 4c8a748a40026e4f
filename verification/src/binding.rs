//! How nodes and relationships stand in rows.
//!
//! A variable bound to a node or a relationship is spread over several fields: the variable
//! itself, its properties as `var.property`, and `var.__id`, `var.__label`, `var.__labels` for
//! a node or `var.__src`, `var.__dst`, `var.__type`, `var.__edge_seq` for a relationship.
use crate::assoc;
use crate::assoc::AssocList;
use crate::ast_model;
use crate::order;
use crate::order::Place;
use crate::record;
use crate::record::{NamedRecord, RecordSchema, Row, SlotRecord};
use crate::text;
use crate::types::NodeId;
use crate::value;
use crate::value::{Edge, EdgeView, Node, NodeView, Value, ValueView};
use vstd::prelude::*;

verus! {

/// The value that stands for a node in a row.
pub open spec fn id_view(id: NodeId) -> ValueView {
    ValueView::I64(id.0 as i64)
}

/// The value that stands for a node in a row.
pub fn id_value(id: NodeId) -> (r: Value)
    ensures
        r@ == id_view(id),
{
    Value::I64(id.0 as i64)
}

/// The node that a value stands for.
pub open spec fn node_of(v: ValueView) -> Option<NodeId> {
    match v {
        ValueView::I64(n) => Some(NodeId(n as u64)),
        ValueView::Node(n) => Some(n.id),
        _ => None,
    }
}

/// The node that an optional value stands for.
pub open spec fn node_in(o: Option<ValueView>) -> Option<NodeId> {
    match o {
        Some(v) => node_of(v),
        None => None,
    }
}

/// The node that a value stands for.
pub fn value_to_node_id(v: &Value) -> (r: Option<NodeId>)
    ensures
        r == node_of(v@),
{
    match v {
        Value::I64(n) => Some(NodeId(*n as u64)),
        Value::Node(n) => Some(n.id),
        _ => None,
    }
}

/// The node that a field stands for.
pub fn node_field(rec: &NamedRecord, key: &str) -> (r: Option<NodeId>)
    ensures
        r == node_in(assoc::lookup(rec@, key@)),
{
    match rec.get(key) {
        Some(v) => value_to_node_id(v),
        None => None,
    }
}

/// The integer in an optional value.
pub open spec fn integer_in(o: Option<ValueView>) -> Option<i64> {
    match o {
        Some(ValueView::I64(n)) => Some(n),
        _ => None,
    }
}

/// The text in an optional value.
pub open spec fn text_in(o: Option<ValueView>) -> Option<Seq<char>> {
    match o {
        Some(ValueView::String(s)) => Some(s),
        _ => None,
    }
}

/// The integer in a field.
pub fn integer_field(rec: &NamedRecord, key: &str) -> (r: Option<i64>)
    ensures
        r == integer_in(assoc::lookup(rec@, key@)),
{
    match rec.get(key) {
        Some(Value::I64(n)) => Some(*n),
        _ => None,
    }
}

/// The text in a field.
pub fn text_field(rec: &NamedRecord, key: &str) -> (r: Option<String>)
    ensures
        ast_model::opt_text(r) == text_in(assoc::lookup(rec@, key@)),
{
    match rec.get(key) {
        Some(Value::String(s)) => Some(s.clone()),
        _ => None,
    }
}

/// True when the field is bound to null.
pub fn is_null_field(rec: &NamedRecord, key: &str) -> (r: bool)
    ensures
        r == (assoc::lookup(rec@, key@) == Some(ValueView::Null)),
{
    match rec.get(key) {
        Some(Value::Null) => true,
        _ => false,
    }
}

/// The labels as a list.
pub open spec fn label_list(labels: Seq<Seq<char>>) -> Seq<ValueView> {
    Seq::new(labels.len(), |i: int| ValueView::String(labels[i]))
}

/// The labels as a list.
pub fn label_values(labels: &Vec<String>) -> (r: Vec<Value>)
    ensures
        value::values_view(r@) == label_list(ast_model::texts(labels@)),
{
    let mut out: Vec<Value> = Vec::new();
    let mut i: usize = 0;
    let ghost whole = label_list(ast_model::texts(labels@));
    while i < labels.len()
        invariant
            i <= labels.len(),
            whole == label_list(ast_model::texts(labels@)),
            value::values_view(out@) == whole.take(i as int),
        decreases labels.len() - i,
    {
        let ghost before = value::values_view(out@);
        let v = Value::String(labels[i].clone());
        out.push(v);
        assert(value::values_view(out@) =~= before.push(v@));
        assert(whole.take(i + 1) =~= whole.take(i as int).push(whole[i as int]));
        i = i + 1;
    }
    assert(whole.take(whole.len() as int) =~= whole);
    out
}

/// The row with a node bound to a variable.
pub open spec fn node_row(rec: Row, n: NodeView, alias: Seq<char>) -> Row {
    let named = assoc::put(rec, alias, id_view(n.id));
    let propertied = record::put_all(named, record::fields_of(alias, n.properties));
    let joined = assoc::put(
        propertied,
        text::dotted(alias, "__label"@),
        ValueView::String(text::joined(n.labels, ':')),
    );
    let listed = assoc::put(
        joined,
        text::dotted(alias, "__labels"@),
        ValueView::List(label_list(n.labels)),
    );
    assoc::put(listed, text::dotted(alias, "__id"@), id_view(n.id))
}

/// Binds a node to a variable.
pub fn populate_node_bindings(rec: &mut NamedRecord, n: &Node, alias: &str)
    ensures
        final(rec)@ == node_row(old(rec)@, n@, alias@),
{
    rec.set(text::owned(alias), id_value(n.id));
    rec.set_fields(alias, &n.properties.entries);
    rec.set(text::field(alias, "__label"), Value::String(text::join(&n.labels, ':')));
    rec.set(text::field(alias, "__labels"), Value::List(label_values(&n.labels)));
    rec.set(text::field(alias, "__id"), id_value(n.id));
}

/// The row that binds nothing but a node.
pub fn node_to_record(n: &Node, alias: &str) -> (r: NamedRecord)
    ensures
        r@ == node_row(Row::empty(), n@, alias@),
{
    let mut rec = NamedRecord::new();
    populate_node_bindings(&mut rec, n, alias);
    rec
}

/// The slots with a name's slot set, where there is one.
pub open spec fn slot_bound(
    names: Seq<Seq<char>>,
    s: Seq<ValueView>,
    k: Seq<char>,
    v: ValueView,
) -> Seq<ValueView> {
    if assoc::place(names, k) < names.len() {
        record::slot_put(s, assoc::place(names, k) as int, v)
    } else {
        s
    }
}

/// The slots with the slots of all of the entries set, one after the other.
pub open spec fn slots_bound(names: Seq<Seq<char>>, s: Seq<ValueView>, entries: Row) -> Seq<
    ValueView,
>
    decreases entries.len(),
{
    if entries.len() == 0 {
        s
    } else {
        slot_bound(
            names,
            slots_bound(names, s, entries.drop_last()),
            entries.last().0,
            entries.last().1,
        )
    }
}

/// Sets the slot of a name, where there is one.
pub fn set_slot(schema: &RecordSchema, rec: &mut SlotRecord, key: &str, value: Value)
    ensures
        final(rec)@ == slot_bound(schema@, old(rec)@, key@, value@),
{
    let n = schema.len();
    match schema.slot(key) {
        Some(s) => {
            assert(s.0 < n);
            rec.set(s, value);
        },
        None => {},
    }
}

/// The slots of a node bound to a variable. Its properties come last.
pub open spec fn node_slots(names: Seq<Seq<char>>, n: NodeView, alias: Seq<char>) -> Seq<
    ValueView,
> {
    let empty = record::blank(names.len() as int);
    let named = slot_bound(names, empty, alias, id_view(n.id));
    let known = slot_bound(names, named, text::dotted(alias, "__id"@), id_view(n.id));
    let joined = slot_bound(
        names,
        known,
        text::dotted(alias, "__label"@),
        ValueView::String(text::joined(n.labels, ':')),
    );
    let listed = slot_bound(
        names,
        joined,
        text::dotted(alias, "__labels"@),
        ValueView::List(label_list(n.labels)),
    );
    slots_bound(names, listed, record::fields_of(alias, n.properties))
}

/// The slots of a node bound to a variable. What the schema has no slot for is left out.
pub fn node_to_slot_record(n: &Node, alias: &str, schema: &RecordSchema) -> (r: SlotRecord)
    ensures
        r@ == node_slots(schema@, n@, alias@),
{
    let mut rec = SlotRecord::with_capacity(schema.len());
    set_slot(schema, &mut rec, alias, id_value(n.id));
    set_slot(schema, &mut rec, text::field(alias, "__id").as_str(), id_value(n.id));
    set_slot(
        schema,
        &mut rec,
        text::field(alias, "__label").as_str(),
        Value::String(text::join(&n.labels, ':')),
    );
    set_slot(
        schema,
        &mut rec,
        text::field(alias, "__labels").as_str(),
        Value::List(label_values(&n.labels)),
    );
    let ghost base = rec@;
    let entries = &n.properties.entries;
    let ghost all = record::fields_of(alias@, value::props_view(entries@));
    let mut i: usize = 0;
    assert(all.take(0) =~= Row::empty());
    while i < entries.len()
        invariant
            i <= entries.len(),
            all == record::fields_of(alias@, value::props_view(entries@)),
            rec@ == slots_bound(schema@, base, all.take(i as int)),
        decreases entries.len() - i,
    {
        assert(all.take(i + 1).drop_last() =~= all.take(i as int));
        set_slot(
            schema,
            &mut rec,
            text::field(alias, entries[i].0.as_str()).as_str(),
            entries[i].1.dup(),
        );
        i = i + 1;
    }
    assert(all.take(all.len() as int) =~= all);
    rec
}

/// The row with a relationship bound to a variable. Among several relationships of one type
/// between the same nodes, `seq` tells which.
pub open spec fn edge_row(
    rec: Row,
    alias: Seq<char>,
    src: NodeId,
    dst: NodeId,
    label: Seq<char>,
    seq: Option<u64>,
    props: Row,
) -> Row {
    let named = assoc::put(rec, alias, ValueView::String(label));
    let from = assoc::put(named, text::dotted(alias, "__src"@), id_view(src));
    let to = assoc::put(from, text::dotted(alias, "__dst"@), id_view(dst));
    let typed = assoc::put(to, text::dotted(alias, "__type"@), ValueView::String(label));
    let numbered = match seq {
        Some(s) => assoc::put(
            typed,
            text::dotted(alias, "__edge_seq"@),
            ValueView::I64(s as i64),
        ),
        None => typed,
    };
    record::put_all(numbered, record::fields_of(alias, props))
}

/// Binds a relationship to a variable.
pub fn bind_edge(
    rec: &mut NamedRecord,
    alias: &str,
    src: NodeId,
    dst: NodeId,
    label: &str,
    seq: Option<u64>,
    props: &AssocList<Value>,
)
    ensures
        final(rec)@ == edge_row(
            old(rec)@,
            alias@,
            src,
            dst,
            label@,
            seq,
            value::props_view(props.entries@),
        ),
{
    rec.set(text::owned(alias), Value::String(text::owned(label)));
    rec.set(text::field(alias, "__src"), id_value(src));
    rec.set(text::field(alias, "__dst"), id_value(dst));
    rec.set(text::field(alias, "__type"), Value::String(text::owned(label)));
    match seq {
        Some(s) => {
            rec.set(text::field(alias, "__edge_seq"), Value::I64(s as i64));
        },
        None => {},
    }
    rec.set_fields(alias, &props.entries);
}

/// What tells relationships apart: their ends without direction, their type and their number.
pub type EdgeKey = (i64, i64, Seq<char>, u64);

/// What tells a relationship apart from others.
pub open spec fn edge_key(src: i64, dst: i64, label: Seq<char>, seq: u64) -> EdgeKey {
    if src <= dst {
        (src, dst, label, seq)
    } else {
        (dst, src, label, seq)
    }
}

/// What a key says.
pub open spec fn key_view(k: (i64, i64, String, u64)) -> EdgeKey {
    (k.0, k.1, k.2@, k.3)
}

/// What a list of keys says.
pub open spec fn keys_view(s: Seq<(i64, i64, String, u64)>) -> Seq<EdgeKey> {
    Seq::new(s.len(), |i: int| key_view(s[i]))
}

/// What tells a relationship apart from others.
pub fn key_of(src: i64, dst: i64, label: &str, seq: u64) -> (r: (i64, i64, String, u64))
    ensures
        key_view(r) == edge_key(src, dst, label@, seq),
{
    if src <= dst {
        (src, dst, text::owned(label), seq)
    } else {
        (dst, src, text::owned(label), seq)
    }
}

/// True when the keys are the same.
pub fn same_key(a: &(i64, i64, String, u64), b: &(i64, i64, String, u64)) -> (r: bool)
    ensures
        r == (key_view(*a) == key_view(*b)),
{
    a.0 == b.0 && a.1 == b.1 && text::same(&a.2, &b.2) && a.3 == b.3
}

/// The ends and the type of the relationship that a variable is bound to.
pub open spec fn edge_ends(rec: Row, var: Seq<char>) -> Option<(i64, i64, Seq<char>)> {
    match (
        integer_in(assoc::lookup(rec, text::dotted(var, "__src"@))),
        integer_in(assoc::lookup(rec, text::dotted(var, "__dst"@))),
        text_in(assoc::lookup(rec, text::dotted(var, "__type"@))),
    ) {
        (Some(s), Some(d), Some(t)) => Some((s, d, t)),
        _ => None,
    }
}

/// What an optional relationship says.
pub open spec fn ends_view(o: Option<(i64, i64, String)>) -> Option<(i64, i64, Seq<char>)> {
    match o {
        Some((s, d, t)) => Some((s, d, t@)),
        None => None,
    }
}

/// The ends and the type of the relationship that a variable is bound to.
pub fn edge_fields(rec: &NamedRecord, var: &str) -> (r: Option<(i64, i64, String)>)
    ensures
        ends_view(r) == edge_ends(rec@, var@),
{
    let s = integer_field(rec, text::field(var, "__src").as_str());
    let d = integer_field(rec, text::field(var, "__dst").as_str());
    let t = text_field(rec, text::field(var, "__type").as_str());
    match (s, d, t) {
        (Some(s), Some(d), Some(t)) => Some((s, d, t)),
        _ => None,
    }
}

/// The number of the relationship that a variable is bound to, if it is noted.
pub open spec fn edge_number(rec: Row, var: Seq<char>) -> Option<u64> {
    match integer_in(assoc::lookup(rec, text::dotted(var, "__edge_seq"@))) {
        Some(n) => Some(n as u64),
        None => None,
    }
}

/// The number of the relationship that a variable is bound to, if it is noted.
pub fn edge_seq(rec: &NamedRecord, var: &str) -> (r: Option<u64>)
    ensures
        r == edge_number(rec@, var@),
{
    match integer_field(rec, text::field(var, "__edge_seq").as_str()) {
        Some(n) => Some(n as u64),
        None => None,
    }
}

/// The relationship whose start is noted in a field of the row.
pub open spec fn edge_at(rec: Row, i: int) -> Option<EdgeKey> {
    let key = rec[i].0;
    if text::ends(key, ".__src"@) {
        let var = key.take(key.len() - ".__src"@.len());
        match edge_ends(rec, var) {
            Some((s, d, t)) => Some(
                edge_key(
                    s,
                    d,
                    t,
                    match edge_number(rec, var) {
                        Some(n) => n,
                        None => 0,
                    },
                ),
            ),
            None => None,
        }
    } else {
        None
    }
}

/// What an optional key says.
pub open spec fn opt_key(o: Option<(i64, i64, String, u64)>) -> Option<EdgeKey> {
    match o {
        Some(k) => Some(key_view(k)),
        None => None,
    }
}

/// The relationship whose start is noted in a field of the row.
fn edge_in_field(rec: &NamedRecord, i: usize) -> (r: Option<(i64, i64, String, u64)>)
    requires
        i < rec@.len(),
    ensures
        opt_key(r) == edge_at(rec@, i as int),
{
    let key = &rec.fields.entries[i].0;
    assert(rec@[i as int].0 == key@);
    if !text::ends_with(key.as_str(), ".__src") {
        return None;
    }
    let v = text::chars_of(key.as_str());
    let n = text::chars_of(".__src").len();
    let var = text::slice_text(&v, 0, v.len() - n);
    assert(var@ =~= key@.take(key@.len() - ".__src"@.len()));
    match edge_fields(rec, var.as_str()) {
        Some((s, d, t)) => {
            let seq: u64 = match edge_seq(rec, var.as_str()) {
                Some(n) => n,
                None => 0,
            };
            Some(key_of(s, d, t.as_str(), seq))
        },
        None => None,
    }
}

/// The relationships whose starts are noted in the first `n` fields of the row.
pub open spec fn edges_up_to(rec: Row, n: int) -> Seq<EdgeKey>
    decreases n,
{
    if n <= 0 {
        Seq::empty()
    } else {
        match edge_at(rec, n - 1) {
            Some(k) => edges_up_to(rec, n - 1).push(k),
            None => edges_up_to(rec, n - 1),
        }
    }
}

/// The relationships that the row binds.
pub fn collect_flat_edge_ids(rec: &NamedRecord) -> (r: Vec<(i64, i64, String, u64)>)
    ensures
        keys_view(r@) == edges_up_to(rec@, rec@.len() as int),
{
    let mut out: Vec<(i64, i64, String, u64)> = Vec::new();
    let mut i: usize = 0;
    assert(keys_view(out@) =~= Seq::<EdgeKey>::empty());
    while i < rec.fields.entries.len()
        invariant
            i <= rec@.len(),
            rec@.len() == rec.fields.entries@.len(),
            keys_view(out@) == edges_up_to(rec@, i as int),
        decreases rec@.len() - i,
    {
        match edge_in_field(rec, i) {
            Some(k) => {
                let ghost before = keys_view(out@);
                out.push(k);
                assert(keys_view(out@) =~= before.push(key_view(k)));
            },
            None => {},
        }
        i = i + 1;
    }
    out
}

/// Some key occurs twice.
pub open spec fn repeats(s: Seq<EdgeKey>) -> bool {
    exists|i: int, j: int| 0 <= i < j < s.len() && #[trigger] s[i] == #[trigger] s[j]
}

/// True when some key occurs twice.
pub fn has_repeats(v: &Vec<(i64, i64, String, u64)>) -> (r: bool)
    ensures
        r == repeats(keys_view(v@)),
{
    let ghost s = keys_view(v@);
    let mut j: usize = 0;
    while j < v.len()
        invariant
            j <= v.len(),
            s == keys_view(v@),
            forall|a: int, b: int| 0 <= a < b < j ==> #[trigger] s[a] != #[trigger] s[b],
        decreases v.len() - j,
    {
        let mut i: usize = 0;
        while i < j
            invariant
                i <= j < v.len(),
                s == keys_view(v@),
                forall|a: int| 0 <= a < i ==> #[trigger] s[a] != s[j as int],
            decreases j - i,
        {
            if same_key(&v[i], &v[j]) {
                assert(s[i as int] == s[j as int]);
                return true;
            }
            assert(s[i as int] != s[j as int]);
            i = i + 1;
        }
        j = j + 1;
    }
    false
}

/// True when two variables of the row are bound to the same relationship.
pub fn has_duplicate_relationships(rec: &NamedRecord) -> (r: bool)
    ensures
        r == repeats(edges_up_to(rec@, rec@.len() as int)),
{
    has_repeats(&collect_flat_edge_ids(rec))
}

/// A variable other than `alias` is bound to the relationship.
pub open spec fn bound_elsewhere(rec: Row, alias: Seq<char>, key: EdgeKey) -> bool {
    exists|i: int|
        0 <= i < rec.len() && #[trigger] edge_at(rec, i) == Some(key) && rec[i].0 != text::dotted(
            alias,
            "__src"@,
        )
}

/// True when a variable other than `alias` is bound to the relationship.
pub fn is_bound_elsewhere(rec: &NamedRecord, alias: &str, key: &(i64, i64, String, u64)) -> (r:
    bool)
    ensures
        r == bound_elsewhere(rec@, alias@, key_view(*key)),
{
    let own = text::field(alias, "__src");
    let mut i: usize = 0;
    while i < rec.fields.entries.len()
        invariant
            i <= rec@.len(),
            rec@.len() == rec.fields.entries@.len(),
            own@ == text::dotted(alias@, "__src"@),
            forall|j: int|
                0 <= j < i ==> !(#[trigger] edge_at(rec@, j) == Some(key_view(*key)) && rec@[j].0
                    != own@),
        decreases rec@.len() - i,
    {
        assert(rec@[i as int].0 == rec.fields.entries@[i as int].0@);
        if !text::same(&rec.fields.entries[i].0, &own) {
            match edge_in_field(rec, i) {
                Some(k) => {
                    if same_key(&k, key) {
                        assert(edge_at(rec@, i as int) == Some(key_view(*key)));
                        return true;
                    }
                },
                None => {},
            }
        }
        i = i + 1;
    }
    false
}

/// The properties of a variable: its fields whose names do not begin with two underscores.
pub open spec fn own_props(s: Row, start: Seq<char>) -> Row
    decreases s.len(),
{
    if s.len() == 0 {
        Seq::empty()
    } else {
        let so_far = own_props(s.drop_last(), start);
        match text::after(s.last().0, start) {
            Some(name) => if text::begins(name, "__"@) {
                so_far
            } else {
                assoc::put(so_far, name, s.last().1)
            },
            None => so_far,
        }
    }
}

/// The properties of a variable.
fn own_properties(rec: &NamedRecord, var: &str) -> (r: AssocList<Value>)
    ensures
        value::props_view(r.entries@) == own_props(rec@, var@ + "."@),
{
    let start = text::cat(var, ".");
    let mut out = NamedRecord::new();
    let mut i: usize = 0;
    assert(rec@.take(0) =~= Row::empty());
    while i < rec.fields.entries.len()
        invariant
            i <= rec@.len(),
            rec@.len() == rec.fields.entries@.len(),
            start@ == var@ + "."@,
            out@ == own_props(rec@.take(i as int), start@),
        decreases rec@.len() - i,
    {
        assert(rec@.take(i + 1).drop_last() =~= rec@.take(i as int));
        assert(rec@.take(i + 1).last() == rec@[i as int]);
        match text::strip_prefix(rec.fields.entries[i].0.as_str(), start.as_str()) {
            Some(name) => {
                if !text::starts_with(name.as_str(), "__") {
                    out.set(name, rec.fields.entries[i].1.dup());
                }
            },
            None => {},
        }
        i = i + 1;
    }
    assert(rec@.take(rec@.len() as int) =~= rec@);
    out.fields
}

/// The labels that a text of labels joined by colons holds.
pub open spec fn labels_in(s: Seq<char>) -> Seq<Seq<char>> {
    if s.len() == 0 {
        Seq::empty()
    } else {
        text::pieces(s, ':')
    }
}

/// The whole value that a variable is bound to: a list or a path as it is, a relationship or
/// a node made of its fields.
pub open spec fn compound(rec: Row, var: Seq<char>) -> Option<ValueView> {
    match assoc::lookup(rec, var) {
        Some(ValueView::List(x)) => Some(ValueView::List(x)),
        Some(ValueView::Path(p)) => Some(ValueView::Path(p)),
        _ => match edge_ends(rec, var) {
            Some((s, d, t)) => Some(
                ValueView::Edge(
                    EdgeView {
                        src: NodeId(s as u64),
                        dst: NodeId(d as u64),
                        label: t,
                        properties: own_props(rec, var + "."@),
                    },
                ),
            ),
            None => match (
                integer_in(assoc::lookup(rec, text::dotted(var, "__id"@))),
                text_in(assoc::lookup(rec, text::dotted(var, "__label"@))),
            ) {
                (Some(id), Some(labels)) => Some(
                    ValueView::Node(
                        NodeView {
                            id: NodeId(id as u64),
                            labels: labels_in(labels),
                            properties: own_props(rec, var + "."@),
                        },
                    ),
                ),
                _ => None,
            },
        },
    }
}

/// What an optional value says.
pub open spec fn opt_value(o: Option<Value>) -> Option<ValueView> {
    match o {
        Some(v) => Some(v@),
        None => None,
    }
}

/// The list or the path that a variable is bound to.
fn whole_binding(rec: &NamedRecord, var: &str) -> (r: Option<Value>)
    ensures
        opt_value(r) == (match assoc::lookup(rec@, var@) {
            Some(ValueView::List(x)) => Some(ValueView::List(x)),
            Some(ValueView::Path(p)) => Some(ValueView::Path(p)),
            _ => None::<ValueView>,
        }),
{
    match rec.get(var) {
        Some(v) => match v {
            Value::List(_) => Some(v.dup()),
            Value::Path(_) => Some(v.dup()),
            _ => None,
        },
        None => None,
    }
}

/// The labels that a text of labels joined by colons holds.
fn split_labels(s: &str) -> (r: Vec<String>)
    ensures
        ast_model::texts(r@) == labels_in(s@),
{
    if text::chars_of(s).len() == 0 {
        let none: Vec<String> = Vec::new();
        assert(ast_model::texts(none@) =~= Seq::<Seq<char>>::empty());
        none
    } else {
        text::split(s, ':')
    }
}

/// The whole value that a variable is bound to.
pub fn build_compound_binding(rec: &NamedRecord, var: &str) -> (r: Option<Value>)
    ensures
        opt_value(r) == compound(rec@, var@),
{
    match whole_binding(rec, var) {
        Some(v) => {
            return Some(v);
        },
        None => {},
    }
    match edge_fields(rec, var) {
        Some((s, d, t)) => {
            let e = Edge {
                src: NodeId(s as u64),
                dst: NodeId(d as u64),
                label: t,
                properties: own_properties(rec, var),
            };
            let v = Value::Edge(e);
            assert(v@ == ValueView::Edge(e@));
            return Some(v);
        },
        None => {},
    }
    let id = integer_field(rec, text::field(var, "__id").as_str());
    let labels = text_field(rec, text::field(var, "__label").as_str());
    match (id, labels) {
        (Some(id), Some(labels)) => {
            let n = Node {
                id: NodeId(id as u64),
                labels: split_labels(labels.as_str()),
                properties: own_properties(rec, var),
            };
            let v = Value::Node(n);
            assert(v@ == ValueView::Node(n@));
            Some(v)
        },
        _ => None,
    }
}

/// The first place in the sorted list that does not come before `x`.
pub open spec fn spot(s: Seq<Seq<char>>, x: Seq<char>) -> nat
    decreases s.len(),
{
    if s.len() == 0 || order::by_text(s[0], x) != Place::Before {
        0
    } else {
        1 + spot(s.drop_first(), x)
    }
}

/// The sorted list with `x` in its place, once.
pub open spec fn inserted(s: Seq<Seq<char>>, x: Seq<char>) -> Seq<Seq<char>> {
    let i = spot(s, x) as int;
    if i < s.len() && s[i] == x {
        s
    } else {
        s.insert(i, x)
    }
}

/// The variables bound to nodes or relationships by the entries, in order of their names.
pub open spec fn bound_vars(s: Row) -> Seq<Seq<char>>
    decreases s.len(),
{
    if s.len() == 0 {
        Seq::empty()
    } else {
        let so_far = bound_vars(s.drop_last());
        match text::parted(s.last().0, '.') {
            Some((var, name)) => if name == "__id"@ || name == "__src"@ {
                inserted(so_far, var)
            } else {
                so_far
            },
            None => so_far,
        }
    }
}

/// The place is within the list.
proof fn lemma_spot(s: Seq<Seq<char>>, x: Seq<char>, at: int)
    requires
        0 <= at <= s.len(),
        at < s.len() ==> order::by_text(s[at], x) != Place::Before,
        forall|j: int| 0 <= j < at ==> order::by_text(#[trigger] s[j], x) == Place::Before,
    ensures
        spot(s, x) == at,
    decreases s.len(),
{
    if s.len() > 0 && at > 0 {
        assert(order::by_text(s[0], x) == Place::Before);
        let rest = s.drop_first();
        assert forall|j: int| 0 <= j < at - 1 implies order::by_text(#[trigger] rest[j], x)
            == Place::Before by {
            assert(rest[j] == s[j + 1]);
        }
        lemma_spot(rest, x, at - 1);
    }
}

/// Adds a text to the sorted list, once.
pub fn insert_sorted(v: &mut Vec<String>, x: String)
    ensures
        ast_model::texts(final(v)@) == inserted(ast_model::texts(old(v)@), x@),
{
    let ghost s = ast_model::texts(v@);
    let mut i: usize = 0;
    while i < v.len() && order::place_texts(&v[i], &x) == Place::Before
        invariant
            i <= v.len(),
            s == ast_model::texts(v@),
            forall|j: int| 0 <= j < i ==> order::by_text(#[trigger] s[j], x@) == Place::Before,
        decreases v.len() - i,
    {
        assert(s[i as int] == v@[i as int]@);
        i = i + 1;
    }
    proof {
        if i < v.len() {
            assert(s[i as int] == v@[i as int]@);
        }
        lemma_spot(s, x@, i as int);
    }
    if i < v.len() && text::same(&v[i], &x) {
        return;
    }
    v.insert(i, x);
    assert(ast_model::texts(v@) =~= s.insert(i as int, x@));
}

/// The variables of the row that are bound to nodes or relationships, in order.
pub fn compound_binding_vars(rec: &NamedRecord) -> (r: Vec<String>)
    ensures
        ast_model::texts(r@) == bound_vars(rec@),
{
    let mut out: Vec<String> = Vec::new();
    let mut i: usize = 0;
    assert(rec@.take(0) =~= Row::empty());
    assert(ast_model::texts(out@) =~= Seq::<Seq<char>>::empty());
    while i < rec.fields.entries.len()
        invariant
            i <= rec@.len(),
            rec@.len() == rec.fields.entries@.len(),
            ast_model::texts(out@) == bound_vars(rec@.take(i as int)),
        decreases rec@.len() - i,
    {
        assert(rec@.take(i + 1).drop_last() =~= rec@.take(i as int));
        assert(rec@.take(i + 1).last() == rec@[i as int]);
        match text::split_once(rec.fields.entries[i].0.as_str(), '.') {
            Some((var, name)) => {
                if text::same_str(name.as_str(), "__id") || text::same_str(name.as_str(), "__src") {
                    insert_sorted(&mut out, var);
                }
            },
            None => {},
        }
        i = i + 1;
    }
    assert(rec@.take(rec@.len() as int) =~= rec@);
    out
}

/// The field is one that a user asked for: neither a bare variable nor an internal one.
pub open spec fn user_visible(key: Seq<char>) -> bool {
    match text::parted(key, '.') {
        Some((_, name)) => !text::begins(name, "__"@),
        None => false,
    }
}

/// True when the field is one that a user asked for.
pub fn is_user_visible_field(key: &str) -> (r: bool)
    ensures
        r == user_visible(key@),
{
    match text::split_once(key, '.') {
        Some((_, name)) => !text::starts_with(name.as_str(), "__"),
        None => false,
    }
}

/// Each binding that the row has a field for agrees with it.
pub open spec fn agrees(rec: Row, bindings: Row) -> bool {
    forall|i: int|
        0 <= i < bindings.len() ==> (match assoc::lookup(rec, (#[trigger] bindings[i]).0) {
            Some(v) => order::same(v, bindings[i].1),
            None => true,
        })
}

/// True when the row agrees with each binding that it has a field for.
pub fn record_matches_bindings(rec: &NamedRecord, bindings: &Vec<(String, Value)>) -> (r: bool)
    ensures
        r == agrees(rec@, value::props_view(bindings@)),
{
    let ghost all = value::props_view(bindings@);
    let mut i: usize = 0;
    while i < bindings.len()
        invariant
            i <= bindings.len(),
            all == value::props_view(bindings@),
            forall|j: int|
                0 <= j < i ==> (match assoc::lookup(rec@, (#[trigger] all[j]).0) {
                    Some(v) => order::same(v, all[j].1),
                    None => true,
                }),
        decreases bindings.len() - i,
    {
        assert(all[i as int].0 == bindings@[i as int].0@);
        match rec.get(bindings[i].0.as_str()) {
            Some(v) => {
                if !order::equal(v, &bindings[i].1) {
                    return false;
                }
            },
            None => {},
        }
        i = i + 1;
    }
    true
}

/// The field holds a full-text score.
pub open spec fn is_score(key: Seq<char>) -> bool {
    text::ends(key, ".__fts_score"@)
}

/// How many fields are no scores.
pub open spec fn unscored(s: Row) -> nat
    decreases s.len(),
{
    if s.len() == 0 {
        0
    } else if is_score(s.last().0) {
        unscored(s.drop_last())
    } else {
        unscored(s.drop_last()) + 1
    }
}

/// The rows are equal but for scores.
pub open spec fn same_unscored(a: Row, b: Row) -> bool {
    unscored(a) == unscored(b) && forall|i: int|
        0 <= i < a.len() && !is_score((#[trigger] a[i]).0) ==> (match assoc::lookup(b, a[i].0) {
            Some(v) => order::same(v, a[i].1),
            None => false,
        })
}

/// How many fields are no scores.
fn count_unscored(rec: &NamedRecord) -> (r: usize)
    ensures
        r == unscored(rec@),
{
    let mut n: usize = 0;
    let mut i: usize = 0;
    assert(rec@.take(0) =~= Row::empty());
    while i < rec.fields.entries.len()
        invariant
            i <= rec@.len(),
            rec@.len() == rec.fields.entries@.len(),
            n <= i,
            n == unscored(rec@.take(i as int)),
        decreases rec@.len() - i,
    {
        assert(rec@.take(i + 1).drop_last() =~= rec@.take(i as int));
        assert(rec@.take(i + 1).last() == rec@[i as int]);
        if !text::ends_with(rec.fields.entries[i].0.as_str(), ".__fts_score") {
            n = n + 1;
        }
        i = i + 1;
    }
    assert(rec@.take(rec@.len() as int) =~= rec@);
    n
}

/// True when the rows are equal but for scores.
pub fn union_rows_equal(a: &NamedRecord, b: &NamedRecord) -> (r: bool)
    ensures
        r == same_unscored(a@, b@),
{
    if count_unscored(a) != count_unscored(b) {
        return false;
    }
    let mut i: usize = 0;
    while i < a.fields.entries.len()
        invariant
            i <= a@.len(),
            a@.len() == a.fields.entries@.len(),
            forall|j: int|
                0 <= j < i && !is_score((#[trigger] a@[j]).0) ==> (match assoc::lookup(
                    b@,
                    a@[j].0,
                ) {
                    Some(v) => order::same(v, a@[j].1),
                    None => false,
                }),
        decreases a@.len() - i,
    {
        assert(a@[i as int].0 == a.fields.entries@[i as int].0@);
        if !text::ends_with(a.fields.entries[i].0.as_str(), ".__fts_score") {
            match b.get(a.fields.entries[i].0.as_str()) {
                Some(v) => {
                    if !order::equal(v, &a.fields.entries[i].1) {
                        return false;
                    }
                },
                None => {
                    return false;
                },
            }
        }
        i = i + 1;
    }
    true
}

} // verus!
