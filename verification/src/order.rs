//! Equality and order of values.
use crate::assoc;
use crate::ast_model;
use crate::float;
use crate::text;
use crate::value;
use crate::value::{
    DateTime, Duration, Edge, EdgeView, Node, NodeView, PathValue, PathValueView, Time, Value,
    ValueView,
};
use vstd::prelude::*;

verus! {

/// How one value stands to another.
#[derive(Clone, Copy, Debug, PartialEq, Eq, Structural)]
pub enum Place {
    Before,
    Same,
    After,
}

/// Equality of values: numbers compare as numbers of their own kind, maps without regard to
/// the order of their entries.
pub open spec fn same(a: ValueView, b: ValueView) -> bool
    decreases a,
{
    match (a, b) {
        (ValueView::Null, ValueView::Null) => true,
        (ValueView::Bool(x), ValueView::Bool(y)) => x == y,
        (ValueView::I64(x), ValueView::I64(y)) => x == y,
        (ValueView::F64(x), ValueView::F64(y)) => float::same(x, y),
        (ValueView::String(x), ValueView::String(y)) => x == y,
        (ValueView::List(x), ValueView::List(y)) => same_list(x, y),
        (ValueView::MapValue(x), ValueView::MapValue(y)) => same_entries(x, y),
        (ValueView::Node(x), ValueView::Node(y)) => same_node(x, y),
        (ValueView::Edge(x), ValueView::Edge(y)) => same_edge(x, y),
        (ValueView::Path(x), ValueView::Path(y)) => same_path(x, y),
        (ValueView::Date(x), ValueView::Date(y)) => x == y,
        (ValueView::LocalTime(x), ValueView::LocalTime(y)) => x == y,
        (ValueView::Time(x), ValueView::Time(y)) => x == y,
        (ValueView::LocalDateTime(x), ValueView::LocalDateTime(y)) => x == y,
        (ValueView::DateTime(x), ValueView::DateTime(y)) => x == y,
        (ValueView::Duration(x), ValueView::Duration(y)) => x == y,
        _ => false,
    }
}

/// Equality of lists of values.
pub open spec fn same_list(a: Seq<ValueView>, b: Seq<ValueView>) -> bool
    decreases a,
{
    a.len() == b.len() && forall|i: int| 0 <= i < a.len() ==> same(#[trigger] a[i], b[i])
}

/// Equality of maps: each key of the one is bound to an equal value by the other.
pub open spec fn same_entries(
    a: Seq<(Seq<char>, ValueView)>,
    b: Seq<(Seq<char>, ValueView)>,
) -> bool
    decreases a,
{
    a.len() == b.len() && forall|i: int|
        0 <= i < a.len() ==> (match assoc::lookup(b, (#[trigger] a[i]).0) {
            Some(v) => same(a[i].1, v),
            None => false,
        })
}

/// Equality of nodes.
pub open spec fn same_node(a: NodeView, b: NodeView) -> bool
    decreases a,
{
    a.id == b.id && a.labels == b.labels && same_entries(a.properties, b.properties)
}

/// Equality of relationships.
pub open spec fn same_edge(a: EdgeView, b: EdgeView) -> bool
    decreases a,
{
    a.src == b.src && a.dst == b.dst && a.label == b.label && same_entries(
        a.properties,
        b.properties,
    )
}

/// Equality of paths.
pub open spec fn same_path(a: PathValueView, b: PathValueView) -> bool
    decreases a,
{
    &&& a.nodes.len() == b.nodes.len()
    &&& a.edges.len() == b.edges.len()
    &&& forall|i: int| 0 <= i < a.nodes.len() ==> same_node(#[trigger] a.nodes[i], b.nodes[i])
    &&& forall|i: int| 0 <= i < a.edges.len() ==> same_edge(#[trigger] a.edges[i], b.edges[i])
}

/// True when the values are equal.
pub fn equal(a: &Value, b: &Value) -> (r: bool)
    ensures
        r == same(a@, b@),
    decreases a,
{
    match (a, b) {
        (Value::Null, Value::Null) => true,
        (Value::Bool(x), Value::Bool(y)) => *x == *y,
        (Value::I64(x), Value::I64(y)) => *x == *y,
        (Value::F64(x), Value::F64(y)) => float::equal(*x, *y),
        (Value::String(x), Value::String(y)) => text::same(x, y),
        (Value::List(x), Value::List(y)) => equal_lists(x, y),
        (Value::MapValue(x), Value::MapValue(y)) => equal_entries(&x.entries, &y.entries),
        (Value::Node(x), Value::Node(y)) => equal_nodes(x, y),
        (Value::Edge(x), Value::Edge(y)) => equal_edges(x, y),
        (Value::Path(x), Value::Path(y)) => equal_paths(x, y),
        (Value::Date(x), Value::Date(y)) => *x == *y,
        (Value::LocalTime(x), Value::LocalTime(y)) => *x == *y,
        (Value::Time(x), Value::Time(y)) => *x == *y,
        (Value::LocalDateTime(x), Value::LocalDateTime(y)) => *x == *y,
        (Value::DateTime(x), Value::DateTime(y)) => *x == *y,
        (Value::Duration(x), Value::Duration(y)) => *x == *y,
        _ => false,
    }
}

/// True when the lists of values are equal.
pub fn equal_lists(a: &Vec<Value>, b: &Vec<Value>) -> (r: bool)
    ensures
        r == same_list(value::values_view(a@), value::values_view(b@)),
    decreases a,
{
    if a.len() != b.len() {
        return false;
    }
    let ghost xs = value::values_view(a@);
    let ghost ys = value::values_view(b@);
    let mut i: usize = 0;
    assert(decreases_to!(a => a@));
    while i < a.len()
        invariant
            a.len() == b.len(),
            i <= a.len(),
            xs == value::values_view(a@),
            ys == value::values_view(b@),
            decreases_to!(a => a@),
            forall|j: int| 0 <= j < i ==> same(#[trigger] xs[j], ys[j]),
        decreases a.len() - i,
    {
        if !equal(&a[i], &b[i]) {
            assert(!same(xs[i as int], ys[i as int]));
            return false;
        }
        i = i + 1;
    }
    true
}

/// The place of a key in a list of entries; the length where it is not bound.
pub fn find_key(v: &Vec<(String, Value)>, key: &String) -> (r: usize)
    ensures
        r == assoc::place(assoc::keys(value::props_view(v@)), key@),
        r <= v@.len(),
{
    let ghost ks = assoc::keys(value::props_view(v@));
    let mut i: usize = 0;
    while i < v.len()
        invariant
            i <= v.len(),
            ks == assoc::keys(value::props_view(v@)),
            forall|j: int| 0 <= j < i ==> #[trigger] ks[j] != key@,
        decreases v.len() - i,
    {
        if text::same(&v[i].0, key) {
            proof {
                assoc::lemma_place_is(ks, key@, i as int);
            }
            return i;
        }
        i = i + 1;
    }
    proof {
        assoc::lemma_place_is(ks, key@, i as int);
    }
    i
}

/// True when the maps are equal.
pub fn equal_entries(a: &Vec<(String, Value)>, b: &Vec<(String, Value)>) -> (r: bool)
    ensures
        r == same_entries(value::props_view(a@), value::props_view(b@)),
    decreases a,
{
    if a.len() != b.len() {
        return false;
    }
    let ghost xs = value::props_view(a@);
    let ghost ys = value::props_view(b@);
    let mut i: usize = 0;
    assert(decreases_to!(a => a@));
    while i < a.len()
        invariant
            a.len() == b.len(),
            i <= a.len(),
            xs == value::props_view(a@),
            ys == value::props_view(b@),
            decreases_to!(a => a@),
            forall|j: int|
                0 <= j < i ==> (match assoc::lookup(ys, (#[trigger] xs[j]).0) {
                    Some(v) => same(xs[j].1, v),
                    None => false,
                }),
        decreases a.len() - i,
    {
        assert(decreases_to!(a@[i as int] => a@[i as int].1));
        let at = find_key(b, &a[i].0);
        assert(xs[i as int].0 == a@[i as int].0@);
        if at >= b.len() || !equal(&a[i].1, &b[at].1) {
            return false;
        }
        i = i + 1;
    }
    true
}

/// True when the nodes are equal.
fn equal_nodes(a: &Node, b: &Node) -> (r: bool)
    ensures
        r == same_node(a@, b@),
    decreases a,
{
    a.id == b.id && equal_texts(&a.labels, &b.labels) && equal_entries(
        &a.properties.entries,
        &b.properties.entries,
    )
}

/// True when the lists of texts are the same.
pub fn equal_texts(a: &Vec<String>, b: &Vec<String>) -> (r: bool)
    ensures
        r == (ast_model::texts(a@) == ast_model::texts(b@)),
{
    if a.len() != b.len() {
        assert(ast_model::texts(a@).len() != ast_model::texts(b@).len());
        return false;
    }
    let mut i: usize = 0;
    while i < a.len()
        invariant
            a.len() == b.len(),
            i <= a.len(),
            forall|j: int|
                0 <= j < i ==> #[trigger] ast_model::texts(a@)[j] == ast_model::texts(b@)[j],
        decreases a.len() - i,
    {
        if !text::same(&a[i], &b[i]) {
            assert(ast_model::texts(a@)[i as int] != ast_model::texts(b@)[i as int]);
            return false;
        }
        i = i + 1;
    }
    assert(ast_model::texts(a@) =~= ast_model::texts(b@));
    true
}

/// True when the relationships are equal.
fn equal_edges(a: &Edge, b: &Edge) -> (r: bool)
    ensures
        r == same_edge(a@, b@),
    decreases a,
{
    a.src == b.src && a.dst == b.dst && text::same(&a.label, &b.label) && equal_entries(
        &a.properties.entries,
        &b.properties.entries,
    )
}

/// True when the paths are equal.
fn equal_paths(a: &PathValue, b: &PathValue) -> (r: bool)
    ensures
        r == same_path(a@, b@),
    decreases a,
{
    assert(a@.nodes == value::nodes_view(a.nodes@));
    assert(a@.edges == value::edges_view(a.edges@));
    equal_node_lists(&a.nodes, &b.nodes) && equal_edge_lists(&a.edges, &b.edges)
}

/// True when the lists of nodes are equal.
fn equal_node_lists(a: &Vec<Node>, b: &Vec<Node>) -> (r: bool)
    ensures
        r == (a@.len() == b@.len() && forall|i: int|
            0 <= i < a@.len() ==> same_node(
                #[trigger] value::nodes_view(a@)[i],
                value::nodes_view(b@)[i],
            )),
    decreases a,
{
    if a.len() != b.len() {
        return false;
    }
    let ghost xs = value::nodes_view(a@);
    let ghost ys = value::nodes_view(b@);
    let mut i: usize = 0;
    assert(decreases_to!(a => a@));
    while i < a.len()
        invariant
            a.len() == b.len(),
            i <= a.len(),
            xs == value::nodes_view(a@),
            ys == value::nodes_view(b@),
            decreases_to!(a => a@),
            forall|j: int| 0 <= j < i ==> same_node(#[trigger] xs[j], ys[j]),
        decreases a.len() - i,
    {
        if !equal_nodes(&a[i], &b[i]) {
            assert(!same_node(xs[i as int], ys[i as int]));
            return false;
        }
        i = i + 1;
    }
    true
}

/// True when the lists of relationships are equal.
fn equal_edge_lists(a: &Vec<Edge>, b: &Vec<Edge>) -> (r: bool)
    ensures
        r == (a@.len() == b@.len() && forall|i: int|
            0 <= i < a@.len() ==> same_edge(
                #[trigger] value::edges_view(a@)[i],
                value::edges_view(b@)[i],
            )),
    decreases a,
{
    if a.len() != b.len() {
        return false;
    }
    let ghost xs = value::edges_view(a@);
    let ghost ys = value::edges_view(b@);
    let mut i: usize = 0;
    assert(decreases_to!(a => a@));
    while i < a.len()
        invariant
            a.len() == b.len(),
            i <= a.len(),
            xs == value::edges_view(a@),
            ys == value::edges_view(b@),
            decreases_to!(a => a@),
            forall|j: int| 0 <= j < i ==> same_edge(#[trigger] xs[j], ys[j]),
        decreases a.len() - i,
    {
        if !equal_edges(&a[i], &b[i]) {
            assert(!same_edge(xs[i as int], ys[i as int]));
            return false;
        }
        i = i + 1;
    }
    true
}

/// How integers stand to each other.
pub open spec fn by_number(a: int, b: int) -> Place {
    if a < b {
        Place::Before
    } else if a == b {
        Place::Same
    } else {
        Place::After
    }
}

/// How integers stand to each other.
fn place_numbers(a: i128, b: i128) -> (r: Place)
    ensures
        r == by_number(a as int, b as int),
{
    if a < b {
        Place::Before
    } else if a == b {
        Place::Same
    } else {
        Place::After
    }
}

/// How texts stand to each other: by the first character in which they differ.
pub open spec fn by_text(a: Seq<char>, b: Seq<char>) -> Place
    decreases a.len(),
{
    if a.len() == 0 || b.len() == 0 {
        by_number(a.len() as int, b.len() as int)
    } else if a[0] != b[0] {
        by_number(a[0] as int, b[0] as int)
    } else {
        by_text(a.drop_first(), b.drop_first())
    }
}

/// The code point of a character.
fn code(c: char) -> (r: u32)
    ensures
        r == c as int,
{
    c as u32
}

/// How texts stand to each other.
pub fn place_texts(a: &String, b: &String) -> (r: Place)
    ensures
        r == by_text(a@, b@),
{
    let x = text::chars_of(a.as_str());
    let y = text::chars_of(b.as_str());
    let mut i: usize = 0;
    assert(a@.skip(0) =~= a@ && b@.skip(0) =~= b@);
    while i < x.len() && i < y.len()
        invariant
            x@ == a@,
            y@ == b@,
            i <= x.len(),
            i <= y.len(),
            by_text(a@, b@) == by_text(a@.skip(i as int), b@.skip(i as int)),
        decreases x.len() - i,
    {
        if x[i] != y[i] {
            let c: char = x[i];
            let d: char = y[i];
            assert(a@.skip(i as int)[0] == c && b@.skip(i as int)[0] == d);
            return place_numbers(code(c) as i128, code(d) as i128);
        }
        assert(a@.skip(i as int).drop_first() =~= a@.skip(i + 1));
        assert(b@.skip(i as int).drop_first() =~= b@.skip(i + 1));
        i = i + 1;
    }
    place_numbers((x.len() - i) as i128, (y.len() - i) as i128)
}

/// The types in their order: map, node, relationship, path, list, string, boolean, number,
/// null; temporal values go with the numbers.
pub open spec fn rank(v: ValueView) -> int {
    match v {
        ValueView::MapValue(_) => 0,
        ValueView::Node(_) => 1,
        ValueView::Edge(_) => 2,
        ValueView::Path(_) => 3,
        ValueView::List(_) => 4,
        ValueView::String(_) => 5,
        ValueView::Bool(_) => 6,
        ValueView::Null => 8,
        _ => 7,
    }
}

/// The place of a value's type among all types.
pub fn type_rank(v: &Value) -> (r: u8)
    ensures
        r == rank(v@),
{
    match v {
        Value::MapValue(_) => 0,
        Value::Node(_) => 1,
        Value::Edge(_) => 2,
        Value::Path(_) => 3,
        Value::List(_) => 4,
        Value::String(_) => 5,
        Value::Bool(_) => 6,
        Value::Null => 8,
        _ => 7,
    }
}

/// How numbers stand to each other; what is not a number comes last.
pub open spec fn by_float(a: value::Float, b: value::Float) -> Place {
    if float::is_nan(a) && float::is_nan(b) {
        Place::Same
    } else if float::is_nan(a) {
        Place::After
    } else if float::is_nan(b) {
        Place::Before
    } else {
        by_number(float::rank(a), float::rank(b))
    }
}

/// How numbers stand to each other.
fn place_floats(a: value::Float, b: value::Float) -> (r: Place)
    ensures
        r == by_float(a, b),
{
    if float::nan(a) && float::nan(b) {
        Place::Same
    } else if float::nan(a) {
        Place::After
    } else if float::nan(b) {
        Place::Before
    } else {
        place_numbers(float::rank_of(a), float::rank_of(b))
    }
}

/// The number nearest to an integer.
pub open spec fn as_float(n: i64) -> value::Float {
    value::Float { bits: float::of_int(n as int) as u64 }
}

/// The first of two criteria that tells apart.
pub open spec fn first_of(a: Place, b: Place) -> Place {
    if a == Place::Same {
        b
    } else {
        a
    }
}

/// How spans of time stand to each other: by months, days, seconds and nanoseconds in turn.
pub open spec fn by_duration(a: Duration, b: Duration) -> Place {
    first_of(
        by_number(a.months as int, b.months as int),
        first_of(
            by_number(a.days as int, b.days as int),
            first_of(
                by_number(a.seconds as int, b.seconds as int),
                by_number(a.nanos as int, b.nanos as int),
            ),
        ),
    )
}

/// How spans of time stand to each other.
fn place_durations(a: Duration, b: Duration) -> (r: Place)
    ensures
        r == by_duration(a, b),
{
    if a.months != b.months {
        place_numbers(a.months as i128, b.months as i128)
    } else if a.days != b.days {
        place_numbers(a.days as i128, b.days as i128)
    } else if a.seconds != b.seconds {
        place_numbers(a.seconds as i128, b.seconds as i128)
    } else {
        place_numbers(a.nanos as i128, b.nanos as i128)
    }
}

/// How values stand to each other in a sorted result.
pub open spec fn placed(a: ValueView, b: ValueView) -> Place
    decreases a,
{
    match (a, b) {
        (ValueView::Bool(x), ValueView::Bool(y)) => by_number(
            if x { 1 } else { 0 },
            if y { 1 } else { 0 },
        ),
        (ValueView::I64(x), ValueView::I64(y)) => by_number(x as int, y as int),
        (ValueView::F64(x), ValueView::F64(y)) => by_float(x, y),
        (ValueView::I64(x), ValueView::F64(y)) => by_float(as_float(x), y),
        (ValueView::F64(x), ValueView::I64(y)) => by_float(x, as_float(y)),
        (ValueView::String(x), ValueView::String(y)) => by_text(x, y),
        (ValueView::List(x), ValueView::List(y)) => by_items(x, y, 0),
        (ValueView::Date(x), ValueView::Date(y)) => by_number(x.0 as int, y.0 as int),
        (ValueView::LocalTime(x), ValueView::LocalTime(y)) => by_number(x.0 as int, y.0 as int),
        (ValueView::Time(x), ValueView::Time(y)) => by_number(x.0 - x.1, y.0 - y.1),
        (ValueView::LocalDateTime(x), ValueView::LocalDateTime(y)) => by_number(
            x.0 as int,
            y.0 as int,
        ),
        (ValueView::DateTime(x), ValueView::DateTime(y)) => by_number(x.0 - x.1, y.0 - y.1),
        (ValueView::Duration(x), ValueView::Duration(y)) => by_duration(x, y),
        _ => by_number(rank(a), rank(b)),
    }
}

/// How lists stand to each other from `i` on: by the first items that differ, or by length.
pub open spec fn by_items(a: Seq<ValueView>, b: Seq<ValueView>, i: int) -> Place
    decreases a, a.len() - i,
{
    if 0 <= i < a.len() && i < b.len() {
        first_of(placed(a[i], b[i]), by_items(a, b, i + 1))
    } else {
        by_number(a.len() as int, b.len() as int)
    }
}

/// How values stand to each other in a sorted result.
pub fn compare_values_for_sort(a: &Value, b: &Value) -> (r: Place)
    ensures
        r == placed(a@, b@),
    decreases a,
{
    match (a, b) {
        (Value::Bool(x), Value::Bool(y)) => place_numbers(
            if *x {
                1
            } else {
                0
            },
            if *y {
                1
            } else {
                0
            },
        ),
        (Value::I64(x), Value::I64(y)) => place_numbers(*x as i128, *y as i128),
        (Value::F64(x), Value::F64(y)) => place_floats(*x, *y),
        (Value::I64(x), Value::F64(y)) => place_floats(float::from_int(*x), *y),
        (Value::F64(x), Value::I64(y)) => place_floats(*x, float::from_int(*y)),
        (Value::String(x), Value::String(y)) => place_texts(x, y),
        (Value::List(x), Value::List(y)) => place_lists(x, y),
        (Value::Date(x), Value::Date(y)) => place_numbers(x.0 as i128, y.0 as i128),
        (Value::LocalTime(x), Value::LocalTime(y)) => place_numbers(x.0 as i128, y.0 as i128),
        (Value::Time(x), Value::Time(y)) => place_numbers(
            x.0 as i128 - x.1 as i128,
            y.0 as i128 - y.1 as i128,
        ),
        (Value::LocalDateTime(x), Value::LocalDateTime(y)) => place_numbers(
            x.0 as i128,
            y.0 as i128,
        ),
        (Value::DateTime(x), Value::DateTime(y)) => place_numbers(
            x.0 as i128 - x.1 as i128,
            y.0 as i128 - y.1 as i128,
        ),
        (Value::Duration(x), Value::Duration(y)) => place_durations(*x, *y),
        _ => place_numbers(type_rank(a) as i128, type_rank(b) as i128),
    }
}

/// How values stand to each other where only numbers and texts are told apart, and null comes
/// last.
pub open spec fn placed_plainly(a: ValueView, b: ValueView) -> Place {
    match (a, b) {
        (ValueView::I64(x), ValueView::I64(y)) => by_number(x as int, y as int),
        (ValueView::F64(x), ValueView::F64(y)) => by_plain_float(x, y),
        (ValueView::I64(x), ValueView::F64(y)) => by_plain_float(as_float(x), y),
        (ValueView::F64(x), ValueView::I64(y)) => by_plain_float(x, as_float(y)),
        (ValueView::String(x), ValueView::String(y)) => by_text(x, y),
        (ValueView::Null, ValueView::Null) => Place::Same,
        (ValueView::Null, _) => Place::After,
        (_, ValueView::Null) => Place::Before,
        _ => Place::Same,
    }
}

/// How numbers stand to each other; what is not a number stands nowhere.
pub open spec fn by_plain_float(a: value::Float, b: value::Float) -> Place {
    if float::is_nan(a) || float::is_nan(b) {
        Place::Same
    } else {
        by_number(float::rank(a), float::rank(b))
    }
}

/// How numbers stand to each other.
fn place_plain_floats(a: value::Float, b: value::Float) -> (r: Place)
    ensures
        r == by_plain_float(a, b),
{
    if float::nan(a) || float::nan(b) {
        Place::Same
    } else {
        place_numbers(float::rank_of(a), float::rank_of(b))
    }
}

/// How values stand to each other where only numbers and texts are told apart.
pub fn place_plainly(a: &Value, b: &Value) -> (r: Place)
    ensures
        r == placed_plainly(a@, b@),
{
    match (a, b) {
        (Value::I64(x), Value::I64(y)) => place_numbers(*x as i128, *y as i128),
        (Value::F64(x), Value::F64(y)) => place_plain_floats(*x, *y),
        (Value::I64(x), Value::F64(y)) => place_plain_floats(float::from_int(*x), *y),
        (Value::F64(x), Value::I64(y)) => place_plain_floats(*x, float::from_int(*y)),
        (Value::String(x), Value::String(y)) => place_texts(x, y),
        (Value::Null, Value::Null) => Place::Same,
        (Value::Null, _) => Place::After,
        (_, Value::Null) => Place::Before,
        _ => Place::Same,
    }
}

/// How lists stand to each other.
fn place_lists(a: &Vec<Value>, b: &Vec<Value>) -> (r: Place)
    ensures
        r == by_items(value::values_view(a@), value::values_view(b@), 0),
    decreases a,
{
    let ghost xs = value::values_view(a@);
    let ghost ys = value::values_view(b@);
    let mut i: usize = 0;
    assert(decreases_to!(a => a@));
    while i < a.len() && i < b.len()
        invariant
            xs == value::values_view(a@),
            ys == value::values_view(b@),
            decreases_to!(a => a@),
            by_items(xs, ys, 0) == by_items(xs, ys, i as int),
        decreases a.len() - i,
    {
        let p = compare_values_for_sort(&a[i], &b[i]);
        if p != Place::Same {
            return p;
        }
        i = i + 1;
    }
    place_numbers(a.len() as i128, b.len() as i128)
}

/// The place seen from the other side.
pub open spec fn flipped(p: Place) -> Place {
    match p {
        Place::Before => Place::After,
        Place::Same => Place::Same,
        Place::After => Place::Before,
    }
}

/// The place seen from the other side.
pub fn reverse(p: Place) -> (r: Place)
    ensures
        r == flipped(p),
{
    match p {
        Place::Before => Place::After,
        Place::Same => Place::Same,
        Place::After => Place::Before,
    }
}

} // verus!
