//! What equality and order of values come to.
use crate::assoc;
use crate::order;
use crate::order::Place;
use crate::record::Row;
use crate::row_laws;
use crate::value::{Float, ValueView};
use vstd::prelude::*;

verus! {

/// The value is a text, a truth value, an integer, null, a date, a time or a span of time, or a
/// list of such values.
pub open spec fn simple(v: ValueView) -> bool
    decreases v,
{
    match v {
        ValueView::F64(_) => false,
        ValueView::MapValue(_) => false,
        ValueView::Node(_) => false,
        ValueView::Edge(_) => false,
        ValueView::Path(_) => false,
        ValueView::List(x) => forall|i: int| 0 <= i < x.len() ==> simple(#[trigger] x[i]),
        _ => true,
    }
}

/// Simple values are equal when they are one and the same.
pub proof fn simple_values_equal_themselves_alone(a: ValueView, b: ValueView)
    requires
        simple(a),
        simple(b),
    ensures
        order::same(a, b) <==> a == b,
    decreases a,
{
    match (a, b) {
        (ValueView::List(x), ValueView::List(y)) => {
            if order::same(a, b) {
                assert(order::same_list(x, y));
                assert forall|i: int| 0 <= i < x.len() implies #[trigger] x[i] == y[i] by {
                    assert(order::same(x[i], y[i]));
                    assert(simple(x[i]) && simple(y[i]));
                    simple_values_equal_themselves_alone(x[i], y[i]);
                }
                assert(x =~= y);
            }
            if a == b {
                assert(x == y);
                assert forall|i: int| 0 <= i < x.len() implies order::same(
                    #[trigger] x[i],
                    y[i],
                ) by {
                    assert(simple(x[i]) && simple(y[i]));
                    simple_values_equal_themselves_alone(x[i], y[i]);
                }
                assert(order::same_list(x, y));
            }
        },
        _ => {},
    }
}

/// Floating point numbers are equal when they have the same bits or are both zero; what is not
/// a number equals nothing.
pub proof fn equal_numbers_have_equal_bits(x: Float, y: Float)
    ensures
        order::same(ValueView::F64(x), ValueView::F64(y)) <==> {
            let nan = |f: Float| f.bits % 0x8000_0000_0000_0000 > 0x7ff0_0000_0000_0000;
            &&& !nan(x)
            &&& !nan(y)
            &&& x.bits == y.bits || (x.bits % 0x8000_0000_0000_0000 == 0 && y.bits
                % 0x8000_0000_0000_0000 == 0)
        },
{
}

/// Values of different types are never equal.
pub proof fn equal_values_are_of_one_type(a: ValueView, b: ValueView)
    requires
        order::same(a, b),
    ensures
        a is Null <==> b is Null,
        a is Bool <==> b is Bool,
        a is I64 <==> b is I64,
        a is F64 <==> b is F64,
        a is String <==> b is String,
        a is List <==> b is List,
        a is MapValue <==> b is MapValue,
        a is Node <==> b is Node,
        a is Edge <==> b is Edge,
        a is Path <==> b is Path,
        a matches ValueView::List(x) ==> (b matches ValueView::List(y) && x.len() == y.len()),
        a matches ValueView::Node(x) ==> (b matches ValueView::Node(y) && x.id == y.id && x.labels
            == y.labels),
        a matches ValueView::Edge(x) ==> (b matches ValueView::Edge(y) && x.src == y.src && x.dst
            == y.dst && x.label == y.label),
        a matches ValueView::Path(x) ==> (b matches ValueView::Path(y) && x.nodes.len()
            == y.nodes.len() && x.edges.len() == y.edges.len()),
{
    reveal_with_fuel(order::same, 2);
}

/// Maps of simple values are equal when each key reads the same in both.
pub proof fn equal_maps_read_alike(a: Row, b: Row)
    requires
        assoc::distinct(assoc::keys(a)),
        assoc::distinct(assoc::keys(b)),
        a.len() == b.len(),
        forall|i: int| 0 <= i < a.len() ==> simple((#[trigger] a[i]).1),
        forall|i: int| 0 <= i < b.len() ==> simple((#[trigger] b[i]).1),
    ensures
        order::same(ValueView::MapValue(a), ValueView::MapValue(b)) <==> forall|i: int|
            0 <= i < a.len() ==> assoc::lookup(b, (#[trigger] a[i]).0) == Some(a[i].1),
{
    if order::same(ValueView::MapValue(a), ValueView::MapValue(b)) {
        assert(order::same_entries(a, b));
        assert forall|i: int| 0 <= i < a.len() implies assoc::lookup(b, (#[trigger] a[i]).0)
            == Some(a[i].1) by {
            row_laws::only_bound_names_read(b, a[i].0);
            let v = assoc::lookup(b, a[i].0)->0;
            let j = choose|j: int| 0 <= j < b.len() && b[j] == (a[i].0, v);
            assert(simple(b[j].1));
            simple_values_equal_themselves_alone(a[i].1, v);
        }
    }
    if forall|i: int| 0 <= i < a.len() ==> assoc::lookup(b, (#[trigger] a[i]).0) == Some(a[i].1) {
        assert forall|i: int| 0 <= i < a.len() implies (match assoc::lookup(
            b,
            (#[trigger] a[i]).0,
        ) {
            Some(v) => order::same(a[i].1, v),
            None => false,
        }) by {
            simple_values_equal_themselves_alone(a[i].1, a[i].1);
        }
        assert(order::same_entries(a, b));
    }
}

/// A text comes before another: it is the beginning of the other, or has the lower character
/// where they first differ.
pub open spec fn text_before(a: Seq<char>, b: Seq<char>) -> bool {
    exists|n: int|
        {
            &&& 0 <= n <= a.len()
            &&& n <= b.len()
            &&& #[trigger] a.take(n) == b.take(n)
            &&& n < b.len()
            &&& n == a.len() || (a[n] as int) < (b[n] as int)
        }
}

/// Texts stand in the order of a dictionary.
pub proof fn texts_stand_as_in_a_dictionary(a: Seq<char>, b: Seq<char>)
    ensures
        order::placed(ValueView::String(a), ValueView::String(b)) == Place::Before <==> text_before(
            a,
            b,
        ),
        order::placed(ValueView::String(a), ValueView::String(b)) == Place::Same <==> a == b,
{
    lemma_text_order(a, b);
}

/// Texts, from the front.
proof fn lemma_text_order(a: Seq<char>, b: Seq<char>)
    ensures
        order::by_text(a, b) == Place::Before <==> text_before(a, b),
        order::by_text(a, b) == Place::Same <==> a == b,
    decreases a.len(),
{
    assert(a.take(0) =~= b.take(0));
    if a.len() == 0 || b.len() == 0 {
        if a.len() == 0 && b.len() == 0 {
            assert(a =~= b);
        }
        if text_before(a, b) {
            let n = choose|n: int|
                {
                    &&& 0 <= n <= a.len()
                    &&& n <= b.len()
                    &&& #[trigger] a.take(n) == b.take(n)
                    &&& n < b.len()
                    &&& n == a.len() || (a[n] as int) < (b[n] as int)
                };
        }
    } else if a[0] != b[0] {
        if text_before(a, b) {
            let n = choose|n: int|
                {
                    &&& 0 <= n <= a.len()
                    &&& n <= b.len()
                    &&& #[trigger] a.take(n) == b.take(n)
                    &&& n < b.len()
                    &&& n == a.len() || (a[n] as int) < (b[n] as int)
                };
            if n > 0 {
                assert(a.take(n)[0] == b.take(n)[0]);
            }
        }
    } else {
        let x = a.drop_first();
        let y = b.drop_first();
        lemma_text_order(x, y);
        if x == y {
            assert(a =~= seq![a[0]] + x);
            assert(b =~= seq![b[0]] + y);
        }
        if text_before(a, b) {
            let n = choose|n: int|
                {
                    &&& 0 <= n <= a.len()
                    &&& n <= b.len()
                    &&& #[trigger] a.take(n) == b.take(n)
                    &&& n < b.len()
                    &&& n == a.len() || (a[n] as int) < (b[n] as int)
                };
            assert(n > 0);
            assert(x.take(n - 1) =~= a.take(n).drop_first());
            assert(y.take(n - 1) =~= b.take(n).drop_first());
        }
        if text_before(x, y) {
            let n = choose|n: int|
                {
                    &&& 0 <= n <= x.len()
                    &&& n <= y.len()
                    &&& #[trigger] x.take(n) == y.take(n)
                    &&& n < y.len()
                    &&& n == x.len() || (x[n] as int) < (y[n] as int)
                };
            assert(a.take(n + 1) =~= seq![a[0]] + x.take(n));
            assert(b.take(n + 1) =~= seq![b[0]] + y.take(n));
        }
    }
}

/// Integers stand by their size, false before true, and null behind everything.
pub proof fn values_stand_by_size(a: i64, b: i64, v: ValueView)
    ensures
        order::placed(ValueView::I64(a), ValueView::I64(b)) == (if a < b {
            Place::Before
        } else if a > b {
            Place::After
        } else {
            Place::Same
        }),
        order::placed(ValueView::Bool(false), ValueView::Bool(true)) == Place::Before,
        order::placed(ValueView::Bool(true), ValueView::Bool(false)) == Place::After,
        order::placed(ValueView::Bool(true), ValueView::Bool(true)) == Place::Same,
        order::placed(ValueView::Bool(false), ValueView::Bool(false)) == Place::Same,
        order::placed(ValueView::Null, ValueView::Null) == Place::Same,
        !(v is Null) ==> order::placed(v, ValueView::Null) == Place::Before,
        !(v is Null) ==> order::placed(ValueView::Null, v) == Place::After,
{
    reveal_with_fuel(order::placed, 2);
}

/// Floating point numbers stand by their size: a negative one before any that is not, of two
/// positive ones that with the lower bits first, of two negative ones that with the higher; what
/// is not a number stands behind all numbers.
pub proof fn numbers_stand_by_size(x: Float, y: Float)
    requires
        x.bits % 0x8000_0000_0000_0000 <= 0x7ff0_0000_0000_0000,
    ensures
        y.bits % 0x8000_0000_0000_0000 > 0x7ff0_0000_0000_0000 ==> order::placed(
            ValueView::F64(x),
            ValueView::F64(y),
        ) == Place::Before,
        y.bits % 0x8000_0000_0000_0000 <= 0x7ff0_0000_0000_0000 ==> {
            &&& x.bits < 0x8000_0000_0000_0000 && y.bits < 0x8000_0000_0000_0000 ==> (order::placed(
                ValueView::F64(x),
                ValueView::F64(y),
            ) == Place::Before <==> x.bits < y.bits)
            &&& x.bits > 0x8000_0000_0000_0000 && y.bits < 0x8000_0000_0000_0000 ==> order::placed(
                ValueView::F64(x),
                ValueView::F64(y),
            ) == Place::Before
            &&& x.bits > 0x8000_0000_0000_0000 && y.bits > 0x8000_0000_0000_0000 ==> (order::placed(
                ValueView::F64(x),
                ValueView::F64(y),
            ) == Place::Before <==> x.bits > y.bits)
        },
        order::placed(ValueView::F64(y), ValueView::F64(x)) == (match order::placed(
            ValueView::F64(x),
            ValueView::F64(y),
        ) {
            Place::Before => Place::After,
            Place::Same => Place::Same,
            Place::After => Place::Before,
        }),
{
}

/// The place of a type among the types, from the first to the last: map, node, relationship,
/// path, list, text, truth value, number, null.
pub open spec fn turn(v: ValueView) -> Option<int> {
    match v {
        ValueView::MapValue(_) => Some(0),
        ValueView::Node(_) => Some(1),
        ValueView::Edge(_) => Some(2),
        ValueView::Path(_) => Some(3),
        ValueView::List(_) => Some(4),
        ValueView::String(_) => Some(5),
        ValueView::Bool(_) => Some(6),
        ValueView::I64(_) => Some(7),
        ValueView::F64(_) => Some(7),
        ValueView::Null => Some(8),
        _ => None,
    }
}

/// Values of different types stand in the order of their types.
pub proof fn types_stand_in_turn(a: ValueView, b: ValueView)
    requires
        turn(a) is Some,
        turn(b) is Some,
        turn(a)->0 < turn(b)->0,
    ensures
        order::placed(a, b) == Place::Before,
        order::placed(b, a) == Place::After,
{
    reveal_with_fuel(order::placed, 2);
}

/// Lists stand by the first items that differ; where one is the beginning of the other, it
/// stands first.
pub proof fn lists_stand_by_the_first_difference(x: Seq<ValueView>, y: Seq<ValueView>, n: int)
    requires
        0 <= n <= x.len(),
        n <= y.len(),
        forall|i: int| 0 <= i < n ==> order::placed(#[trigger] x[i], y[i]) == Place::Same,
    ensures
        n < x.len() && n < y.len() && order::placed(x[n], y[n]) != Place::Same ==> order::placed(
            ValueView::List(x),
            ValueView::List(y),
        ) == order::placed(x[n], y[n]),
        n == x.len() && n < y.len() ==> order::placed(ValueView::List(x), ValueView::List(y))
            == Place::Before,
        n == y.len() && n < x.len() ==> order::placed(ValueView::List(x), ValueView::List(y))
            == Place::After,
        n == x.len() == y.len() ==> order::placed(ValueView::List(x), ValueView::List(y))
            == Place::Same,
{
    lemma_items_from(x, y, 0, n);
    assert(order::placed(ValueView::List(x), ValueView::List(y)) == order::by_items(x, y, 0));
    assert(order::by_items(x, y, n) == order::by_items(x, y, n));
    reveal_with_fuel(order::by_items, 2);
}

/// Items that stand at the same place are passed over.
proof fn lemma_items_from(x: Seq<ValueView>, y: Seq<ValueView>, i: int, n: int)
    requires
        0 <= i <= n <= x.len(),
        n <= y.len(),
        forall|j: int| i <= j < n ==> order::placed(#[trigger] x[j], y[j]) == Place::Same,
    ensures
        order::by_items(x, y, i) == order::by_items(x, y, n),
    decreases n - i,
{
    if i < n {
        lemma_items_from(x, y, i + 1, n);
        assert(order::placed(x[i], y[i]) == Place::Same);
    }
}

} // verus!
