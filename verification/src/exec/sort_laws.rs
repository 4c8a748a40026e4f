//! Laws of sorting.
use super::arrange::{by_keys, row_before, row_plainly_before, sort_keys, sorted, sorted_in};
use crate::ast_model::SortItemView;
use crate::float;
use crate::order;
use crate::order::{flipped, placed, placed_plainly, Place};
use crate::record::Row;
use crate::source::Model;
use crate::value::ValueView;
use vstd::prelude::*;

verus! {

/// Sorting adds and drops no row.
pub proof fn sorting_keeps_rows<T>(s: Seq<T>, before: spec_fn(T, T) -> bool)
    ensures
        sorted(s, before).to_multiset() == s.to_multiset(),
        sorted(s, before).len() == s.len(),
    decreases s.len(),
{
    broadcast use vstd::seq_lib::group_to_multiset_ensures;

    if s.len() > 0 {
        sorting_keeps_rows(s.drop_last(), before);
        lemma_sorted_in_keeps(sorted(s.drop_last(), before), s.last(), before);
        assert(s.drop_last().push(s.last()) =~= s);
    }
}

/// Putting a row in its place adds it, once.
proof fn lemma_sorted_in_keeps<T>(s: Seq<T>, x: T, before: spec_fn(T, T) -> bool)
    ensures
        sorted_in(s, x, before).to_multiset() == s.push(x).to_multiset(),
        sorted_in(s, x, before).len() == s.len() + 1,
    decreases s.len(),
{
    broadcast use vstd::seq_lib::group_to_multiset_ensures;

    if s.len() > 0 && before(x, s.last()) {
        lemma_sorted_in_keeps(s.drop_last(), x, before);
        assert(s.drop_last().push(s.last()) =~= s);
        assert(s.push(x).to_multiset() =~= s.drop_last().push(x).push(s.last()).to_multiset());
    }
}

/// `before` is an order on the rows of `s`: of two of them at most one belongs before the other,
/// and what a row belongs before, those behind it belong behind too.
pub open spec fn orders<T>(before: spec_fn(T, T) -> bool, s: Seq<T>) -> bool {
    &&& forall|a: T, b: T|
        s.contains(a) && s.contains(b) && #[trigger] before(a, b) ==> !before(b, a)
    &&& forall|a: T, b: T, c: T|
        s.contains(a) && s.contains(b) && s.contains(c) && (#[trigger] before(a, b)) && !(
        #[trigger] before(c, b)) ==> before(a, c)
}

/// Sorting gives rows of `s` alone.
proof fn lemma_sorted_from<T>(s: Seq<T>, before: spec_fn(T, T) -> bool)
    ensures
        forall|i: int|
            0 <= i < sorted(s, before).len() ==> s.contains(#[trigger] sorted(s, before)[i]),
    decreases s.len(),
{
    if s.len() > 0 {
        let t = s.drop_last();
        let u = sorted(t, before);
        lemma_sorted_from(t, before);
        lemma_sorted_in_from(u, s.last(), before);
        let r = sorted(s, before);
        assert forall|i: int| 0 <= i < r.len() implies s.contains(#[trigger] r[i]) by {
            assert(s[s.len() - 1] == s.last());
            if r[i] != s.last() {
                let k = choose|k: int| 0 <= k < u.len() && #[trigger] u[k] == r[i];
                assert(t.contains(u[k]));
                let n = choose|n: int| 0 <= n < t.len() && t[n] == u[k];
                assert(s[n] == r[i]);
            }
        }
    }
}

/// An order on rows is one on fewer of them.
proof fn lemma_orders_fewer<T>(before: spec_fn(T, T) -> bool, s: Seq<T>)
    requires
        s.len() > 0,
        orders(before, s),
    ensures
        orders(before, s.drop_last()),
{
    let t = s.drop_last();
    assert forall|a: T| t.contains(a) implies #[trigger] s.contains(a) by {
        let n = choose|n: int| 0 <= n < t.len() && t[n] == a;
        assert(s[n] == a);
    }
}

/// In the result of sorting by an order, no row stands behind one that it belongs before.
pub proof fn sorting_puts_in_order<T>(s: Seq<T>, before: spec_fn(T, T) -> bool, i: int, j: int)
    requires
        orders(before, s),
        0 <= i < j < sorted(s, before).len(),
    ensures
        !before(sorted(s, before)[j], sorted(s, before)[i]),
    decreases s.len(),
{
    if s.len() > 0 {
        let t = sorted(s.drop_last(), before);
        lemma_orders_fewer(before, s);
        assert forall|a: int, b: int| 0 <= a < b < t.len() implies !before(
            #[trigger] t[b],
            #[trigger] t[a],
        ) by {
            sorting_puts_in_order(s.drop_last(), before, a, b);
        }
        lemma_sorted_from(s.drop_last(), before);
        assert forall|a: int| 0 <= a < t.len() implies s.contains(#[trigger] t[a]) by {
            let u = s.drop_last();
            assert(u.contains(t[a]));
            let n = choose|n: int| 0 <= n < u.len() && u[n] == t[a];
            assert(s[n] == t[a]);
        }
        assert(s[s.len() - 1] == s.last());
        lemma_sorted_in_ordered(t, s.last(), before, s);
    }
}

/// Putting a row in its place keeps the order.
proof fn lemma_sorted_in_ordered<T>(s: Seq<T>, x: T, before: spec_fn(T, T) -> bool, all: Seq<T>)
    requires
        orders(before, all),
        all.contains(x),
        forall|a: int| 0 <= a < s.len() ==> all.contains(#[trigger] s[a]),
        forall|a: int, b: int|
            0 <= a < b < s.len() ==> !before(#[trigger] s[b], #[trigger] s[a]),
    ensures
        forall|a: int, b: int|
            0 <= a < b < sorted_in(s, x, before).len() ==> !before(
                #[trigger] sorted_in(s, x, before)[b],
                #[trigger] sorted_in(s, x, before)[a],
            ),
    decreases s.len(),
{
    let r = sorted_in(s, x, before);
    if s.len() == 0 || !before(x, s.last()) {
        assert forall|a: int, b: int| 0 <= a < b < r.len() implies !before(
            #[trigger] r[b],
            #[trigger] r[a],
        ) by {
            if b == s.len() {
                if before(x, s[a]) {
                    if a < s.len() - 1 {
                        assert(!before(s[s.len() - 1], s[a]));
                        assert(all.contains(s[s.len() - 1]));
                        assert(before(x, s.last()));
                    }
                }
            }
        }
    } else {
        let t = s.drop_last();
        assert forall|a: int| 0 <= a < t.len() implies all.contains(#[trigger] t[a]) by {
            assert(all.contains(s[a]));
        }
        lemma_sorted_in_ordered(t, x, before, all);
        let u = sorted_in(t, x, before);
        lemma_sorted_in_from(t, x, before);
        assert forall|a: int, b: int| 0 <= a < b < r.len() implies !before(
            #[trigger] r[b],
            #[trigger] r[a],
        ) by {
            if b == u.len() {
                assert(all.contains(s[s.len() - 1]));
                if u[a] != x {
                    let k = choose|k: int| 0 <= k < t.len() && t[k] == u[a];
                    assert(s[k] == u[a]);
                    assert(!before(s.last(), s[k]));
                }
            }
        }
    }
}

/// Each row of the result is the new one or one that was there.
proof fn lemma_sorted_in_from<T>(s: Seq<T>, x: T, before: spec_fn(T, T) -> bool)
    ensures
        forall|a: int|
            0 <= a < sorted_in(s, x, before).len() ==> (#[trigger] sorted_in(s, x, before)[a]) == x
                || exists|k: int|
                0 <= k < s.len() && #[trigger] s[k] == sorted_in(s, x, before)[a],
    decreases s.len(),
{
    let r = sorted_in(s, x, before);
    if s.len() == 0 || !before(x, s.last()) {
        assert forall|a: int| 0 <= a < r.len() implies (#[trigger] r[a]) == x || exists|k: int|
            0 <= k < s.len() && #[trigger] s[k] == r[a] by {
            if a < s.len() {
                assert(s[a] == r[a]);
            }
        }
    } else {
        let t = s.drop_last();
        lemma_sorted_in_from(t, x, before);
        assert forall|a: int| 0 <= a < r.len() implies (#[trigger] r[a]) == x || exists|k: int|
            0 <= k < s.len() && #[trigger] s[k] == r[a] by {
            let u = sorted_in(t, x, before);
            if a < u.len() {
                assert(u[a] == r[a]);
                if u[a] != x {
                    let k = choose|k: int| 0 <= k < t.len() && #[trigger] t[k] == u[a];
                    assert(s[k] == r[a]);
                }
            } else {
                assert(s[s.len() - 1] == r[a]);
            }
        }
    }
}

/// Rows that do not belong before or behind `r`.
pub open spec fn level_with<T>(before: spec_fn(T, T) -> bool, r: T) -> spec_fn(T) -> bool {
    |x: T| !before(x, r) && !before(r, x)
}

/// Sorting by an order is stable: rows of which neither belongs before the other stand as they
/// stood.
pub proof fn sorting_is_stable<T>(s: Seq<T>, before: spec_fn(T, T) -> bool, r: T)
    requires
        orders(before, s),
        s.contains(r),
    ensures
        sorted(s, before).filter(level_with(before, r)) == s.filter(level_with(before, r)),
{
    lemma_stable(s, before, r, s);
}

/// Sorting some of the rows is stable.
proof fn lemma_stable<T>(s: Seq<T>, before: spec_fn(T, T) -> bool, r: T, all: Seq<T>)
    requires
        orders(before, all),
        all.contains(r),
        forall|a: int| 0 <= a < s.len() ==> all.contains(#[trigger] s[a]),
    ensures
        sorted(s, before).filter(level_with(before, r)) == s.filter(level_with(before, r)),
    decreases s.len(),
{
    if s.len() > 0 {
        let t = s.drop_last();
        assert forall|a: int| 0 <= a < t.len() implies all.contains(#[trigger] t[a]) by {
            assert(all.contains(s[a]));
        }
        lemma_stable(t, before, r, all);
        let u = sorted(t, before);
        lemma_sorted_from(t, before);
        assert forall|a: int| 0 <= a < u.len() implies all.contains(#[trigger] u[a]) by {
            assert(t.contains(u[a]));
            let n = choose|n: int| 0 <= n < t.len() && t[n] == u[a];
            assert(all.contains(t[n]));
        }
        assert(all.contains(s[s.len() - 1]));
        lemma_stable_in(u, s.last(), before, r, all);
        let p = level_with(before, r);
        u.lemma_filter_push(s.last(), p);
        t.lemma_filter_push(s.last(), p);
        assert(t.push(s.last()) =~= s);
    }
}

/// Putting a row in its place is stable.
proof fn lemma_stable_in<T>(s: Seq<T>, x: T, before: spec_fn(T, T) -> bool, r: T, all: Seq<T>)
    requires
        orders(before, all),
        all.contains(r),
        all.contains(x),
        forall|a: int| 0 <= a < s.len() ==> all.contains(#[trigger] s[a]),
    ensures
        sorted_in(s, x, before).filter(level_with(before, r)) == s.push(x).filter(
            level_with(before, r),
        ),
    decreases s.len(),
{
    let p = level_with(before, r);
    if s.len() > 0 && before(x, s.last()) {
        let t = s.drop_last();
        assert forall|a: int| 0 <= a < t.len() implies all.contains(#[trigger] t[a]) by {
            assert(all.contains(s[a]));
        }
        lemma_stable_in(t, x, before, r, all);
        assert(all.contains(s[s.len() - 1]));
        let u = sorted_in(t, x, before);
        u.lemma_filter_push(s.last(), p);
        t.lemma_filter_push(x, p);
        t.lemma_filter_push(s.last(), p);
        s.lemma_filter_push(x, p);
        assert(t.push(s.last()) =~= s);
        if p(x) {
            if !before(r, s.last()) {
                assert(before(x, r));
            }
            assert(!p(s.last()));
        }
    }
}

/// Orders that agree on the rows of `s` sort them alike.
pub proof fn agreeing_orders_sort_alike<T>(
    s: Seq<T>,
    f: spec_fn(T, T) -> bool,
    g: spec_fn(T, T) -> bool,
)
    requires
        forall|a: T, b: T|
            s.contains(a) && s.contains(b) ==> #[trigger] f(a, b) == #[trigger] g(a, b),
    ensures
        sorted(s, f) == sorted(s, g),
    decreases s.len(),
{
    if s.len() > 0 {
        let t = s.drop_last();
        assert forall|a: T| t.contains(a) implies #[trigger] s.contains(a) by {
            let n = choose|n: int| 0 <= n < t.len() && t[n] == a;
            assert(s[n] == a);
        }
        agreeing_orders_sort_alike(t, f, g);
        let u = sorted(t, f);
        lemma_sorted_from(t, f);
        assert(s[s.len() - 1] == s.last());
        assert forall|a: int| 0 <= a < u.len() implies f(s.last(), #[trigger] u[a]) == g(
            s.last(),
            u[a],
        ) by {
            assert(t.contains(u[a]));
            assert(s.contains(u[a]));
        }
        lemma_alike_in(u, s.last(), f, g);
    }
}

/// Orders that agree put a row in the same place.
proof fn lemma_alike_in<T>(s: Seq<T>, x: T, f: spec_fn(T, T) -> bool, g: spec_fn(T, T) -> bool)
    requires
        forall|a: int| 0 <= a < s.len() ==> f(x, #[trigger] s[a]) == g(x, s[a]),
    ensures
        sorted_in(s, x, f) == sorted_in(s, x, g),
    decreases s.len(),
{
    if s.len() > 0 {
        let t = s.drop_last();
        assert(f(x, s[s.len() - 1]) == g(x, s[s.len() - 1]));
        assert forall|a: int| 0 <= a < t.len() implies f(x, #[trigger] t[a]) == g(x, t[a]) by {
            assert(f(x, s[a]) == g(x, s[a]));
        }
        lemma_alike_in(t, x, f, g);
    }
}

/// The type of a value.
pub open spec fn kind(v: ValueView) -> int {
    match v {
        ValueView::Null => 0,
        ValueView::Bool(_) => 1,
        ValueView::I64(_) => 2,
        ValueView::F64(_) => 3,
        ValueView::String(_) => 4,
        ValueView::List(_) => 5,
        ValueView::MapValue(_) => 6,
        ValueView::Node(_) => 7,
        ValueView::Edge(_) => 8,
        ValueView::Path(_) => 9,
        ValueView::Date(_) => 10,
        ValueView::LocalTime(_) => 11,
        ValueView::Time(_) => 12,
        ValueView::LocalDateTime(_) => 13,
        ValueView::DateTime(_) => 14,
        ValueView::Duration(_) => 15,
    }
}

/// The values are of one type other than list, or one of them is null.
pub open spec fn of_one_kind(a: ValueView, b: ValueView) -> bool {
    &&& !(a is List)
    &&& !(b is List)
    &&& a is Null || b is Null || kind(a) == kind(b)
}

/// How places fit together: `ab`, `bc` and `ac` say how a first thing stands to a second, the
/// second to a third, and the first to the third.
pub open spec fn fit(ab: Place, bc: Place, ac: Place) -> bool {
    &&& ab == Place::Same ==> ac == bc
    &&& bc == Place::Same ==> ac == ab
    &&& ab == bc ==> ac == ab
}

/// Texts stand to each other in one order.
proof fn lemma_texts_fit(a: Seq<char>, b: Seq<char>, c: Seq<char>)
    ensures
        order::by_text(b, a) == flipped(order::by_text(a, b)),
        fit(order::by_text(a, b), order::by_text(b, c), order::by_text(a, c)),
    decreases a.len() + b.len() + c.len(),
{
    if a.len() > 0 && b.len() > 0 {
        if c.len() > 0 {
            lemma_texts_fit(a.drop_first(), b.drop_first(), c.drop_first());
        } else {
            lemma_texts_fit(a.drop_first(), b.drop_first(), c);
        }
    }
}

/// Values of one type stand to each other in one order.
pub proof fn lemma_values_fit(a: ValueView, b: ValueView, c: ValueView)
    requires
        of_one_kind(a, b),
        of_one_kind(b, c),
        of_one_kind(a, c),
    ensures
        placed(b, a) == flipped(placed(a, b)),
        fit(placed(a, b), placed(b, c), placed(a, c)),
{
    match (a, b, c) {
        (ValueView::String(x), ValueView::String(y), ValueView::String(z)) => {
            lemma_texts_fit(x, y, z);
        },
        (ValueView::String(x), ValueView::String(y), _) => {
            lemma_texts_fit(x, y, y);
        },
        _ => {},
    }
}

/// No value belongs before itself.
pub proof fn lemma_not_before_itself(v: ValueView)
    ensures
        placed(v, v) != Place::Before,
    decreases v, 0int,
{
    match v {
        ValueView::String(x) => {
            lemma_texts_fit(x, x, x);
        },
        ValueView::List(x) => {
            lemma_items_not_before(x, 0);
        },
        _ => {},
    }
}

/// No list belongs before itself.
proof fn lemma_items_not_before(x: Seq<ValueView>, i: int)
    requires
        0 <= i,
    ensures
        order::by_items(x, x, i) != Place::Before,
    decreases x, x.len() - i,
{
    if i < x.len() {
        lemma_not_before_itself(x[i]);
        lemma_items_not_before(x, i + 1);
    }
}

/// Sort keys of one type stand to each other in one order.
proof fn lemma_keys_fit(
    a: Seq<ValueView>,
    b: Seq<ValueView>,
    c: Seq<ValueView>,
    items: Seq<SortItemView>,
    i: int,
)
    requires
        0 <= i,
        forall|k: int|
            0 <= k < items.len() ==> of_one_kind(#[trigger] a[k], b[k]) && of_one_kind(b[k], c[k])
                && of_one_kind(a[k], c[k]),
    ensures
        by_keys(b, a, items, false, i) == flipped(by_keys(a, b, items, false, i)),
        fit(
            by_keys(a, b, items, false, i),
            by_keys(b, c, items, false, i),
            by_keys(a, c, items, false, i),
        ),
    decreases items.len() - i,
{
    if i < items.len() {
        lemma_keys_fit(a, b, c, items, i + 1);
        assert(of_one_kind(a[i], b[i]));
        lemma_values_fit(a[i], b[i], c[i]);
    }
}

/// The sort keys of the rows are of one type for each sort item, apart from nulls.
pub open spec fn keys_of_one_kind(s: Seq<Row>, items: Seq<SortItemView>, m: Model) -> bool {
    forall|a: Row, b: Row, k: int|
        s.contains(a) && s.contains(b) && 0 <= k < items.len() ==> of_one_kind(
            #[trigger] sort_keys(a, items, m)[k],
            #[trigger] sort_keys(b, items, m)[k],
        )
}

/// Sort keys that are of one type for each item, such as integers, order the rows; nulls among
/// them do no harm.
pub proof fn keys_of_one_kind_order_rows(s: Seq<Row>, items: Seq<SortItemView>, m: Model)
    requires
        keys_of_one_kind(s, items, m),
    ensures
        orders(row_before(items, m), s),
{
    let before = row_before(items, m);
    assert forall|a: Row, b: Row|
        s.contains(a) && s.contains(b) && #[trigger] before(a, b) implies !before(b, a) by {
        lemma_rows_fit(s, items, m, a, b, b);
    }
    assert forall|a: Row, b: Row, c: Row|
        s.contains(a) && s.contains(b) && s.contains(c) && (#[trigger] before(a, b)) && !(
        #[trigger] before(c, b)) implies before(a, c) by {
        lemma_rows_fit(s, items, m, a, b, c);
        lemma_rows_fit(s, items, m, c, b, a);
    }
}

/// Rows with sort keys of one type stand to each other in one order.
proof fn lemma_rows_fit(
    s: Seq<Row>,
    items: Seq<SortItemView>,
    m: Model,
    a: Row,
    b: Row,
    c: Row,
)
    requires
        keys_of_one_kind(s, items, m),
        s.contains(a),
        s.contains(b),
        s.contains(c),
    ensures
        ({
            let (x, y, z) = (
                sort_keys(a, items, m),
                sort_keys(b, items, m),
                sort_keys(c, items, m),
            );
            &&& by_keys(y, x, items, false, 0) == flipped(by_keys(x, y, items, false, 0))
            &&& fit(
                by_keys(x, y, items, false, 0),
                by_keys(y, z, items, false, 0),
                by_keys(x, z, items, false, 0),
            )
        }),
{
    let (x, y, z) = (sort_keys(a, items, m), sort_keys(b, items, m), sort_keys(c, items, m));
    assert forall|k: int| 0 <= k < items.len() implies of_one_kind(#[trigger] x[k], y[k])
        && of_one_kind(y[k], z[k]) && of_one_kind(x[k], z[k]) by {
        assert(of_one_kind(x[k], y[k]));
        assert(of_one_kind(y[k], z[k]));
        assert(of_one_kind(x[k], z[k]));
    }
    lemma_keys_fit(x, y, z, items, 0);
}

/// ORDER BY puts rows in order: where the sort keys are of one type for each item, no row
/// stands behind one that it belongs before, and rows of which neither belongs before the other
/// stand as they stood.
pub proof fn order_by_orders_rows(
    s: Seq<Row>,
    items: Seq<SortItemView>,
    m: Model,
    i: int,
    j: int,
)
    requires
        keys_of_one_kind(s, items, m),
        0 <= i < j < s.len(),
    ensures
        !row_before(items, m)(
            sorted(s, row_before(items, m))[j],
            sorted(s, row_before(items, m))[i],
        ),
        sorted(s, row_before(items, m)).filter(level_with(row_before(items, m), s[i])) == s.filter(
            level_with(row_before(items, m), s[i]),
        ),
{
    let before = row_before(items, m);
    keys_of_one_kind_order_rows(s, items, m);
    sorting_keeps_rows(s, before);
    sorting_puts_in_order(s, before, i, j);
    assert(s.contains(s[i]));
    sorting_is_stable(s, before, s[i]);
}

/// The values stand to each other alike in the full and in the plain order: both are numbers, or
/// both are texts, or one is null.
pub open spec fn plain_pair(a: ValueView, b: ValueView) -> bool {
    match (a, b) {
        (ValueView::Null, _) => true,
        (_, ValueView::Null) => true,
        (ValueView::I64(_), ValueView::I64(_)) => true,
        (ValueView::I64(_), ValueView::F64(y)) => !float::is_nan(y) && !float::is_nan(
            order::as_float(a->I64_0),
        ),
        (ValueView::F64(x), ValueView::I64(_)) => !float::is_nan(x) && !float::is_nan(
            order::as_float(b->I64_0),
        ),
        (ValueView::F64(x), ValueView::F64(y)) => float::is_nan(x) == float::is_nan(y),
        (ValueView::String(_), ValueView::String(_)) => true,
        _ => false,
    }
}

/// The sort keys of the rows are numbers or texts for each sort item, apart from nulls.
pub open spec fn plain_keys(s: Seq<Row>, items: Seq<SortItemView>, m: Model) -> bool {
    forall|a: Row, b: Row, k: int|
        s.contains(a) && s.contains(b) && 0 <= k < items.len() ==> plain_pair(
            #[trigger] sort_keys(a, items, m)[k],
            #[trigger] sort_keys(b, items, m)[k],
        )
}

/// Sort keys that are numbers or texts stand to each other alike in both orders.
proof fn lemma_plain_keys(
    a: Seq<ValueView>,
    b: Seq<ValueView>,
    items: Seq<SortItemView>,
    i: int,
)
    requires
        0 <= i,
        forall|k: int| 0 <= k < items.len() ==> plain_pair(#[trigger] a[k], b[k]),
    ensures
        by_keys(a, b, items, true, i) == by_keys(a, b, items, false, i),
    decreases items.len() - i,
{
    if i < items.len() {
        lemma_plain_keys(a, b, items, i + 1);
        assert(plain_pair(a[i], b[i]));
        assert(placed(a[i], b[i]) == placed_plainly(a[i], b[i]));
    }
}

/// Rows are sorted alike in the full and in the plain order where their sort keys are numbers
/// or texts.
pub proof fn plain_keys_sort_alike(s: Seq<Row>, items: Seq<SortItemView>, m: Model)
    requires
        plain_keys(s, items, m),
    ensures
        sorted(s, row_plainly_before(items, m)) == sorted(s, row_before(items, m)),
{
    let f = row_plainly_before(items, m);
    let g = row_before(items, m);
    assert forall|a: Row, b: Row| s.contains(a) && s.contains(b) implies #[trigger] f(a, b)
        == #[trigger] g(a, b) by {
        let (x, y) = (sort_keys(a, items, m), sort_keys(b, items, m));
        assert forall|k: int| 0 <= k < items.len() implies plain_pair(#[trigger] x[k], y[k]) by {
            assert(plain_pair(x[k], y[k]));
        }
        lemma_plain_keys(x, y, items, 0);
    }
    agreeing_orders_sort_alike(s, f, g);
}

} // verus!
