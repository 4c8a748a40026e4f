//! Sorting, removal of repetitions, and the first and last rows.
use crate::ast::SortItem;
use crate::ast_model;
use crate::ast_model::SortItemView;
use crate::binding;
use crate::exec::flow;
use crate::order;
use crate::order::Place;
use crate::record;
use crate::record::{NamedRecord, Row};
use crate::source;
use crate::source::{Model, Source};
use crate::value;
use crate::value::{Value, ValueView};
use vstd::prelude::*;

verus! {

/// The rows behind the first `n`.
pub open spec fn skipped<T>(rs: Seq<T>, n: u64) -> Seq<T> {
    if n >= rs.len() {
        Seq::empty()
    } else {
        rs.skip(n as int)
    }
}

/// The first `n` rows.
pub open spec fn limited<T>(rs: Seq<T>, n: u64) -> Seq<T> {
    if n >= rs.len() {
        rs
    } else {
        rs.take(n as int)
    }
}

/// The rows behind the first `n`.
pub fn skip_rows(rs: Vec<NamedRecord>, n: u64) -> (r: Vec<NamedRecord>)
    ensures
        record::rows(r@) == skipped(record::rows(rs@), n),
{
    let mut out: Vec<NamedRecord> = Vec::new();
    let ghost s = record::rows(rs@);
    if n >= rs.len() as u64 {
        assert(record::rows(out@) =~= Seq::<Row>::empty());
        return out;
    }
    let mut i: usize = n as usize;
    assert(record::rows(out@) =~= s.skip(n as int).take(0));
    while i < rs.len()
        invariant
            n <= i <= rs.len(),
            s == record::rows(rs@),
            record::rows(out@) == s.skip(n as int).take(i - n),
        decreases rs.len() - i,
    {
        let ghost before = record::rows(out@);
        out.push(rs[i].dup());
        assert(record::rows(out@) =~= before.push(rs@[i as int]@));
        assert(s.skip(n as int).take(i + 1 - n) =~= s.skip(n as int).take(i - n).push(s[i as int]));
        i = i + 1;
    }
    assert(s.skip(n as int).take(s.len() - n) =~= s.skip(n as int));
    out
}

/// The first `n` rows.
pub fn take_rows(rs: Vec<NamedRecord>, n: u64) -> (r: Vec<NamedRecord>)
    ensures
        record::rows(r@) == limited(record::rows(rs@), n),
{
    if n >= rs.len() as u64 {
        return rs;
    }
    let ghost s = record::rows(rs@);
    let mut rs = rs;
    rs.truncate(n as usize);
    assert(record::rows(rs@) =~= s.take(n as int));
    rs
}

/// The rows without repetitions: of several that are alike the first.
pub open spec fn unique<T>(rs: Seq<T>, alike: spec_fn(T, T) -> bool) -> Seq<T>
    decreases rs.len(),
{
    if rs.len() == 0 {
        Seq::empty()
    } else {
        let so_far = unique(rs.drop_last(), alike);
        if known(so_far, rs.last(), alike) {
            so_far
        } else {
            so_far.push(rs.last())
        }
    }
}

/// A row like this is among the others.
pub open spec fn known<T>(rs: Seq<T>, rec: T, alike: spec_fn(T, T) -> bool) -> bool {
    exists|i: int| 0 <= i < rs.len() && alike(#[trigger] rs[i], rec)
}

/// Whether rows are alike: equal, or equal but for full-text scores.
pub open spec fn alike(scores: bool) -> spec_fn(Row, Row) -> bool {
    |a: Row, b: Row|
        if scores {
            order::same_entries(a, b)
        } else {
            binding::same_unscored(a, b)
        }
}

/// Whether rows are alike: equal, or equal but for full-text scores.
fn are_alike(a: &NamedRecord, b: &NamedRecord, scores: bool) -> (r: bool)
    ensures
        r == alike(scores)(a@, b@),
{
    if scores {
        record::same_row(a, b)
    } else {
        binding::union_rows_equal(a, b)
    }
}

/// True when a row like this is among the others.
fn is_known(rs: &Vec<NamedRecord>, rec: &NamedRecord, scores: bool) -> (r: bool)
    ensures
        r == known(record::rows(rs@), rec@, alike(scores)),
{
    let ghost s = record::rows(rs@);
    let mut i: usize = 0;
    while i < rs.len()
        invariant
            i <= rs.len(),
            s == record::rows(rs@),
            forall|j: int| 0 <= j < i ==> !alike(scores)(#[trigger] s[j], rec@),
        decreases rs.len() - i,
    {
        assert(s[i as int] == rs@[i as int]@);
        if are_alike(&rs[i], rec, scores) {
            return true;
        }
        i = i + 1;
    }
    false
}

/// The rows without repetitions. With `scores`, rows that differ in a full-text score alone
/// are different.
pub fn unique_rows(rs: Vec<NamedRecord>, scores: bool) -> (r: Vec<NamedRecord>)
    ensures
        record::rows(r@) == unique(record::rows(rs@), alike(scores)),
{
    let ghost s = record::rows(rs@);
    let mut out: Vec<NamedRecord> = Vec::new();
    let mut i: usize = 0;
    assert(s.take(0) =~= Seq::<Row>::empty());
    assert(record::rows(out@) =~= Seq::<Row>::empty());
    while i < rs.len()
        invariant
            i <= rs.len(),
            s == record::rows(rs@),
            record::rows(out@) == unique(s.take(i as int), alike(scores)),
        decreases rs.len() - i,
    {
        assert(s.take(i + 1).drop_last() =~= s.take(i as int));
        assert(s.take(i + 1).last() == rs@[i as int]@);
        if !is_known(&out, &rs[i], scores) {
            let ghost before = record::rows(out@);
            out.push(rs[i].dup());
            assert(record::rows(out@) =~= before.push(rs@[i as int]@));
        }
        i = i + 1;
    }
    assert(s.take(s.len() as int) =~= s);
    out
}

/// No two rows of a result without repetitions are alike, in the order in which they stand.
pub proof fn unique_rows_are_unlike<T>(rs: Seq<T>, alike: spec_fn(T, T) -> bool, i: int, j: int)
    requires
        0 <= i < j < unique(rs, alike).len(),
    ensures
        !alike(unique(rs, alike)[i], unique(rs, alike)[j]),
    decreases rs.len(),
{
    if rs.len() > 0 {
        let so_far = unique(rs.drop_last(), alike);
        if j < so_far.len() {
            unique_rows_are_unlike(rs.drop_last(), alike, i, j);
        } else {
            assert(!known(so_far, rs.last(), alike));
            assert(!alike(so_far[i], rs.last()));
        }
    }
}

/// Each row is in the result without repetitions, or one like it that came before.
pub proof fn unique_rows_miss_none<T>(rs: Seq<T>, alike: spec_fn(T, T) -> bool, i: int)
    requires
        0 <= i < rs.len(),
    ensures
        unique(rs, alike).contains(rs[i]) || known(unique(rs, alike), rs[i], alike),
    decreases rs.len(),
{
    let so_far = unique(rs.drop_last(), alike);
    let all = unique(rs, alike);
    if i < rs.len() - 1 {
        assert(rs.drop_last()[i] == rs[i]);
        unique_rows_miss_none(rs.drop_last(), alike, i);
        if so_far.contains(rs[i]) {
            let k = choose|k: int| 0 <= k < so_far.len() && so_far[k] == rs[i];
            assert(all[k] == rs[i]);
        } else {
            let k = choose|k: int| 0 <= k < so_far.len() && alike(#[trigger] so_far[k], rs[i]);
            assert(all[k] == so_far[k]);
        }
    } else if !known(so_far, rs.last(), alike) {
        assert(all[so_far.len() as int] == rs[i]);
    }
}

/// How rows with these sort keys stand to each other: by the first key that tells them apart.
/// Where the order is plain, that is by numbers and texts alone.
pub open spec fn by_keys(
    a: Seq<ValueView>,
    b: Seq<ValueView>,
    items: Seq<SortItemView>,
    plain: bool,
    i: int,
) -> Place
    decreases items.len() - i,
{
    if 0 <= i < items.len() {
        let p = if plain {
            order::placed_plainly(a[i], b[i])
        } else {
            order::placed(a[i], b[i])
        };
        order::first_of(
            if items[i].descending {
                order::flipped(p)
            } else {
                p
            },
            by_keys(a, b, items, plain, i + 1),
        )
    } else {
        Place::Same
    }
}

/// How rows with these sort keys stand to each other.
fn place_keys(a: &Vec<Value>, b: &Vec<Value>, items: &Vec<SortItem>, plain: bool) -> (r: Place)
    requires
        a.len() == items.len(),
        b.len() == items.len(),
    ensures
        r == by_keys(
            value::values_view(a@),
            value::values_view(b@),
            ast_model::sort_items_view(items@),
            plain,
            0,
        ),
{
    let ghost (x, y) = (value::values_view(a@), value::values_view(b@));
    let ghost s = ast_model::sort_items_view(items@);
    let mut i: usize = 0;
    while i < items.len()
        invariant
            a.len() == items.len(),
            b.len() == items.len(),
            i <= items.len(),
            x == value::values_view(a@),
            y == value::values_view(b@),
            s == ast_model::sort_items_view(items@),
            by_keys(x, y, s, plain, 0) == by_keys(x, y, s, plain, i as int),
        decreases items.len() - i,
    {
        assert(s[i as int] == items@[i as int]@);
        let p = if plain {
            order::place_plainly(&a[i], &b[i])
        } else {
            order::compare_values_for_sort(&a[i], &b[i])
        };
        let p = if items[i].descending {
            order::reverse(p)
        } else {
            p
        };
        if p != Place::Same {
            return p;
        }
        i = i + 1;
    }
    Place::Same
}

/// The sort keys of a row. One that cannot be computed is null.
pub open spec fn sort_keys(rec: Row, items: Seq<SortItemView>, m: Model) -> Seq<ValueView> {
    Seq::new(
        items.len(),
        |i: int|
            match (m.eval)(items[i].expr, rec) {
                Ok(v) => v,
                Err(_) => ValueView::Null,
            },
    )
}

/// The sort keys of a row.
pub fn find_sort_keys<S: Source>(db: &S, rec: &NamedRecord, items: &Vec<SortItem>) -> (r: Vec<Value>)
    ensures
        r.len() == items.len(),
        source::steady(*db) ==> value::values_view(r@) == sort_keys(
            rec@,
            ast_model::sort_items_view(items@),
            source::model(*db),
        ),
{
    let ghost whole = sort_keys(rec@, ast_model::sort_items_view(items@), source::model(*db));
    let mut out: Vec<Value> = Vec::new();
    let mut i: usize = 0;
    while i < items.len()
        invariant
            i <= items.len(),
            out.len() == i,
            whole == sort_keys(
                rec@,
                ast_model::sort_items_view(items@),
                source::model(*db),
            ),
            source::steady(*db) ==> value::values_view(out@) == whole.take(i as int),
        decreases items.len() - i,
    {
        assert(ast_model::sort_items_view(items@)[i as int] == items@[i as int]@);
        let v = match source::ask_eval(db, &items[i].expr, rec) {
            Ok(v) => v,
            Err(_) => Value::Null,
        };
        let ghost before = value::values_view(out@);
        out.push(v);
        assert(value::values_view(out@) =~= before.push(v@));
        assert(whole.take(i + 1) =~= whole.take(i as int).push(whole[i as int]));
        i = i + 1;
    }
    assert(whole.take(whole.len() as int) =~= whole);
    out
}

/// The order of the rows, where `before` says that a row belongs before another: the row goes
/// behind all rows that it does not belong before.
pub open spec fn sorted_in<T>(s: Seq<T>, x: T, before: spec_fn(T, T) -> bool) -> Seq<T>
    decreases s.len(),
{
    if s.len() == 0 || !before(x, s.last()) {
        s.push(x)
    } else {
        sorted_in(s.drop_last(), x, before).push(s.last())
    }
}

/// The rows in order. Rows of which neither belongs before the other keep their order.
pub open spec fn sorted<T>(s: Seq<T>, before: spec_fn(T, T) -> bool) -> Seq<T>
    decreases s.len(),
{
    if s.len() == 0 {
        s
    } else {
        sorted_in(sorted(s.drop_last(), before), s.last(), before)
    }
}

/// A row belongs before another.
pub open spec fn row_before(items: Seq<SortItemView>, m: Model) -> spec_fn(Row, Row) -> bool {
    |a: Row, b: Row|
        by_keys(sort_keys(a, items, m), sort_keys(b, items, m), items, false, 0) == Place::Before
}

/// A row belongs before another in the plain order.
pub open spec fn row_plainly_before(items: Seq<SortItemView>, m: Model) -> spec_fn(
    Row,
    Row,
) -> bool {
    |a: Row, b: Row|
        by_keys(sort_keys(a, items, m), sort_keys(b, items, m), items, true, 0) == Place::Before
}

/// Going on from a place where the row belongs behind.
pub proof fn lemma_sorted_in<T>(s: Seq<T>, x: T, before: spec_fn(T, T) -> bool, at: int)
    requires
        0 <= at <= s.len(),
        at > 0 ==> !before(x, s[at - 1]),
        forall|j: int| at <= j < s.len() ==> before(x, #[trigger] s[j]),
    ensures
        sorted_in(s, x, before) == s.insert(at, x),
    decreases s.len(),
{
    if at == s.len() {
        assert(s.insert(at, x) =~= s.push(x));
    } else {
        assert(before(x, s.last()));
        let t = s.drop_last();
        assert forall|j: int| at <= j < t.len() implies before(x, #[trigger] t[j]) by {
            assert(t[j] == s[j]);
        }
        lemma_sorted_in(t, x, before, at);
        assert(t.insert(at, x).push(s.last()) =~= s.insert(at, x));
    }
}

/// A row belongs before another, going by what `key` gives for them.
pub open spec fn key_before<T>(
    key: spec_fn(T) -> Seq<ValueView>,
    items: Seq<SortItemView>,
    plain: bool,
) -> spec_fn(T, T) -> bool {
    |a: T, b: T| by_keys(key(a), key(b), items, plain, 0) == Place::Before
}

/// The rows in the order that their sort keys put them in. `key` says what their keys are,
/// provided that `on` holds.
pub fn sort_keyed<T: View>(
    rs: Vec<T>,
    row_keys: Vec<Vec<Value>>,
    items: &Vec<SortItem>,
    plain: bool,
    Ghost(key): Ghost<spec_fn(T::V) -> Seq<ValueView>>,
    Ghost(on): Ghost<bool>,
) -> (r: Vec<T>)
    requires
        rs.len() == row_keys.len(),
        forall|j: int|
            0 <= j < row_keys@.len() ==> (#[trigger] row_keys@[j]).len() == items.len(),
        on ==> forall|j: int|
            0 <= j < row_keys@.len() ==> value::values_view((#[trigger] row_keys@[j])@) == key(
                rs@[j]@,
            ),
    ensures
        on ==> flow::viewed(r@) == sorted(
            flow::viewed(rs@),
            key_before(key, ast_model::sort_items_view(items@), plain),
        ),
{
    let ghost its = ast_model::sort_items_view(items@);
    let ghost before = key_before(key, its, plain);
    let ghost s = flow::viewed(rs@);
    let ghost n = rs@.len();
    let mut rest = rs;
    let mut rest_keys = row_keys;
    let mut out: Vec<T> = Vec::new();
    let mut keys: Vec<Vec<Value>> = Vec::new();
    assert(s.take(0) =~= Seq::<T::V>::empty());
    assert(flow::viewed(out@) =~= Seq::<T::V>::empty());
    assert(s.skip(0) =~= s);
    while rest.len() > 0
        invariant
            its == ast_model::sort_items_view(items@),
            before == key_before(key, its, plain),
            rest@.len() <= n,
            n == s.len(),
            flow::viewed(rest@) == s.skip(n - rest@.len()),
            rest.len() == rest_keys.len(),
            out.len() == keys.len(),
            forall|j: int| 0 <= j < keys@.len() ==> (#[trigger] keys@[j]).len() == items.len(),
            forall|j: int|
                0 <= j < rest_keys@.len() ==> (#[trigger] rest_keys@[j]).len() == items.len(),
            on ==> forall|j: int|
                0 <= j < keys@.len() ==> value::values_view((#[trigger] keys@[j])@) == key(
                    out@[j]@,
                ),
            on ==> forall|j: int|
                0 <= j < rest_keys@.len() ==> value::values_view((#[trigger] rest_keys@[j])@)
                    == key(rest@[j]@),
            on ==> flow::viewed(out@) == sorted(s.take(n - rest@.len()), before),
        decreases rest.len(),
    {
        let ghost i = n - rest@.len();
        let ghost was = rest@;
        assert(s.take(i + 1).drop_last() =~= s.take(i));
        assert(flow::viewed(was)[0] == s[i]);
        let ghost was_keys = rest_keys@;
        assert(on ==> value::values_view(was_keys[0]@) == key(was[0]@));
        let rec = rest.remove(0);
        let own = rest_keys.remove(0);
        assert(rest@ =~= was.drop_first());
        assert(rest_keys@ =~= was_keys.drop_first());
        assert forall|j: int| 0 <= j < rest@.len() implies #[trigger] flow::viewed(rest@)[j]
            == s.skip(i + 1)[j] by {
            assert(flow::viewed(was)[j + 1] == s.skip(i)[j + 1]);
        }
        assert(flow::viewed(rest@) =~= s.skip(i + 1));
        let mut at = out.len();
        while at > 0 && place_keys(&own, &keys[at - 1], items, plain) == Place::Before
            invariant
                at <= out.len(),
                out.len() == keys.len(),
                own.len() == items.len(),
                its == ast_model::sort_items_view(items@),
                before == key_before(key, its, plain),
                on ==> value::values_view(own@) == key(rec@),
                forall|j: int| 0 <= j < keys@.len() ==> (#[trigger] keys@[j]).len() == items.len(),
                on ==> forall|j: int|
                    0 <= j < keys@.len() ==> value::values_view((#[trigger] keys@[j])@) == key(
                        out@[j]@,
                    ),
                on ==> forall|j: int|
                    at <= j < out@.len() ==> before(rec@, #[trigger] flow::viewed(out@)[j]),
            decreases at,
        {
            at = at - 1;
            assert(on ==> before(rec@, flow::viewed(out@)[at as int]));
        }
        let ghost held = flow::viewed(out@);
        proof {
            if on {
                if at > 0 {
                    assert(value::values_view(keys@[at - 1]@) == key(out@[at - 1]@));
                    assert(!before(rec@, held[at - 1]));
                }
                lemma_sorted_in(held, rec@, before, at as int);
            }
        }
        out.insert(at, rec);
        keys.insert(at, own);
        assert(flow::viewed(out@) =~= held.insert(at as int, rec@));
    }
    assert(s.take(n as int) =~= s);
    out
}

/// The rows in order, or in the plain order.
pub fn sort_rows<S: Source>(
    db: &S,
    rs: Vec<NamedRecord>,
    items: &Vec<SortItem>,
    plain: bool,
) -> (r: Vec<NamedRecord>)
    ensures
        source::steady(*db) ==> record::rows(r@) == sorted(
            record::rows(rs@),
            if plain {
                row_plainly_before(ast_model::sort_items_view(items@), source::model(*db))
            } else {
                row_before(ast_model::sort_items_view(items@), source::model(*db))
            },
        ),
{
    let ghost m = source::model(*db);
    let ghost its = ast_model::sort_items_view(items@);
    let ghost key = |rec: Row| sort_keys(rec, its, m);
    let mut keys: Vec<Vec<Value>> = Vec::new();
    let mut i: usize = 0;
    while i < rs.len()
        invariant
            i <= rs.len(),
            keys.len() == i,
            m == source::model(*db),
            its == ast_model::sort_items_view(items@),
            forall|j: int| 0 <= j < keys@.len() ==> (#[trigger] keys@[j]).len() == items.len(),
            source::steady(*db) ==> forall|j: int|
                0 <= j < keys@.len() ==> value::values_view((#[trigger] keys@[j])@) == sort_keys(
                    rs@[j]@,
                    its,
                    m,
                ),
        decreases rs.len() - i,
    {
        keys.push(find_sort_keys(db, &rs[i], items));
        i = i + 1;
    }
    assert(flow::viewed(rs@) =~= record::rows(rs@));
    assert(key_before(key, its, false) =~= row_before(its, m));
    assert(key_before(key, its, true) =~= row_plainly_before(its, m));
    let r = sort_keyed(rs, keys, items, plain, Ghost(key), Ghost(source::steady(*db)));
    assert(flow::viewed(r@) =~= record::rows(r@));
    r
}

} // verus!
