//! What aggregates say of the values of a group.
use super::aggregate;
use super::sort_laws;
use crate::ast_model;
use crate::ast_model::{ExprKindView, ExprView};
use crate::float;
use crate::order;
use crate::order::Place;
use crate::plan::{AggregateExpr, AggregateFunction};
use crate::record::Row;
use crate::source::Model;
use crate::types::ErrorView;
use crate::value::{Float, ValueView};
use vstd::prelude::*;

verus! {

/// The expression can be evaluated on each of the rows.
pub open spec fn all_evaluate(rs: Seq<Row>, e: ExprView, m: Model) -> bool {
    forall|i: int| 0 <= i < rs.len() ==> (m.eval)(e, #[trigger] rs[i]) is Ok
}

/// The values of an expression on the rows.
pub open spec fn values_on(rs: Seq<Row>, e: ExprView, m: Model) -> Seq<ValueView> {
    Seq::new(rs.len(), |i: int| (m.eval)(e, rs[i])->Ok_0)
}

/// The value is not null.
pub open spec fn is_something() -> spec_fn(ValueView) -> bool {
    |v: ValueView| !(v is Null)
}

/// The value is a number.
pub open spec fn is_number() -> spec_fn(ValueView) -> bool {
    |v: ValueView| v is I64 || v is F64
}

/// A number as a floating point number.
pub open spec fn as_number() -> spec_fn(ValueView) -> Float {
    |v: ValueView|
        match v {
            ValueView::I64(n) => Float { bits: float::of_int(n as int) as u64 },
            ValueView::F64(f) => f,
            _ => arbitrary(),
        }
}

/// The sum of the integers among values.
pub open spec fn total(s: Seq<ValueView>) -> int
    decreases s.len(),
{
    if s.len() == 0 {
        0
    } else {
        total(s.drop_last()) + match s.last() {
            ValueView::I64(n) => n as int,
            _ => 0,
        }
    }
}

/// Values are evaluated row by row.
proof fn lemma_evaluated(rs: Seq<Row>, e: ExprView, m: Model)
    requires
        all_evaluate(rs, e, m),
    ensures
        aggregate::evaluated(rs, e, m) == Ok::<Seq<ValueView>, ErrorView>(values_on(rs, e, m)),
    decreases rs.len(),
{
    if rs.len() > 0 {
        let t = rs.drop_last();
        assert forall|i: int| 0 <= i < t.len() implies (m.eval)(e, #[trigger] t[i]) is Ok by {
            assert(t[i] == rs[i]);
        }
        lemma_evaluated(t, e, m);
        assert(rs[rs.len() - 1] == rs.last());
        assert(values_on(rs, e, m) =~= values_on(t, e, m).push((m.eval)(e, rs.last())->Ok_0));
    } else {
        assert(values_on(rs, e, m) =~= Seq::<ValueView>::empty());
    }
}

/// Where values are evaluated, none fails.
proof fn lemma_none_failed(rs: Seq<Row>, e: ExprView, m: Model)
    requires
        aggregate::evaluated(rs, e, m) is Ok,
    ensures
        all_evaluate(rs, e, m),
    decreases rs.len(),
{
    if rs.len() > 0 {
        let t = rs.drop_last();
        lemma_none_failed(t, e, m);
        assert forall|i: int| 0 <= i < rs.len() implies (m.eval)(e, #[trigger] rs[i]) is Ok by {
            if i < t.len() {
                assert(t[i] == rs[i]);
            }
        }
    }
}

/// Dropping nulls is keeping what is not null.
proof fn lemma_present(s: Seq<ValueView>)
    ensures
        aggregate::present(s) == s.filter(is_something()),
    decreases s.len(),
{
    reveal(Seq::filter);
    if s.len() > 0 {
        lemma_present(s.drop_last());
    }
}

/// Picking numbers is keeping the numbers.
proof fn lemma_numbers(s: Seq<ValueView>)
    ensures
        aggregate::numbers(s) == s.filter(is_number()).map_values(as_number()),
    decreases s.len(),
{
    reveal(Seq::filter);
    if s.len() > 0 {
        let t = s.drop_last();
        lemma_numbers(t);
        let kept = t.filter(is_number());
        if is_number()(s.last()) {
            assert(kept.push(s.last()).map_values(as_number()) =~= kept.map_values(
                as_number(),
            ).push(as_number()(s.last())));
        }
    } else {
        assert(s.filter(is_number()).map_values(as_number()) =~= Seq::<Float>::empty());
    }
}

/// The aggregate takes in all rows.
pub open spec fn takes_all(agg: AggregateExpr) -> bool {
    !agg.distinct || agg.input@.kind == ExprKindView::Star
}

/// `count(*)` counts the rows, and `count(e)` those on which `e` is not null.
pub proof fn count_counts(agg: AggregateExpr, rs: Seq<Row>, m: Model)
    requires
        agg.function == AggregateFunction::Count,
        takes_all(agg),
        rs.len() <= i64::MAX,
    ensures
        agg.input@.kind == ExprKindView::Star ==> aggregate::aggregate(agg, rs, m) == Ok::<
            ValueView,
            ErrorView,
        >(ValueView::I64(rs.len() as i64)),
        agg.input@.kind != ExprKindView::Star ==> aggregate::aggregate(agg, rs, m) == Ok::<
            ValueView,
            ErrorView,
        >(
            ValueView::I64(
                rs.filter(
                    |r: Row|
                        (m.eval)(agg.input@, r) != Ok::<ValueView, ErrorView>(ValueView::Null),
                ).len() as i64,
            ),
        ),
{
    lemma_non_null(rs, agg.input@, m);
}

/// Counting what is not null.
proof fn lemma_non_null(rs: Seq<Row>, e: ExprView, m: Model)
    ensures
        aggregate::non_null(rs, e, m) == rs.filter(
            |r: Row| (m.eval)(e, r) != Ok::<ValueView, ErrorView>(ValueView::Null),
        ).len(),
    decreases rs.len(),
{
    reveal(Seq::filter);
    if rs.len() > 0 {
        lemma_non_null(rs.drop_last(), e, m);
    }
}

/// `collect` gives the values that are not null, in the order of the rows.
pub proof fn collect_keeps_what_is_not_null(agg: AggregateExpr, rs: Seq<Row>, m: Model)
    requires
        agg.function == AggregateFunction::Collect,
        takes_all(agg),
        all_evaluate(rs, agg.input@, m),
    ensures
        aggregate::aggregate(agg, rs, m) == Ok::<ValueView, ErrorView>(
            ValueView::List(values_on(rs, agg.input@, m).filter(is_something())),
        ),
{
    lemma_evaluated(rs, agg.input@, m);
    lemma_present(values_on(rs, agg.input@, m));
}

/// `sum` over values without floating point numbers is the sum of the integers, which wraps
/// around where it is out of range: it differs from the true sum by a multiple of 2^64.
pub proof fn sum_adds_the_integers(agg: AggregateExpr, rs: Seq<Row>, m: Model)
    requires
        agg.function == AggregateFunction::Sum,
        takes_all(agg),
        all_evaluate(rs, agg.input@, m),
        forall|i: int|
            0 <= i < rs.len() ==> !((#[trigger] values_on(rs, agg.input@, m)[i]) is F64),
    ensures
        aggregate::aggregate(agg, rs, m) matches Ok(ValueView::I64(n)) && (total(
            values_on(rs, agg.input@, m),
        ) - n) % 0x1_0000_0000_0000_0000 == 0,
        i64::MIN <= total(values_on(rs, agg.input@, m)) <= i64::MAX ==> aggregate::aggregate(
            agg,
            rs,
            m,
        ) == Ok::<ValueView, ErrorView>(
            ValueView::I64(total(values_on(rs, agg.input@, m)) as i64),
        ),
{
    lemma_evaluated(rs, agg.input@, m);
    let s = values_on(rs, agg.input@, m);
    lemma_sum(s);
    let n = aggregate::integer_sum(s);
    let t = total(s);
    if i64::MIN <= t <= i64::MAX {
        assert(-0x1_0000_0000_0000_0000 < t - n < 0x1_0000_0000_0000_0000);
        assert(t == n);
    }
}

/// The sum of integers, up to a multiple of 2^64.
proof fn lemma_sum(s: Seq<ValueView>)
    ensures
        (total(s) - aggregate::integer_sum(s)) % 0x1_0000_0000_0000_0000 == 0,
    decreases s.len(),
{
    if s.len() > 0 {
        lemma_sum(s.drop_last());
        match s.last() {
            ValueView::I64(n) => {
                let before = aggregate::integer_sum(s.drop_last());
                assert((before + n - before.wrapping_add(n)) % 0x1_0000_0000_0000_0000 == 0);
                let a = total(s.drop_last()) - before;
                let b = before + n - before.wrapping_add(n);
                assert((a + b) % 0x1_0000_0000_0000_0000 == 0);
            },
            _ => {},
        }
    }
}

/// The averages and deviations, and sums with a floating point number among them, are those of
/// all numbers among the values, in the order of the rows. Of no numbers the average is null.
pub proof fn numbers_are_combined(agg: AggregateExpr, rs: Seq<Row>, m: Model)
    requires
        takes_all(agg),
        all_evaluate(rs, agg.input@, m),
    ensures
        ({
            let s = values_on(rs, agg.input@, m);
            let ns = s.filter(is_number()).map_values(as_number());
            let none = Float { bits: 0 };
            let r = aggregate::aggregate(agg, rs, m);
            &&& agg.function == AggregateFunction::Sum && (exists|i: int|
                0 <= i < s.len() && (#[trigger] s[i]) is F64) ==> r == Ok::<ValueView, ErrorView>(
                ValueView::F64((m.combine)(AggregateFunction::Sum, ns, none)),
            )
            &&& agg.function == AggregateFunction::Avg ==> r == Ok::<ValueView, ErrorView>(
                if ns.len() == 0 {
                    ValueView::Null
                } else {
                    ValueView::F64((m.combine)(AggregateFunction::Avg, ns, none))
                },
            )
            &&& agg.function == AggregateFunction::StDev ==> r == Ok::<ValueView, ErrorView>(
                if ns.len() < 2 {
                    ValueView::F64(none)
                } else {
                    ValueView::F64((m.combine)(AggregateFunction::StDev, ns, none))
                },
            )
            &&& agg.function == AggregateFunction::StDevP ==> r == Ok::<ValueView, ErrorView>(
                if ns.len() == 0 {
                    ValueView::F64(none)
                } else {
                    ValueView::F64((m.combine)(AggregateFunction::StDevP, ns, none))
                },
            )
        }),
{
    let s = values_on(rs, agg.input@, m);
    lemma_evaluated(rs, agg.input@, m);
    lemma_numbers(s);
}

/// A percentile is asked for by a number from zero to one, and taken of all numbers among the
/// values; of no numbers it is null, and another share than from zero to one is refused.
pub proof fn percentiles_are_of_all_numbers(agg: AggregateExpr, rs: Seq<Row>, m: Model, share: Float)
    requires
        agg.function == AggregateFunction::PercentileDisc || agg.function
            == AggregateFunction::PercentileCont,
        takes_all(agg),
        rs.len() > 0,
        all_evaluate(rs, agg.input@, m),
        agg.extra_arg is Some,
        (m.eval)(agg.extra_arg->0@, rs[0]) == Ok::<ValueView, ErrorView>(ValueView::F64(share)),
    ensures
        share.bits <= 0x3ff0_0000_0000_0000 ==> ({
            let ns = values_on(rs, agg.input@, m).filter(is_number()).map_values(as_number());
            aggregate::aggregate(agg, rs, m) == Ok::<ValueView, ErrorView>(
                if ns.len() == 0 {
                    ValueView::Null
                } else {
                    ValueView::F64((m.combine)(agg.function, ns, share))
                },
            )
        }),
        0x3ff0_0000_0000_0000 < share.bits < 0x8000_0000_0000_0000 || share.bits
            > 0x8000_0000_0000_0000 ==> aggregate::aggregate(agg, rs, m) is Err,
{
    let s = values_on(rs, agg.input@, m);
    lemma_evaluated(rs, agg.input@, m);
    lemma_numbers(s);
    assert(ast_model::opt_expr_view(agg.extra_arg) == Some(agg.extra_arg->0@));
}

/// A percentile cannot be asked for without a share.
pub proof fn percentiles_need_a_share(agg: AggregateExpr, rs: Seq<Row>, m: Model)
    requires
        agg.function == AggregateFunction::PercentileDisc || agg.function
            == AggregateFunction::PercentileCont,
        takes_all(agg),
        agg.extra_arg is None,
    ensures
        aggregate::aggregate(agg, rs, m) is Err,
{
}

/// Values are compared with each other without contradiction: they are of one type other than
/// list, or they are numbers.
pub open spec fn comparable(a: ValueView, b: ValueView) -> bool {
    sort_laws::of_one_kind(a, b) || ((a is I64 || a is F64) && (b is I64 || b is F64))
}

/// Where a number stands among all numbers; what is not a number stands behind.
spec fn height(v: ValueView) -> int {
    match v {
        ValueView::I64(n) => float::rank(Float { bits: float::of_int(n as int) as u64 }),
        ValueView::F64(f) => if float::is_nan(f) {
            0x8000_0000_0000_0000
        } else {
            float::rank(f)
        },
        _ => 0,
    }
}

/// Numbers and how they are placed.
proof fn lemma_heights(a: ValueView, b: ValueView)
    requires
        a is I64 || a is F64,
        b is I64 || b is F64,
    ensures
        order::placed(a, b) == Place::Before ==> height(a) <= height(b),
        height(a) < height(b) ==> order::placed(a, b) == Place::Before,
        order::placed(a, b) == Place::Before && height(a) == height(b) ==> a is I64 && b is I64,
{
    match (a, b) {
        (ValueView::I64(x), ValueView::I64(y)) => {
            if x <= y {
                float::nearest_numbers_stand_as_their_integers(x, y);
            } else {
                float::nearest_numbers_stand_as_their_integers(y, x);
            }
        },
        (ValueView::I64(x), ValueView::F64(_)) => {
            float::nearest_numbers_stand_as_their_integers(x, x);
        },
        (ValueView::F64(_), ValueView::I64(y)) => {
            float::nearest_numbers_stand_as_their_integers(y, y);
        },
        _ => {},
    }
}

/// What is behind one value stays not before another that is not behind it.
proof fn lemma_topped(s: ValueView, r: ValueView, v: ValueView)
    requires
        comparable(s, r),
        comparable(s, v),
        comparable(r, v),
        !(s is Null),
        !(r is Null),
        !(v is Null),
    ensures
        order::placed(s, r) == Place::Before && order::placed(s, v) != Place::Before
            ==> order::placed(r, v) != Place::Before,
        order::placed(r, s) == Place::Before && order::placed(v, s) != Place::Before
            ==> order::placed(v, r) != Place::Before,
{
    if (s is I64 || s is F64) && (r is I64 || r is F64) && (v is I64 || v is F64) {
        lemma_heights(s, r);
        lemma_heights(s, v);
        lemma_heights(r, v);
        lemma_heights(r, s);
        lemma_heights(v, s);
        lemma_heights(v, r);
    } else {
        sort_laws::lemma_values_fit(s, r, v);
        sort_laws::lemma_values_fit(r, v, s);
        sort_laws::lemma_values_fit(s, v, r);
        sort_laws::lemma_values_fit(v, r, s);
        sort_laws::lemma_values_fit(v, s, r);
        sort_laws::lemma_values_fit(r, s, v);
    }
}

/// Any two of the values are comparable.
pub open spec fn all_comparable(s: Seq<ValueView>) -> bool {
    forall|i: int, j: int|
        0 <= i < s.len() && 0 <= j < s.len() ==> comparable(#[trigger] s[i], #[trigger] s[j])
}

/// The value is not beyond another.
#[verifier::opaque]
spec fn within(v: ValueView, r: ValueView, side: Place) -> bool {
    if side == Place::Before {
        order::placed(v, r) != Place::Before
    } else {
        order::placed(r, v) != Place::Before
    }
}

/// The further of two values.
#[verifier::opaque]
spec fn pick(so_far: ValueView, next: ValueView, side: Place) -> ValueView {
    if side == Place::Before {
        if order::placed(next, so_far) == Place::Before {
            next
        } else {
            so_far
        }
    } else if order::placed(so_far, next) == Place::Before {
        next
    } else {
        so_far
    }
}

/// The extreme value of more than one is picked.
proof fn lemma_picked(s: Seq<ValueView>, side: Place)
    requires
        s.len() > 1,
    ensures
        aggregate::extreme(s, side) == pick(
            aggregate::extreme(s.drop_last(), side),
            s.last(),
            side,
        ),
{
    reveal(pick);
}

/// A value is not beyond itself.
proof fn lemma_within_itself(v: ValueView, side: Place)
    ensures
        within(v, v, side),
{
    reveal(within);
    sort_laws::lemma_not_before_itself(v);
}

/// The extreme value is one of the values.
proof fn lemma_extreme_among(s: Seq<ValueView>, side: Place)
    requires
        s.len() > 0,
    ensures
        s.contains(aggregate::extreme(s, side)),
    decreases s.len(),
{
    let r = aggregate::extreme(s, side);
    if s.len() == 1 {
        assert(s[0] == r);
    } else {
        let t = s.drop_last();
        lemma_extreme_among(t, side);
        let so_far = aggregate::extreme(t, side);
        let k = choose|k: int| 0 <= k < t.len() && t[k] == so_far;
        assert(s[k] == so_far);
        assert(s[s.len() - 1] == s.last());
    }
}

/// One more value: what was within the extreme stays within.
proof fn lemma_step(so_far: ValueView, next: ValueView, v: ValueView, side: Place)
    requires
        comparable(so_far, next),
        comparable(so_far, v),
        comparable(next, v),
        !(so_far is Null),
        !(next is Null),
        !(v is Null),
        within(v, so_far, side),
    ensures
        within(v, pick(so_far, next, side), side),
        within(next, pick(so_far, next, side), side),
{
    reveal(within);
    reveal(pick);
    lemma_topped(so_far, next, v);
    sort_laws::lemma_not_before_itself(next);
}

/// No value is beyond the extreme one.
proof fn lemma_extreme_beyond(s: Seq<ValueView>, side: Place, i: int)
    requires
        0 <= i < s.len(),
        forall|i: int| 0 <= i < s.len() ==> !((#[trigger] s[i]) is Null),
        all_comparable(s),
    ensures
        within(s[i], aggregate::extreme(s, side), side),
    decreases s.len(),
{
    if s.len() == 1 {
        lemma_within_itself(s[0], side);
    } else {
        let t = s.drop_last();
        let n = s.len() - 1;
        assert forall|j: int| 0 <= j < t.len() implies !((#[trigger] t[j]) is Null) by {
            assert(!(s[j] is Null));
        }
        assert forall|a: int, b: int| 0 <= a < t.len() && 0 <= b < t.len() implies comparable(
            #[trigger] t[a],
            #[trigger] t[b],
        ) by {
            assert(comparable(s[a], s[b]));
        }
        lemma_extreme_among(t, side);
        let so_far = aggregate::extreme(t, side);
        let k = choose|k: int| 0 <= k < t.len() && t[k] == so_far;
        let v = if i < n {
            s[i]
        } else {
            so_far
        };
        if i < n {
            lemma_extreme_beyond(t, side, i);
        } else {
            lemma_within_itself(so_far, side);
        }
        assert(comparable(s[k], s[n]) && !(s[k] is Null) && !(s[n] is Null));
        assert(comparable(s[k], s[i]) && comparable(s[n], s[i]) && comparable(s[k], s[k]));
        lemma_step(so_far, s.last(), v, side);
        lemma_picked(s, side);
    }
}

/// What passes a test is what is kept.
proof fn lemma_kept(s: Seq<ValueView>, p: spec_fn(ValueView) -> bool)
    ensures
        forall|i: int| 0 <= i < s.filter(p).len() ==> s.contains(#[trigger] s.filter(p)[i]) && p(
            s.filter(p)[i],
        ),
        forall|i: int| 0 <= i < s.len() && p(#[trigger] s[i]) ==> s.filter(p).contains(s[i]),
{
    s.filter_lemma(p);
    assert forall|i: int| 0 <= i < s.filter(p).len() implies s.contains(#[trigger] s.filter(p)[i])
        && p(s.filter(p)[i]) by {
        s.lemma_filter_contains_rev(p, s.filter(p)[i]);
    }
}

/// The maximum of a group is null only where all its values are null; else it is one of the
/// values that are not null, and none of those stands behind it. The same holds of the minimum,
/// with none standing before it. Values are comparable where they are of one type, or numbers.
pub proof fn extremes_are_of_what_is_not_null(agg: AggregateExpr, rs: Seq<Row>, m: Model, r: ValueView)
    requires
        agg.function == AggregateFunction::Max || agg.function == AggregateFunction::Min,
        takes_all(agg),
        aggregate::aggregate(agg, rs, m) == Ok::<ValueView, ErrorView>(r),
    ensures
        ({
            let s = values_on(rs, agg.input@, m);
            &&& r is Null <==> forall|i: int| 0 <= i < s.len() ==> (#[trigger] s[i]) is Null
            &&& !(r is Null) ==> s.contains(r)
            &&& all_comparable(s) ==> forall|i: int|
                0 <= i < s.len() && !((#[trigger] s[i]) is Null) ==> (if agg.function
                    == AggregateFunction::Max {
                    order::placed(r, s[i]) != Place::Before
                } else {
                    order::placed(s[i], r) != Place::Before
                })
        }),
{
    let e = agg.input@;
    lemma_none_failed(rs, e, m);
    lemma_evaluated(rs, e, m);
    let s = values_on(rs, e, m);
    let kept = s.filter(is_something());
    lemma_present(s);
    lemma_kept(s, is_something());
    let side = if agg.function == AggregateFunction::Max {
        Place::After
    } else {
        Place::Before
    };
    assert(r == aggregate::extreme(kept, side));
    if kept.len() > 0 {
        assert forall|i: int| 0 <= i < kept.len() implies !((#[trigger] kept[i]) is Null) by {
            assert(is_something()(kept[i]));
        }
        lemma_extreme_among(kept, side);
        let k = choose|k: int| 0 <= k < kept.len() && kept[k] == r;
        assert(s.contains(kept[k]));
        let n = choose|n: int| 0 <= n < s.len() && s[n] == r;
        assert(!(s[n] is Null));
        if all_comparable(s) {
            assert forall|i: int, j: int|
                0 <= i < kept.len() && 0 <= j < kept.len() implies comparable(
                #[trigger] kept[i],
                #[trigger] kept[j],
            ) by {
                assert(s.contains(kept[i]) && s.contains(kept[j]));
                let a = choose|a: int| 0 <= a < s.len() && s[a] == kept[i];
                let b = choose|b: int| 0 <= b < s.len() && s[b] == kept[j];
                assert(comparable(s[a], s[b]));
            }
            assert forall|i: int| 0 <= i < s.len() && !((#[trigger] s[i]) is Null) implies (
            if agg.function == AggregateFunction::Max {
                order::placed(r, s[i]) != Place::Before
            } else {
                order::placed(s[i], r) != Place::Before
            }) by {
                assert(is_something()(s[i]));
                assert(kept.contains(s[i]));
                let j = choose|j: int| 0 <= j < kept.len() && kept[j] == s[i];
                lemma_extreme_beyond(kept, side, j);
                reveal(within);
            }
        }
    } else {
        assert forall|i: int| 0 <= i < s.len() implies (#[trigger] s[i]) is Null by {
            if !(s[i] is Null) {
                assert(is_something()(s[i]));
                assert(kept.contains(s[i]));
            }
        }
    }
}

/// A value that is left out wherever it stands.
proof fn lemma_filter_without(s: Seq<ValueView>, i: int, v: ValueView, p: spec_fn(ValueView) -> bool)
    requires
        0 <= i <= s.len(),
        !p(v),
    ensures
        s.insert(i, v).filter(p) == s.filter(p),
{
    let a = s.take(i);
    let b = s.skip(i);
    assert(s.insert(i, v) =~= a + (seq![v] + b));
    assert(s =~= a + b);
    Seq::filter_distributes_over_add(a, seq![v] + b, p);
    Seq::filter_distributes_over_add(seq![v], b, p);
    Seq::filter_distributes_over_add(a, b, p);
    reveal_with_fuel(Seq::<ValueView>::filter, 2);
    assert(seq![v].drop_last() =~= Seq::<ValueView>::empty());
    assert(seq![v].filter(p) =~= Seq::<ValueView>::empty());
    assert(Seq::<ValueView>::empty() + b.filter(p) =~= b.filter(p));
}

/// A null adds nothing to a sum.
proof fn lemma_sum_without(s: Seq<ValueView>, i: int)
    requires
        0 <= i <= s.len(),
    ensures
        aggregate::integer_sum(s.insert(i, ValueView::Null)) == aggregate::integer_sum(s),
        aggregate::any_float(s.insert(i, ValueView::Null)) == aggregate::any_float(s),
    decreases s.len(),
{
    let t = s.insert(i, ValueView::Null);
    if i == s.len() {
        assert(t.drop_last() =~= s);
    } else {
        lemma_sum_without(s.drop_last(), i);
        assert(t.drop_last() =~= s.drop_last().insert(i, ValueView::Null));
        assert(t.last() == s.last());
    }
    if aggregate::any_float(s) {
        let k = choose|k: int| 0 <= k < s.len() && (#[trigger] s[k]) is F64;
        if k < i {
            assert(t[k] == s[k]);
        } else {
            assert(t[k + 1] == s[k]);
        }
    }
    if aggregate::any_float(t) {
        let k = choose|k: int| 0 <= k < t.len() && (#[trigger] t[k]) is F64;
        if k < i {
            assert(s[k] == t[k]);
        } else {
            assert(s[k - 1] == t[k]);
        }
    }
}

/// A row on which the value is null changes no sum, average, minimum, maximum, list or
/// deviation, wherever it stands.
pub proof fn nulls_change_nothing(agg: AggregateExpr, rs: Seq<Row>, m: Model, i: int, r: Row)
    requires
        agg.function == AggregateFunction::Sum || agg.function == AggregateFunction::Avg
            || agg.function == AggregateFunction::Min || agg.function == AggregateFunction::Max
            || agg.function == AggregateFunction::Collect || agg.function
            == AggregateFunction::StDev || agg.function == AggregateFunction::StDevP,
        takes_all(agg),
        0 <= i <= rs.len(),
        all_evaluate(rs, agg.input@, m),
        (m.eval)(agg.input@, r) == Ok::<ValueView, ErrorView>(ValueView::Null),
    ensures
        aggregate::aggregate(agg, rs.insert(i, r), m) == aggregate::aggregate(agg, rs, m),
{
    let e = agg.input@;
    let t = rs.insert(i, r);
    assert forall|j: int| 0 <= j < t.len() implies (m.eval)(e, #[trigger] t[j]) is Ok by {
        if j < i {
            assert(t[j] == rs[j]);
        } else if j > i {
            assert(t[j] == rs[j - 1]);
        }
    }
    lemma_evaluated(rs, e, m);
    lemma_evaluated(t, e, m);
    let s = values_on(rs, e, m);
    assert(values_on(t, e, m) =~= s.insert(i, ValueView::Null));
    let u = s.insert(i, ValueView::Null);
    lemma_present(s);
    lemma_present(u);
    lemma_numbers(s);
    lemma_numbers(u);
    lemma_filter_without(s, i, ValueView::Null, is_something());
    lemma_filter_without(s, i, ValueView::Null, is_number());
    lemma_sum_without(s, i);
}

/// With DISTINCT, an aggregate is that of some of the rows: of their values no two are equal and
/// none is null, and each value that is not null on some row equals one of theirs.
pub proof fn distinct_takes_each_value_once(agg: AggregateExpr, rs: Seq<Row>, m: Model)
    requires
        agg.distinct,
        agg.input@.kind != ExprKindView::Star,
        all_evaluate(rs, agg.input@, m),
    ensures
        exists|kept: Seq<Row>|
            {
                let vs = values_on(kept, agg.input@, m);
                &&& aggregate::aggregate(agg, rs, m) == #[trigger] aggregate::aggregate(
                    AggregateExpr { distinct: false, ..agg },
                    kept,
                    m,
                )
                &&& forall|i: int| 0 <= i < kept.len() ==> rs.contains(#[trigger] kept[i])
                &&& forall|i: int| 0 <= i < vs.len() ==> !((#[trigger] vs[i]) is Null)
                &&& forall|i: int, j: int|
                    0 <= i < j < vs.len() ==> !order::same(#[trigger] vs[i], #[trigger] vs[j])
                &&& forall|i: int|
                    0 <= i < rs.len() && !((m.eval)(agg.input@, #[trigger] rs[i])->Ok_0 is Null)
                        ==> (exists|j: int|
                        0 <= j < vs.len() && (order::same(
                            #[trigger] vs[j],
                            (m.eval)(agg.input@, rs[i])->Ok_0,
                        ) || vs[j] == (m.eval)(agg.input@, rs[i])->Ok_0))
            },
{
    lemma_first_of_each(rs, agg.input@, m);
    let (kept, seen) = aggregate::first_of_each(rs, agg.input@, m)->Ok_0;
    assert(aggregate::aggregate(agg, rs, m) == aggregate::aggregate(
        AggregateExpr { distinct: false, ..agg },
        kept,
        m,
    ));
}

/// The first row for each value.
proof fn lemma_first_of_each(rs: Seq<Row>, e: ExprView, m: Model)
    requires
        all_evaluate(rs, e, m),
    ensures
        aggregate::first_of_each(rs, e, m) matches Ok((kept, seen)) && {
            &&& seen == values_on(kept, e, m)
            &&& forall|i: int| 0 <= i < kept.len() ==> rs.contains(#[trigger] kept[i])
            &&& forall|i: int| 0 <= i < seen.len() ==> !((#[trigger] seen[i]) is Null)
            &&& forall|i: int, j: int|
                0 <= i < j < seen.len() ==> !order::same(#[trigger] seen[i], #[trigger] seen[j])
            &&& forall|i: int|
                0 <= i < rs.len() && !((m.eval)(e, #[trigger] rs[i])->Ok_0 is Null) ==> (exists|
                    j: int,
                |
                    0 <= j < seen.len() && (order::same(
                        #[trigger] seen[j],
                        (m.eval)(e, rs[i])->Ok_0,
                    ) || seen[j] == (m.eval)(e, rs[i])->Ok_0))
        },
    decreases rs.len(),
{
    if rs.len() > 0 {
        let t = rs.drop_last();
        assert forall|i: int| 0 <= i < t.len() implies (m.eval)(e, #[trigger] t[i]) is Ok by {
            assert(t[i] == rs[i]);
        }
        lemma_first_of_each(t, e, m);
        let (kept, seen) = aggregate::first_of_each(t, e, m)->Ok_0;
        assert(rs[rs.len() - 1] == rs.last());
        let v = (m.eval)(e, rs.last())->Ok_0;
        let (kept2, seen2) = aggregate::first_of_each(rs, e, m)->Ok_0;
        assert(seen2 =~= values_on(kept2, e, m));
        assert forall|i: int| 0 <= i < kept2.len() implies rs.contains(#[trigger] kept2[i]) by {
            if i < kept.len() {
                assert(kept2[i] == kept[i]);
                assert(t.contains(kept[i]));
                let k = choose|k: int| 0 <= k < t.len() && t[k] == kept[i];
                assert(rs[k] == kept[i]);
            } else {
                assert(rs[rs.len() - 1] == kept2[i]);
            }
        }
        assert forall|i: int, j: int| 0 <= i < j < seen2.len() implies !order::same(
            #[trigger] seen2[i],
            #[trigger] seen2[j],
        ) by {
            if j < seen.len() {
                assert(!order::same(seen[i], seen[j]));
            } else {
                assert(seen2[i] == seen[i]);
                assert(!aggregate::among(seen, v));
            }
        }
        assert forall|i: int|
            0 <= i < rs.len() && !((m.eval)(e, #[trigger] rs[i])->Ok_0 is Null) implies (exists|
            j: int,
        |
            0 <= j < seen2.len() && (order::same(
                #[trigger] seen2[j],
                (m.eval)(e, rs[i])->Ok_0,
            ) || seen2[j] == (m.eval)(e, rs[i])->Ok_0)) by {
            if i < t.len() {
                assert(t[i] == rs[i]);
                let w = (m.eval)(e, t[i])->Ok_0;
                let j = choose|j: int|
                    0 <= j < seen.len() && (order::same(#[trigger] seen[j], w) || seen[j] == w);
                assert(seen2[j] == seen[j]);
            } else if aggregate::among(seen, v) {
                let j = choose|j: int| 0 <= j < seen.len() && order::same(#[trigger] seen[j], v);
                assert(seen2[j] == seen[j]);
            } else {
                assert(seen2[seen.len() as int] == v);
            }
        }
    } else {
        assert(values_on(Seq::empty(), e, m) =~= Seq::<ValueView>::empty());
    }
}

} // verus!
