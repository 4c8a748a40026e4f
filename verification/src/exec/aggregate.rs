//! Aggregates over the rows of a group.
use super::flow;
use super::flow::{Outcome, Rows};
use crate::ast::{Expr, ExprKind};
use crate::ast_model;
use crate::ast_model::{ExprKindView, ExprView};
use crate::float;
use crate::order;
use crate::order::Place;
use crate::plan::{AggregateExpr, AggregateFunction};
use crate::record;
use crate::record::{NamedRecord, Row};
use crate::source;
use crate::source::{Model, Source};
use crate::text;
use crate::types;
use crate::types::{ErrorCode, ErrorKind, ErrorView, GraphError, QueryError, QueryPhase};
use crate::value;
use crate::value::{Float, Value, ValueView};
use vstd::prelude::*;

verus! {

/// A number that nothing depends on.
pub open spec fn zero() -> Float {
    Float { bits: 0 }
}

/// What an evaluation of several values says.
pub open spec fn values_told(r: Result<Vec<Value>, GraphError>) -> Result<
    Seq<ValueView>,
    ErrorView,
> {
    match r {
        Ok(v) => Ok(value::values_view(v@)),
        Err(e) => Err(e@),
    }
}

/// The values of an expression on the rows, up to the first that fails.
pub open spec fn evaluated(rs: Seq<Row>, e: ExprView, m: Model) -> Result<Seq<ValueView>, ErrorView>
    decreases rs.len(),
{
    if rs.len() == 0 {
        Ok(Seq::empty())
    } else {
        match evaluated(rs.drop_last(), e, m) {
            Ok(vs) => match (m.eval)(e, rs.last()) {
                Ok(v) => Ok(vs.push(v)),
                Err(e) => Err(e),
            },
            Err(e) => Err(e),
        }
    }
}

/// The first row that fails decides.
proof fn lemma_evaluated_stops(rs: Seq<Row>, e: ExprView, m: Model, i: int)
    requires
        0 <= i <= rs.len(),
        evaluated(rs.take(i), e, m) is Err,
    ensures
        evaluated(rs, e, m) == evaluated(rs.take(i), e, m),
    decreases rs.len(),
{
    if i < rs.len() {
        assert(rs.drop_last().take(i) =~= rs.take(i));
        lemma_evaluated_stops(rs.drop_last(), e, m, i);
    } else {
        assert(rs.take(i) =~= rs);
    }
}

/// The values of an expression on the rows.
fn evaluate<S: Source>(db: &S, rs: &Vec<NamedRecord>, e: &Expr) -> (r: Result<
    Vec<Value>,
    GraphError,
>)
    ensures
        source::steady(*db) ==> values_told(r) == evaluated(
            record::rows(rs@),
            e@,
            source::model(*db),
        ),
{
    let ghost m = source::model(*db);
    let ghost s = record::rows(rs@);
    let mut out: Vec<Value> = Vec::new();
    let mut i: usize = 0;
    assert(s.take(0) =~= Seq::<Row>::empty());
    assert(value::values_view(out@) =~= Seq::<ValueView>::empty());
    while i < rs.len()
        invariant
            i <= rs.len(),
            m == source::model(*db),
            s == record::rows(rs@),
            source::steady(*db) ==> evaluated(s.take(i as int), e@, m) == Ok::<
                Seq<ValueView>,
                ErrorView,
            >(value::values_view(out@)),
        decreases rs.len() - i,
    {
        assert(s.take(i + 1).drop_last() =~= s.take(i as int));
        assert(s.take(i + 1).last() == rs@[i as int]@);
        match source::ask_eval(db, e, &rs[i]) {
            Ok(v) => {
                let ghost before = value::values_view(out@);
                out.push(v);
                assert(value::values_view(out@) =~= before.push(v@));
            },
            Err(e2) => {
                proof {
                    if source::steady(*db) {
                        lemma_evaluated_stops(s, e@, m, i + 1);
                    }
                }
                return Err(e2);
            },
        }
        i = i + 1;
    }
    assert(s.take(s.len() as int) =~= s);
    Ok(out)
}

/// An equal value is among the others.
pub open spec fn among(s: Seq<ValueView>, v: ValueView) -> bool {
    exists|i: int| 0 <= i < s.len() && order::same(#[trigger] s[i], v)
}

/// True when an equal value is among the others.
pub fn is_among(s: &Vec<Value>, v: &Value) -> (r: bool)
    ensures
        r == among(value::values_view(s@), v@),
{
    let ghost all = value::values_view(s@);
    let mut i: usize = 0;
    while i < s.len()
        invariant
            i <= s.len(),
            all == value::values_view(s@),
            forall|j: int| 0 <= j < i ==> !order::same(#[trigger] all[j], v@),
        decreases s.len() - i,
    {
        assert(all[i as int] == s@[i as int]@);
        if order::equal(&s[i], v) {
            return true;
        }
        i = i + 1;
    }
    false
}

/// The first row for each value but null, and the values.
pub open spec fn first_of_each(rs: Seq<Row>, e: ExprView, m: Model) -> Result<
    (Seq<Row>, Seq<ValueView>),
    ErrorView,
>
    decreases rs.len(),
{
    if rs.len() == 0 {
        Ok((Seq::empty(), Seq::empty()))
    } else {
        match first_of_each(rs.drop_last(), e, m) {
            Ok((kept, seen)) => match (m.eval)(e, rs.last()) {
                Ok(v) => if v == ValueView::Null || among(seen, v) {
                    Ok((kept, seen))
                } else {
                    Ok((kept.push(rs.last()), seen.push(v)))
                },
                Err(e) => Err(e),
            },
            Err(e) => Err(e),
        }
    }
}

/// The first row that fails decides.
proof fn lemma_first_stops(rs: Seq<Row>, e: ExprView, m: Model, i: int)
    requires
        0 <= i <= rs.len(),
        first_of_each(rs.take(i), e, m) is Err,
    ensures
        first_of_each(rs, e, m) == first_of_each(rs.take(i), e, m),
    decreases rs.len(),
{
    if i < rs.len() {
        assert(rs.drop_last().take(i) =~= rs.take(i));
        lemma_first_stops(rs.drop_last(), e, m, i);
    } else {
        assert(rs.take(i) =~= rs);
    }
}

/// True of null.
fn is_null(v: &Value) -> (r: bool)
    ensures
        r == (v@ == ValueView::Null),
{
    match v {
        Value::Null => true,
        _ => false,
    }
}

/// The rows that an aggregate takes in: with DISTINCT, the first row for each value.
pub open spec fn effective(rs: Seq<Row>, e: ExprView, distinct: bool, m: Model) -> Rows {
    if distinct && e.kind != ExprKindView::Star {
        match first_of_each(rs, e, m) {
            Ok((kept, _)) => Ok(kept),
            Err(e) => Err(e),
        }
    } else {
        Ok(rs)
    }
}

/// The first row for each value but null.
fn keep_first<S: Source>(db: &S, rs: &Vec<NamedRecord>, e: &Expr) -> (r: Outcome)
    ensures
        source::steady(*db) ==> flow::rows_told(r) == (match first_of_each(
            record::rows(rs@),
            e@,
            source::model(*db),
        ) {
            Ok((kept, _)) => Ok(kept),
            Err(e) => Err(e),
        }),
{
    let ghost m = source::model(*db);
    let ghost s = record::rows(rs@);
    let mut kept: Vec<NamedRecord> = Vec::new();
    let mut seen: Vec<Value> = Vec::new();
    let mut i: usize = 0;
    assert(s.take(0) =~= Seq::<Row>::empty());
    assert(record::rows(kept@) =~= Seq::<Row>::empty());
    assert(value::values_view(seen@) =~= Seq::<ValueView>::empty());
    while i < rs.len()
        invariant
            i <= rs.len(),
            m == source::model(*db),
            s == record::rows(rs@),
            source::steady(*db) ==> first_of_each(s.take(i as int), e@, m) == Ok::<
                (Seq<Row>, Seq<ValueView>),
                ErrorView,
            >((record::rows(kept@), value::values_view(seen@))),
        decreases rs.len() - i,
    {
        assert(s.take(i + 1).drop_last() =~= s.take(i as int));
        assert(s.take(i + 1).last() == rs@[i as int]@);
        match source::ask_eval(db, e, &rs[i]) {
            Ok(v) => {
                if !is_null(&v) && !is_among(&seen, &v) {
                    let ghost before = value::values_view(seen@);
                    let ghost held = record::rows(kept@);
                    seen.push(v);
                    kept.push(rs[i].dup());
                    assert(value::values_view(seen@) =~= before.push(v@));
                    assert(record::rows(kept@) =~= held.push(rs@[i as int]@));
                }
            },
            Err(e2) => {
                proof {
                    if source::steady(*db) {
                        lemma_first_stops(s, e@, m, i + 1);
                    }
                }
                return Err(e2);
            },
        }
        i = i + 1;
    }
    assert(s.take(s.len() as int) =~= s);
    Ok(kept)
}

/// True of a star.
fn is_star(e: &Expr) -> (r: bool)
    ensures
        r == (e@.kind == ExprKindView::Star),
{
    match &e.kind {
        ExprKind::Star => true,
        _ => false,
    }
}

/// The rows that an aggregate takes in.
fn effective_rows<S: Source>(db: &S, rs: &Vec<NamedRecord>, e: &Expr, distinct: bool) -> (r: Outcome)
    ensures
        source::steady(*db) ==> flow::rows_told(r) == effective(
            record::rows(rs@),
            e@,
            distinct,
            source::model(*db),
        ),
{
    if distinct && !is_star(e) {
        keep_first(db, rs, e)
    } else {
        Ok(record::dup_rows(rs))
    }
}

/// How many rows give no null. One that gives an error counts.
pub open spec fn non_null(rs: Seq<Row>, e: ExprView, m: Model) -> nat
    decreases rs.len(),
{
    if rs.len() == 0 {
        0
    } else if (m.eval)(e, rs.last()) == Ok::<ValueView, ErrorView>(ValueView::Null) {
        non_null(rs.drop_last(), e, m)
    } else {
        non_null(rs.drop_last(), e, m) + 1
    }
}

/// How many rows give no null.
fn count_non_null<S: Source>(db: &S, rs: &Vec<NamedRecord>, e: &Expr) -> (r: usize)
    ensures
        source::steady(*db) ==> r == non_null(record::rows(rs@), e@, source::model(*db)),
{
    let ghost m = source::model(*db);
    let ghost s = record::rows(rs@);
    let mut n: usize = 0;
    let mut i: usize = 0;
    assert(s.take(0) =~= Seq::<Row>::empty());
    while i < rs.len()
        invariant
            n <= i <= rs.len(),
            m == source::model(*db),
            s == record::rows(rs@),
            source::steady(*db) ==> n == non_null(s.take(i as int), e@, m),
        decreases rs.len() - i,
    {
        assert(s.take(i + 1).drop_last() =~= s.take(i as int));
        assert(s.take(i + 1).last() == rs@[i as int]@);
        match source::ask_eval(db, e, &rs[i]) {
            Ok(Value::Null) => {},
            _ => {
                n = n + 1;
            },
        }
        i = i + 1;
    }
    assert(s.take(s.len() as int) =~= s);
    n
}

/// The number that a value is.
pub open spec fn number_of(v: ValueView) -> Option<Float> {
    match v {
        ValueView::I64(n) => Some(order::as_float(n)),
        ValueView::F64(f) => Some(f),
        _ => None,
    }
}

/// The numbers among the values.
pub open spec fn numbers(s: Seq<ValueView>) -> Seq<Float>
    decreases s.len(),
{
    if s.len() == 0 {
        Seq::empty()
    } else {
        match number_of(s.last()) {
            Some(f) => numbers(s.drop_last()).push(f),
            None => numbers(s.drop_last()),
        }
    }
}

/// The number that a value is.
fn value_number(v: &Value) -> (r: Option<Float>)
    ensures
        r == number_of(v@),
{
    match v {
        Value::I64(n) => Some(float::from_int(*n)),
        Value::F64(f) => Some(*f),
        _ => None,
    }
}

/// The numbers among the values.
fn pick_numbers(v: &Vec<Value>) -> (r: Vec<Float>)
    ensures
        r@ == numbers(value::values_view(v@)),
{
    let ghost s = value::values_view(v@);
    let mut out: Vec<Float> = Vec::new();
    let mut i: usize = 0;
    assert(s.take(0) =~= Seq::<ValueView>::empty());
    while i < v.len()
        invariant
            i <= v.len(),
            s == value::values_view(v@),
            out@ == numbers(s.take(i as int)),
        decreases v.len() - i,
    {
        assert(s.take(i + 1).drop_last() =~= s.take(i as int));
        assert(s.take(i + 1).last() == v@[i as int]@);
        match value_number(&v[i]) {
            Some(f) => {
                out.push(f);
            },
            None => {},
        }
        i = i + 1;
    }
    assert(s.take(s.len() as int) =~= s);
    out
}

/// The sum of the integers among the values. It wraps around.
pub open spec fn integer_sum(s: Seq<ValueView>) -> i64
    decreases s.len(),
{
    if s.len() == 0 {
        0
    } else {
        match s.last() {
            ValueView::I64(n) => integer_sum(s.drop_last()).wrapping_add(n),
            _ => integer_sum(s.drop_last()),
        }
    }
}

/// Some value is a floating point number.
pub open spec fn any_float(s: Seq<ValueView>) -> bool {
    exists|i: int| 0 <= i < s.len() && (#[trigger] s[i]) is F64
}

/// The sum of the integers among the values, and whether some value is no integer but a
/// floating point number.
fn sum_integers(v: &Vec<Value>) -> (r: (i64, bool))
    ensures
        r.0 == integer_sum(value::values_view(v@)),
        r.1 == any_float(value::values_view(v@)),
{
    let ghost s = value::values_view(v@);
    let mut sum: i64 = 0;
    let mut float = false;
    let mut i: usize = 0;
    assert(s.take(0) =~= Seq::<ValueView>::empty());
    while i < v.len()
        invariant
            i <= v.len(),
            s == value::values_view(v@),
            sum == integer_sum(s.take(i as int)),
            float == (exists|j: int| 0 <= j < i && (#[trigger] s[j]) is F64),
        decreases v.len() - i,
    {
        assert(s.take(i + 1).drop_last() =~= s.take(i as int));
        assert(s.take(i + 1).last() == v@[i as int]@);
        assert(s[i as int] == v@[i as int]@);
        match &v[i] {
            Value::I64(n) => {
                sum = sum.wrapping_add(*n);
            },
            Value::F64(_) => {
                float = true;
            },
            _ => {},
        }
        i = i + 1;
    }
    assert(s.take(s.len() as int) =~= s);
    (sum, float)
}

/// The values but nulls.
pub open spec fn present(s: Seq<ValueView>) -> Seq<ValueView>
    decreases s.len(),
{
    if s.len() == 0 {
        Seq::empty()
    } else if s.last() == ValueView::Null {
        present(s.drop_last())
    } else {
        present(s.drop_last()).push(s.last())
    }
}

/// The values but nulls.
fn drop_nulls(v: Vec<Value>) -> (r: Vec<Value>)
    ensures
        value::values_view(r@) == present(value::values_view(v@)),
{
    let ghost s = value::values_view(v@);
    let mut out: Vec<Value> = Vec::new();
    let mut i: usize = 0;
    assert(s.take(0) =~= Seq::<ValueView>::empty());
    assert(value::values_view(out@) =~= Seq::<ValueView>::empty());
    while i < v.len()
        invariant
            i <= v.len(),
            s == value::values_view(v@),
            value::values_view(out@) == present(s.take(i as int)),
        decreases v.len() - i,
    {
        assert(s.take(i + 1).drop_last() =~= s.take(i as int));
        assert(s.take(i + 1).last() == v@[i as int]@);
        if !is_null(&v[i]) {
            let ghost before = value::values_view(out@);
            let x = v[i].dup();
            out.push(x);
            assert(value::values_view(out@) =~= before.push(x@));
        }
        i = i + 1;
    }
    assert(s.take(s.len() as int) =~= s);
    out
}

/// The value that no other comes before, or after: of several the first.
pub open spec fn extreme(s: Seq<ValueView>, side: Place) -> ValueView
    decreases s.len(),
{
    if s.len() == 0 {
        ValueView::Null
    } else if s.len() == 1 {
        s[0]
    } else {
        let so_far = extreme(s.drop_last(), side);
        if side == Place::Before {
            if order::placed(s.last(), so_far) == Place::Before {
                s.last()
            } else {
                so_far
            }
        } else {
            if order::placed(so_far, s.last()) == Place::Before {
                s.last()
            } else {
                so_far
            }
        }
    }
}

/// The value that no other comes before, or after: of several the first.
fn find_extreme(v: &Vec<Value>, side: Place) -> (r: Value)
    ensures
        r@ == extreme(value::values_view(v@), side),
{
    let ghost s = value::values_view(v@);
    if v.len() == 0 {
        return Value::Null;
    }
    let mut best: usize = 0;
    let mut i: usize = 1;
    assert(s.take(1).len() == 1);
    while i < v.len()
        invariant
            1 <= i <= v.len(),
            best < i,
            s == value::values_view(v@),
            v@[best as int]@ == extreme(s.take(i as int), side),
        decreases v.len() - i,
    {
        assert(s.take(i + 1).drop_last() =~= s.take(i as int));
        assert(s.take(i + 1).last() == v@[i as int]@);
        let better = if side == Place::Before {
            order::compare_values_for_sort(&v[i], &v[best]) == Place::Before
        } else {
            order::compare_values_for_sort(&v[best], &v[i]) == Place::Before
        };
        if better {
            best = i;
        }
        i = i + 1;
    }
    assert(s.take(s.len() as int) =~= s);
    v[best].dup()
}

/// An argument is out of range.
pub open spec fn out_of_range(message: Seq<char>) -> ErrorView {
    types::query_error(
        ErrorKind::Argument,
        QueryPhase::Runtime,
        ErrorCode::NumberOutOfRange,
        message,
        None,
        None,
    )
}

/// An argument is out of range.
fn out_of_range_error(message: String) -> (r: GraphError)
    ensures
        r@ == out_of_range(message@),
{
    GraphError::Query(
        QueryError::ArgumentError {
            phase: QueryPhase::Runtime,
            code: ErrorCode::NumberOutOfRange,
            message,
            hint: None,
            span: None,
        },
    )
}

/// The number one.
pub const ONE: u64 = 0x3ff0_0000_0000_0000;

/// The number is between zero and one.
pub open spec fn is_share(f: Float) -> bool {
    !float::is_nan(f) && float::rank(zero()) <= float::rank(f) <= float::rank(Float { bits: ONE })
}

/// The percentile asked for.
pub open spec fn share_of(v: ValueView, m: Model) -> Result<Float, ErrorView> {
    match number_of(v) {
        Some(f) => if is_share(f) {
            Ok(f)
        } else {
            Err(
                out_of_range(
                    "percentile must be between 0.0 and 1.0, got "@ + (m.show)(ValueView::F64(f)),
                ),
            )
        },
        None => Err(out_of_range("expected number but got "@ + (m.inspect)(v))),
    }
}

/// What the percentile asked for says.
pub open spec fn share_told(r: Result<Float, GraphError>) -> Result<Float, ErrorView> {
    match r {
        Ok(f) => Ok(f),
        Err(e) => Err(e@),
    }
}

/// The percentile asked for.
fn read_share<S: Source>(db: &S, v: &Value) -> (r: Result<Float, GraphError>)
    ensures
        source::steady(*db) ==> share_told(r) == share_of(v@, source::model(*db)),
{
    match value_number(v) {
        Some(f) => {
            let one = Float { bits: ONE };
            let none = Float { bits: 0 };
            if !float::nan(f) && float::rank_of(none) <= float::rank_of(f) && float::rank_of(f)
                <= float::rank_of(one) {
                Ok(f)
            } else {
                let shown = source::ask_show(db, &Value::F64(f));
                Err(
                    out_of_range_error(
                        text::cat("percentile must be between 0.0 and 1.0, got ", shown.as_str()),
                    ),
                )
            }
        },
        None => {
            let shown = source::ask_inspect(db, v);
            Err(out_of_range_error(text::cat("expected number but got ", shown.as_str())))
        },
    }
}

/// The first of the rows; an empty row where there is none.
pub open spec fn first_row(rs: Seq<Row>) -> Row {
    if rs.len() == 0 {
        Row::empty()
    } else {
        rs[0]
    }
}

/// The percentile that an aggregate asks for.
pub open spec fn asked_share(rs: Seq<Row>, arg: Option<ExprView>, m: Model) -> Result<
    Float,
    ErrorView,
> {
    match arg {
        Some(e) => match (m.eval)(e, first_row(rs)) {
            Ok(v) => share_of(v, m),
            Err(e) => Err(e),
        },
        None => Err(out_of_range("percentile function requires a second argument"@)),
    }
}

/// The percentile that an aggregate asks for.
fn find_share<S: Source>(db: &S, rs: &Vec<NamedRecord>, arg: &Option<Expr>) -> (r: Result<
    Float,
    GraphError,
>)
    ensures
        source::steady(*db) ==> share_told(r) == asked_share(
            record::rows(rs@),
            ast_model::opt_expr_view(*arg),
            source::model(*db),
        ),
{
    match arg {
        Some(e) => {
            let empty = NamedRecord::new();
            let first = if rs.len() == 0 {
                &empty
            } else {
                &rs[0]
            };
            assert(first@ == first_row(record::rows(rs@)));
            match source::ask_eval(db, e, first) {
                Ok(v) => read_share(db, &v),
                Err(e) => Err(e),
            }
        },
        None => Err(
            out_of_range_error(text::owned("percentile function requires a second argument")),
        ),
    }
}

/// The value of an aggregate function over values.
pub open spec fn over_values(f: AggregateFunction, s: Seq<ValueView>, m: Model) -> ValueView {
    match f {
        AggregateFunction::Sum => if any_float(s) {
            ValueView::F64((m.combine)(f, numbers(s), zero()))
        } else {
            ValueView::I64(integer_sum(s))
        },
        AggregateFunction::Avg => if numbers(s).len() == 0 {
            ValueView::Null
        } else {
            ValueView::F64((m.combine)(f, numbers(s), zero()))
        },
        AggregateFunction::Min => extreme(present(s), Place::Before),
        AggregateFunction::Max => extreme(present(s), Place::After),
        AggregateFunction::Collect => ValueView::List(present(s)),
        AggregateFunction::StDev => if numbers(s).len() < 2 {
            ValueView::F64(zero())
        } else {
            ValueView::F64((m.combine)(f, numbers(s), zero()))
        },
        AggregateFunction::StDevP => if numbers(s).len() == 0 {
            ValueView::F64(zero())
        } else {
            ValueView::F64((m.combine)(f, numbers(s), zero()))
        },
        _ => ValueView::Null,
    }
}

/// The value of a floating point aggregate.
fn combined<S: Source>(db: &S, f: AggregateFunction, ns: &Vec<Float>) -> (r: Value)
    ensures
        source::steady(*db) ==> r@ == ValueView::F64((source::model(*db).combine)(f, ns@, zero())),
{
    Value::F64(source::ask_combine(db, f, ns, Float { bits: 0 }))
}

/// The value of an aggregate function over values.
fn aggregate_values<S: Source>(db: &S, f: AggregateFunction, v: Vec<Value>) -> (r: Value)
    ensures
        source::steady(*db) ==> r@ == over_values(
            f,
            value::values_view(v@),
            source::model(*db),
        ),
{
    match f {
        AggregateFunction::Sum => {
            let (sum, float) = sum_integers(&v);
            if float {
                combined(db, f, &pick_numbers(&v))
            } else {
                Value::I64(sum)
            }
        },
        AggregateFunction::Avg => {
            let ns = pick_numbers(&v);
            if ns.len() == 0 {
                Value::Null
            } else {
                combined(db, f, &ns)
            }
        },
        AggregateFunction::Min => find_extreme(&drop_nulls(v), Place::Before),
        AggregateFunction::Max => find_extreme(&drop_nulls(v), Place::After),
        AggregateFunction::Collect => Value::List(drop_nulls(v)),
        AggregateFunction::StDev => {
            let ns = pick_numbers(&v);
            if ns.len() < 2 {
                Value::F64(Float { bits: 0 })
            } else {
                combined(db, f, &ns)
            }
        },
        AggregateFunction::StDevP => {
            let ns = pick_numbers(&v);
            if ns.len() == 0 {
                Value::F64(Float { bits: 0 })
            } else {
                combined(db, f, &ns)
            }
        },
        _ => Value::Null,
    }
}

/// The value of an aggregate over the rows that it takes in.
pub open spec fn over_rows(
    f: AggregateFunction,
    e: ExprView,
    arg: Option<ExprView>,
    rs: Seq<Row>,
    m: Model,
) -> Result<ValueView, ErrorView> {
    match f {
        AggregateFunction::Count => Ok(
            ValueView::I64(
                (if e.kind == ExprKindView::Star {
                    rs.len()
                } else {
                    non_null(rs, e, m)
                }) as i64,
            ),
        ),
        AggregateFunction::PercentileDisc => percentile(f, e, arg, rs, m),
        AggregateFunction::PercentileCont => percentile(f, e, arg, rs, m),
        _ => match evaluated(rs, e, m) {
            Ok(s) => Ok(over_values(f, s, m)),
            Err(e) => Err(e),
        },
    }
}

/// The value of a percentile over the rows that it takes in.
pub open spec fn percentile(
    f: AggregateFunction,
    e: ExprView,
    arg: Option<ExprView>,
    rs: Seq<Row>,
    m: Model,
) -> Result<ValueView, ErrorView> {
    match asked_share(rs, arg, m) {
        Ok(share) => match evaluated(rs, e, m) {
            Ok(s) => if numbers(s).len() == 0 {
                Ok(ValueView::Null)
            } else {
                Ok(ValueView::F64((m.combine)(f, numbers(s), share)))
            },
            Err(e) => Err(e),
        },
        Err(e) => Err(e),
    }
}

/// The value of a percentile over the rows that it takes in.
fn compute_percentile<S: Source>(
    db: &S,
    f: AggregateFunction,
    e: &Expr,
    arg: &Option<Expr>,
    rs: &Vec<NamedRecord>,
) -> (r: Result<Value, GraphError>)
    ensures
        source::steady(*db) ==> types::outcome(r) == percentile(
            f,
            e@,
            ast_model::opt_expr_view(*arg),
            record::rows(rs@),
            source::model(*db),
        ),
{
    let share = match find_share(db, rs, arg) {
        Ok(share) => share,
        Err(e) => {
            return Err(e);
        },
    };
    match evaluate(db, rs, e) {
        Ok(v) => {
            let ns = pick_numbers(&v);
            if ns.len() == 0 {
                Ok(Value::Null)
            } else {
                Ok(Value::F64(source::ask_combine(db, f, &ns, share)))
            }
        },
        Err(e) => Err(e),
    }
}

/// The value of an aggregate over the rows that it takes in.
fn aggregate_rows<S: Source>(
    db: &S,
    f: AggregateFunction,
    e: &Expr,
    arg: &Option<Expr>,
    rs: &Vec<NamedRecord>,
) -> (r: Result<Value, GraphError>)
    ensures
        source::steady(*db) ==> types::outcome(r) == over_rows(
            f,
            e@,
            ast_model::opt_expr_view(*arg),
            record::rows(rs@),
            source::model(*db),
        ),
{
    match f {
        AggregateFunction::Count => {
            let n = if is_star(e) {
                rs.len()
            } else {
                count_non_null(db, rs, e)
            };
            Ok(Value::I64(n as i64))
        },
        AggregateFunction::PercentileDisc => compute_percentile(db, f, e, arg, rs),
        AggregateFunction::PercentileCont => compute_percentile(db, f, e, arg, rs),
        _ => match evaluate(db, rs, e) {
            Ok(v) => Ok(aggregate_values(db, f, v)),
            Err(e) => Err(e),
        },
    }
}

/// The value of an aggregate over the rows of a group.
pub open spec fn aggregate(agg: AggregateExpr, rs: Seq<Row>, m: Model) -> Result<
    ValueView,
    ErrorView,
> {
    match effective(rs, agg.input@, agg.distinct, m) {
        Ok(kept) => over_rows(
            agg.function,
            agg.input@,
            ast_model::opt_expr_view(agg.extra_arg),
            kept,
            m,
        ),
        Err(e) => Err(e),
    }
}

/// The value of an aggregate over the rows of a group.
pub fn compute_aggregate<S: Source>(db: &S, agg: &AggregateExpr, rs: &Vec<NamedRecord>) -> (r: Result<
    Value,
    GraphError,
>)
    ensures
        source::steady(*db) ==> types::outcome(r) == aggregate(
            *agg,
            record::rows(rs@),
            source::model(*db),
        ),
{
    match effective_rows(db, rs, &agg.input, agg.distinct) {
        Ok(kept) => aggregate_rows(db, agg.function, &agg.input, &agg.extra_arg, &kept),
        Err(e) => Err(e),
    }
}

} // verus!
