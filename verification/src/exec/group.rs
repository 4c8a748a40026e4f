//! Grouping: a row for each group, with its keys and its aggregates.
use super::aggregate;
use super::flow;
use super::flow::{Outcome, Rows};
use super::project;
use super::read;
use crate::assoc;
use crate::ast::{Expr, ExprKind};
use crate::ast_model;
use crate::ast_model::{ExprKindView, ExprView};
use crate::order;
use crate::plan;
use crate::plan::{AggregateExpr, AggregateFunction};
use crate::record;
use crate::record::{NamedRecord, Row};
use crate::source;
use crate::source::{Model, Source};
use crate::text;
use crate::types::{ErrorView, GraphError, Span};
use crate::value;
use crate::value::{Value, ValueView};
use vstd::prelude::*;

verus! {

/// The group keys of a row. One that cannot be computed is null.
pub open spec fn keys_of(rec: Row, keys: Seq<ExprView>, m: Model) -> Seq<ValueView> {
    Seq::new(
        keys.len(),
        |i: int|
            match (m.eval)(keys[i], rec) {
                Ok(v) => v,
                Err(_) => ValueView::Null,
            },
    )
}

/// The group keys of a row.
fn find_keys<S: Source>(db: &S, rec: &NamedRecord, keys: &Vec<Expr>) -> (r: Vec<Value>)
    ensures
        r.len() == keys.len(),
        source::steady(*db) ==> value::values_view(r@) == keys_of(
            rec@,
            ast_model::exprs_view(keys@),
            source::model(*db),
        ),
{
    let ghost whole = keys_of(rec@, ast_model::exprs_view(keys@), source::model(*db));
    let mut out: Vec<Value> = Vec::new();
    let mut i: usize = 0;
    while i < keys.len()
        invariant
            i <= keys.len(),
            out.len() == i,
            whole == keys_of(rec@, ast_model::exprs_view(keys@), source::model(*db)),
            source::steady(*db) ==> value::values_view(out@) == whole.take(i as int),
        decreases keys.len() - i,
    {
        assert(ast_model::exprs_view(keys@)[i as int] == keys@[i as int]@);
        let v = match source::ask_eval(db, &keys[i], rec) {
            Ok(v) => v,
            Err(_) => Value::Null,
        };
        let ghost before = value::values_view(out@);
        out.push(v);
        assert(value::values_view(out@) =~= before.push(v@));
        assert(whole.take(i + 1) =~= whole.take(i as int).push(whole[i as int]));
        i = i + 1;
    }
    assert(whole.take(whole.len() as int) =~= whole);
    out
}

/// The rows with the same keys.
pub struct Group {
    pub keys: Vec<Value>,
    pub rows: Vec<NamedRecord>,
}

/// What a [`Group`] says.
pub struct GroupView {
    pub keys: Seq<ValueView>,
    pub rows: Seq<Row>,
}

impl View for Group {
    type V = GroupView;

    open spec fn view(&self) -> GroupView {
        GroupView { keys: value::values_view(self.keys@), rows: record::rows(self.rows@) }
    }
}

/// The first group with the keys; the number of groups where there is none.
pub open spec fn group_place(gs: Seq<GroupView>, keys: Seq<ValueView>) -> nat
    decreases gs.len(),
{
    if gs.len() == 0 || order::same_list(gs[0].keys, keys) {
        0
    } else {
        1 + group_place(gs.drop_first(), keys)
    }
}

/// The first group with the keys has them, and no group before it does.
proof fn lemma_group_place(gs: Seq<GroupView>, keys: Seq<ValueView>, at: int)
    requires
        0 <= at <= gs.len(),
        at < gs.len() ==> order::same_list(gs[at].keys, keys),
        forall|j: int| 0 <= j < at ==> !order::same_list((#[trigger] gs[j]).keys, keys),
    ensures
        group_place(gs, keys) == at,
    decreases gs.len(),
{
    if gs.len() > 0 && at > 0 {
        assert(!order::same_list(gs[0].keys, keys));
        let rest = gs.drop_first();
        assert forall|j: int| 0 <= j < at - 1 implies !order::same_list(
            (#[trigger] rest[j]).keys,
            keys,
        ) by {
            assert(rest[j] == gs[j + 1]);
        }
        lemma_group_place(rest, keys, at - 1);
    }
}

/// The groups with a row added to its own.
pub open spec fn joined(gs: Seq<GroupView>, keys: Seq<ValueView>, rec: Row) -> Seq<GroupView> {
    let i = group_place(gs, keys) as int;
    if i < gs.len() {
        gs.update(i, GroupView { keys: gs[i].keys, rows: gs[i].rows.push(rec) })
    } else {
        gs.push(GroupView { keys, rows: seq![rec] })
    }
}

/// The groups of the rows, in the order of their first rows.
pub open spec fn grouped(rs: Seq<Row>, keys: Seq<ExprView>, m: Model) -> Seq<GroupView>
    decreases rs.len(),
{
    if rs.len() == 0 {
        Seq::empty()
    } else {
        joined(grouped(rs.drop_last(), keys, m), keys_of(rs.last(), keys, m), rs.last())
    }
}

/// The place of the first group with the keys.
fn find_group(gs: &Vec<Group>, keys: &Vec<Value>) -> (r: usize)
    ensures
        r <= gs.len(),
        r == group_place(flow::viewed(gs@), value::values_view(keys@)),
{
    let ghost s = flow::viewed(gs@);
    let mut i: usize = 0;
    while i < gs.len()
        invariant
            i <= gs.len(),
            s == flow::viewed(gs@),
            forall|j: int|
                0 <= j < i ==> !order::same_list(
                    (#[trigger] s[j]).keys,
                    value::values_view(keys@),
                ),
        decreases gs.len() - i,
    {
        assert(s[i as int].keys == value::values_view(gs@[i as int].keys@));
        if order::equal_lists(&gs[i].keys, keys) {
            proof {
                lemma_group_place(s, value::values_view(keys@), i as int);
            }
            return i;
        }
        i = i + 1;
    }
    proof {
        lemma_group_place(s, value::values_view(keys@), i as int);
    }
    i
}

/// Adds a row to its group.
fn join_group(gs: &mut Vec<Group>, keys: Vec<Value>, rec: NamedRecord)
    requires
        forall|j: int| 0 <= j < old(gs)@.len() ==> (#[trigger] old(gs)@[j]).keys.len() == keys.len(),
    ensures
        forall|j: int|
            0 <= j < final(gs)@.len() ==> (#[trigger] final(gs)@[j]).keys.len() == keys.len(),
        flow::viewed(final(gs)@) == joined(
            flow::viewed(old(gs)@),
            value::values_view(keys@),
            rec@,
        ),
{
    let ghost s = flow::viewed(gs@);
    let i = find_group(gs, &keys);
    if i < gs.len() {
        let mut g = Group { keys: Vec::new(), rows: Vec::new() };
        let ghost was = gs@[i as int];
        std::mem::swap(&mut g, &mut gs[i]);
        let ghost held = record::rows(g.rows@);
        g.rows.push(rec);
        assert(record::rows(g.rows@) =~= held.push(rec@));
        gs.set(i, g);
        assert(flow::viewed(gs@) =~= joined(s, value::values_view(keys@), rec@));
    } else {
        let g = Group { keys, rows: read::one_row(rec) };
        gs.push(g);
        assert(flow::viewed(gs@) =~= s.push(g@));
    }
}

/// The groups of the rows.
fn group_rows<S: Source>(db: &S, rs: &Vec<NamedRecord>, keys: &Vec<Expr>) -> (r: Vec<Group>)
    ensures
        forall|j: int| 0 <= j < r@.len() ==> (#[trigger] r@[j]).keys.len() == keys.len(),
        source::steady(*db) ==> flow::viewed(r@) == grouped(
            record::rows(rs@),
            ast_model::exprs_view(keys@),
            source::model(*db),
        ),
{
    let ghost m = source::model(*db);
    let ghost s = record::rows(rs@);
    let ghost ks = ast_model::exprs_view(keys@);
    let mut out: Vec<Group> = Vec::new();
    let mut i: usize = 0;
    assert(s.take(0) =~= Seq::<Row>::empty());
    assert(flow::viewed(out@) =~= Seq::<GroupView>::empty());
    while i < rs.len()
        invariant
            i <= rs.len(),
            m == source::model(*db),
            s == record::rows(rs@),
            ks == ast_model::exprs_view(keys@),
            forall|j: int| 0 <= j < out@.len() ==> (#[trigger] out@[j]).keys.len() == keys.len(),
            source::steady(*db) ==> flow::viewed(out@) == grouped(s.take(i as int), ks, m),
        decreases rs.len() - i,
    {
        assert(s.take(i + 1).drop_last() =~= s.take(i as int));
        assert(s.take(i + 1).last() == rs@[i as int]@);
        let own = find_keys(db, &rs[i], keys);
        join_group(&mut out, own, rs[i].dup());
        i = i + 1;
    }
    assert(s.take(s.len() as int) =~= s);
    out
}

/// The name of a function as a column.
pub open spec fn function_column(f: AggregateFunction) -> Seq<char> {
    match f {
        AggregateFunction::Count => "Count"@,
        AggregateFunction::Sum => "Sum"@,
        AggregateFunction::Avg => "Avg"@,
        AggregateFunction::Min => "Min"@,
        AggregateFunction::Max => "Max"@,
        AggregateFunction::Collect => "Collect"@,
        AggregateFunction::PercentileDisc => "PercentileDisc"@,
        AggregateFunction::PercentileCont => "PercentileCont"@,
        AggregateFunction::StDev => "StDev"@,
        AggregateFunction::StDevP => "StDevP"@,
    }
}

/// The name of a function as a column.
fn name_function(f: AggregateFunction) -> (r: &'static str)
    ensures
        r@ == function_column(f),
{
    match f {
        AggregateFunction::Count => "Count",
        AggregateFunction::Sum => "Sum",
        AggregateFunction::Avg => "Avg",
        AggregateFunction::Min => "Min",
        AggregateFunction::Max => "Max",
        AggregateFunction::Collect => "Collect",
        AggregateFunction::PercentileDisc => "PercentileDisc",
        AggregateFunction::PercentileCont => "PercentileCont",
        AggregateFunction::StDev => "StDev",
        AggregateFunction::StDevP => "StDevP",
    }
}

/// The call that an aggregate stands for.
pub open spec fn call_of(agg: AggregateExpr) -> ExprView {
    ExprView {
        kind: ExprKindView::FunctionCall {
            name: if agg.original_name@.len() == 0 {
                plan::function_name(agg.function)
            } else {
                agg.original_name@
            },
            args: seq![agg.input@],
            distinct: agg.distinct,
            original_text: None,
        },
        span: Span::none(),
    }
}

/// The column of an aggregate: its alias, the call as written, or the name of the call.
pub open spec fn column(agg: AggregateExpr, m: Model) -> Seq<char> {
    match agg.alias {
        Some(a) => a@,
        None => match agg.original_call_text {
            Some(t) => t@,
            None => (m.column_name)(call_of(agg)),
        },
    }
}

/// The call that an aggregate stands for.
fn build_call(agg: &AggregateExpr) -> (r: Expr)
    ensures
        r@ == call_of(*agg),
{
    let name = if text::chars_of(agg.original_name.as_str()).len() == 0 {
        text::owned(plan::agg_fn_name(agg.function))
    } else {
        agg.original_name.clone()
    };
    let mut args: Vec<Expr> = Vec::new();
    let input = agg.input.dup();
    args.push(input);
    assert(ast_model::exprs_view(args@) =~= seq![agg.input@]);
    let kind = ExprKind::FunctionCall { name, args, distinct: agg.distinct, original_text: None };
    assert(kind@ == ExprKindView::FunctionCall {
        name: name@,
        args: seq![agg.input@],
        distinct: agg.distinct,
        original_text: None,
    });
    Expr::synthetic(kind)
}

/// The column of an aggregate.
pub fn agg_col_name<S: Source>(db: &S, agg: &AggregateExpr) -> (r: String)
    ensures
        source::steady(*db) ==> r@ == column(*agg, source::model(*db)),
{
    match &agg.alias {
        Some(a) => a.clone(),
        None => match &agg.original_call_text {
            Some(t) => t.clone(),
            None => source::ask_column_name(db, &build_call(agg)),
        },
    }
}

/// The column of an aggregate; `inner` tells that it stands in a subquery.
pub open spec fn column_in(agg: AggregateExpr, inner: bool, m: Model) -> Seq<char> {
    if inner {
        match agg.alias {
            Some(a) => a@,
            None => function_column(agg.function),
        }
    } else {
        column(agg, m)
    }
}

/// The column of an aggregate.
fn name_column<S: Source>(db: &S, agg: &AggregateExpr, inner: bool) -> (r: String)
    ensures
        source::steady(*db) ==> r@ == column_in(*agg, inner, source::model(*db)),
{
    if inner {
        match &agg.alias {
            Some(a) => a.clone(),
            None => text::owned(name_function(agg.function)),
        }
    } else {
        agg_col_name(db, agg)
    }
}

/// The column of a group key.
pub open spec fn key_column(e: ExprView, inner: bool, m: Model) -> Seq<char> {
    if inner {
        match e.kind {
            ExprKindView::Variable(v) => v,
            _ => (m.spelled)(e),
        }
    } else {
        (m.column_name)(e)
    }
}

/// The column of a group key.
fn name_key<S: Source>(db: &S, e: &Expr, inner: bool) -> (r: String)
    ensures
        source::steady(*db) ==> r@ == key_column(e@, inner, source::model(*db)),
{
    if inner {
        match &e.kind {
            ExprKind::Variable(v) => v.clone(),
            _ => source::ask_spelled(db, e),
        }
    } else {
        source::ask_column_name(db, e)
    }
}

/// The row with the first `n` keys of a group. A variable takes its fields along, from the
/// first row of the group.
pub open spec fn key_row(
    g: GroupView,
    keys: Seq<ExprView>,
    n: int,
    inner: bool,
    m: Model,
) -> Row
    decreases n,
{
    if n <= 0 {
        Row::empty()
    } else {
        let e = keys[n - 1];
        let keyed = assoc::put(
            key_row(g, keys, n - 1, inner, m),
            key_column(e, inner, m),
            g.keys[n - 1],
        );
        match e.kind {
            ExprKindView::Variable(v) => record::put_all(
                keyed,
                record::carried(aggregate::first_row(g.rows), v + "."@, v + "."@),
            ),
            _ => keyed,
        }
    }
}

/// The row with the keys of a group.
fn build_key_row<S: Source>(db: &S, g: &Group, keys: &Vec<Expr>, inner: bool) -> (r: NamedRecord)
    requires
        g.keys.len() == keys.len(),
    ensures
        source::steady(*db) ==> r@ == key_row(
            g@,
            ast_model::exprs_view(keys@),
            keys@.len() as int,
            inner,
            source::model(*db),
        ),
{
    let ghost m = source::model(*db);
    let ghost ks = ast_model::exprs_view(keys@);
    let mut rec = NamedRecord::new();
    let mut i: usize = 0;
    while i < keys.len()
        invariant
            i <= keys.len(),
            g.keys.len() == keys.len(),
            m == source::model(*db),
            ks == ast_model::exprs_view(keys@),
            source::steady(*db) ==> rec@ == key_row(g@, ks, i as int, inner, m),
        decreases keys.len() - i,
    {
        assert(ks[i as int] == keys@[i as int]@);
        assert(g@.keys[i as int] == g.keys@[i as int]@);
        rec.set(name_key(db, &keys[i], inner), g.keys[i].dup());
        match &keys[i].kind {
            ExprKind::Variable(v) => {
                let start = text::cat(v.as_str(), ".");
                let empty = NamedRecord::new();
                let first = if g.rows.len() == 0 {
                    &empty
                } else {
                    &g.rows[0]
                };
                assert(first@ == aggregate::first_row(g@.rows));
                rec.carry(&first.fields.entries, start.as_str(), start.as_str());
            },
            _ => {},
        }
        i = i + 1;
    }
    rec
}

/// The row with the aggregates over rows added.
pub open spec fn aggregated_row(
    base: Row,
    aggs: Seq<AggregateExpr>,
    rs: Seq<Row>,
    inner: bool,
    m: Model,
) -> Result<Row, ErrorView>
    decreases aggs.len(),
{
    if aggs.len() == 0 {
        Ok(base)
    } else {
        match aggregated_row(base, aggs.drop_last(), rs, inner, m) {
            Ok(p) => match aggregate::aggregate(aggs.last(), rs, m) {
                Ok(v) => Ok(assoc::put(p, column_in(aggs.last(), inner, m), v)),
                Err(e) => Err(e),
            },
            Err(e) => Err(e),
        }
    }
}

/// The first aggregate that fails decides.
proof fn lemma_aggregated_stops(
    base: Row,
    aggs: Seq<AggregateExpr>,
    rs: Seq<Row>,
    inner: bool,
    m: Model,
    i: int,
)
    requires
        0 <= i <= aggs.len(),
        aggregated_row(base, aggs.take(i), rs, inner, m) is Err,
    ensures
        aggregated_row(base, aggs, rs, inner, m) == aggregated_row(
            base,
            aggs.take(i),
            rs,
            inner,
            m,
        ),
    decreases aggs.len(),
{
    if i < aggs.len() {
        assert(aggs.drop_last().take(i) =~= aggs.take(i));
        lemma_aggregated_stops(base, aggs.drop_last(), rs, inner, m, i);
    } else {
        assert(aggs.take(i) =~= aggs);
    }
}

/// The row with the aggregates over rows added.
fn add_aggregates<S: Source>(
    db: &S,
    base: NamedRecord,
    aggs: &Vec<AggregateExpr>,
    rs: &Vec<NamedRecord>,
    inner: bool,
) -> (r: Result<NamedRecord, GraphError>)
    ensures
        source::steady(*db) ==> project::row_told(r) == aggregated_row(
            base@,
            aggs@,
            record::rows(rs@),
            inner,
            source::model(*db),
        ),
{
    let ghost m = source::model(*db);
    let ghost rv = record::rows(rs@);
    let mut p = base;
    let mut i: usize = 0;
    assert(aggs@.take(0) =~= Seq::<AggregateExpr>::empty());
    while i < aggs.len()
        invariant
            i <= aggs.len(),
            m == source::model(*db),
            rv == record::rows(rs@),
            source::steady(*db) ==> aggregated_row(base@, aggs@.take(i as int), rv, inner, m)
                == Ok::<Row, ErrorView>(p@),
        decreases aggs.len() - i,
    {
        assert(aggs@.take(i + 1).drop_last() =~= aggs@.take(i as int));
        assert(aggs@.take(i + 1).last() == aggs@[i as int]);
        match aggregate::compute_aggregate(db, &aggs[i], rs) {
            Ok(v) => {
                p.set(name_column(db, &aggs[i], inner), v);
            },
            Err(e) => {
                proof {
                    if source::steady(*db) {
                        lemma_aggregated_stops(base@, aggs@, rv, inner, m, i + 1);
                    }
                }
                return Err(e);
            },
        }
        i = i + 1;
    }
    assert(aggs@.take(aggs@.len() as int) =~= aggs@);
    Ok(p)
}

/// The row of a group.
pub open spec fn group_row(
    g: GroupView,
    keys: Seq<ExprView>,
    aggs: Seq<AggregateExpr>,
    inner: bool,
    m: Model,
) -> Rows {
    match aggregated_row(
        key_row(g, keys, keys.len() as int, inner, m),
        aggs,
        g.rows,
        inner,
        m,
    ) {
        Ok(p) => Ok(seq![p]),
        Err(e) => Err(e),
    }
}

/// The row of a group.
fn row_of_group<S: Source>(
    db: &S,
    g: &Group,
    keys: &Vec<Expr>,
    aggs: &Vec<AggregateExpr>,
    inner: bool,
) -> (r: Outcome)
    requires
        g.keys.len() == keys.len(),
    ensures
        source::steady(*db) ==> flow::rows_told(r) == group_row(
            g@,
            ast_model::exprs_view(keys@),
            aggs@,
            inner,
            source::model(*db),
        ),
{
    let base = build_key_row(db, g, keys, inner);
    match add_aggregates(db, base, aggs, &g.rows, inner) {
        Ok(p) => Ok(read::one_row(p)),
        Err(e) => Err(e),
    }
}

/// A row for each group; a single row for all rows where there are no keys.
pub open spec fn aggregated(
    rs: Seq<Row>,
    keys: Seq<ExprView>,
    aggs: Seq<AggregateExpr>,
    inner: bool,
    m: Model,
) -> Rows {
    if keys.len() == 0 {
        match aggregated_row(Row::empty(), aggs, rs, inner, m) {
            Ok(p) => Ok(seq![p]),
            Err(e) => Err(e),
        }
    } else {
        flow::each(grouped(rs, keys, m), |g: GroupView| group_row(g, keys, aggs, inner, m))
    }
}

/// A row for each group; a single row for all rows where there are no keys. In a subquery,
/// `inner`, columns without an alias are named otherwise.
pub fn aggregate_named_records<S: Source>(
    db: &S,
    rs: &Vec<NamedRecord>,
    keys: &Vec<Expr>,
    aggs: &Vec<AggregateExpr>,
    inner: bool,
) -> (r: Outcome)
    ensures
        source::steady(*db) ==> flow::rows_told(r) == aggregated(
            record::rows(rs@),
            ast_model::exprs_view(keys@),
            aggs@,
            inner,
            source::model(*db),
        ),
{
    if keys.len() == 0 {
        return match add_aggregates(db, NamedRecord::new(), aggs, rs, inner) {
            Ok(p) => Ok(read::one_row(p)),
            Err(e) => Err(e),
        };
    }
    let ghost m = source::model(*db);
    let ghost ks = ast_model::exprs_view(keys@);
    let gs = group_rows(db, rs, keys);
    let ghost s = flow::viewed(gs@);
    let ghost f = |g: GroupView| group_row(g, ks, aggs@, inner, m);
    let mut out: Vec<NamedRecord> = Vec::new();
    let mut i: usize = 0;
    assert(s.take(0) =~= Seq::<GroupView>::empty());
    assert(record::rows(out@) =~= Seq::<Row>::empty());
    while i < gs.len()
        invariant
            i <= gs.len(),
            m == source::model(*db),
            ks == ast_model::exprs_view(keys@),
            s == flow::viewed(gs@),
            f == (|g: GroupView| group_row(g, ks, aggs@, inner, m)),
            keys.len() > 0,
            forall|j: int| 0 <= j < gs@.len() ==> (#[trigger] gs@[j]).keys.len() == keys.len(),
            source::steady(*db) ==> s == grouped(record::rows(rs@), ks, m),
            source::steady(*db) ==> flow::each(s.take(i as int), f) == Ok::<Seq<Row>, ErrorView>(
                record::rows(out@),
            ),
        decreases gs.len() - i,
    {
        proof {
            flow::lemma_each_step(s, f, i as int);
        }
        match row_of_group(db, &gs[i], keys, aggs, inner) {
            Ok(more) => {
                flow::append_rows(&mut out, more);
            },
            Err(e) => {
                proof {
                    if source::steady(*db) {
                        flow::lemma_each_stops(s, f, i + 1);
                    }
                }
                return Err(e);
            },
        }
        i = i + 1;
    }
    assert(s.take(s.len() as int) =~= s);
    Ok(out)
}

} // verus!
