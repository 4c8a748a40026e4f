//! Procedure calls.
use super::flow;
use super::flow::{Outcome, Rows};
use super::read;
use crate::assoc;
use crate::assoc::AssocList;
use crate::ast::Expr;
use crate::ast_model;
use crate::ast_model::ExprView;
use crate::float;
use crate::order;
use crate::plan::ExecContext;
use crate::record;
use crate::record::{NamedRecord, Row};
use crate::source;
use crate::source::{Model, Procedure, ProcedureView, Source};
use crate::text;
use crate::types;
use crate::types::{ErrorCode, ErrorKind, ErrorView, GraphError, QueryError, QueryPhase};
use crate::value;
use crate::value::{Value, ValueView};
use vstd::prelude::*;

verus! {

/// A value of a procedure's table goes with an argument: integers and floating point numbers
/// compare as numbers.
pub open spec fn goes_with(row_val: ValueView, arg: ValueView) -> bool {
    match (row_val, arg) {
        (ValueView::I64(a), ValueView::F64(b)) => float::same(order::as_float(a), b),
        (ValueView::F64(a), ValueView::I64(b)) => float::same(a, order::as_float(b)),
        _ => order::same(row_val, arg),
    }
}

/// True when a value of a procedure's table goes with an argument.
pub fn values_match(row_val: &Value, arg: &Value) -> (r: bool)
    ensures
        r == goes_with(row_val@, arg@),
{
    match (row_val, arg) {
        (Value::I64(a), Value::F64(b)) => float::equal(float::from_int(*a), *b),
        (Value::F64(a), Value::I64(b)) => float::equal(*a, float::from_int(*b)),
        _ => order::equal(row_val, arg),
    }
}

/// The values of the arguments, up to the first that fails.
pub open spec fn arguments(rec: Row, args: Seq<ExprView>, m: Model) -> Result<
    Seq<ValueView>,
    ErrorView,
>
    decreases args.len(),
{
    if args.len() == 0 {
        Ok(Seq::empty())
    } else {
        match arguments(rec, args.drop_last(), m) {
            Ok(vs) => match (m.eval)(args.last(), rec) {
                Ok(v) => Ok(vs.push(v)),
                Err(e) => Err(e),
            },
            Err(e) => Err(e),
        }
    }
}

/// The first argument that fails decides.
proof fn lemma_arguments_stop(rec: Row, args: Seq<ExprView>, m: Model, i: int)
    requires
        0 <= i <= args.len(),
        arguments(rec, args.take(i), m) is Err,
    ensures
        arguments(rec, args, m) == arguments(rec, args.take(i), m),
    decreases args.len(),
{
    if i < args.len() {
        assert(args.drop_last().take(i) =~= args.take(i));
        lemma_arguments_stop(rec, args.drop_last(), m, i);
    } else {
        assert(args.take(i) =~= args);
    }
}

/// What the evaluation of arguments says.
pub open spec fn values_told(r: Result<Vec<Value>, GraphError>) -> Result<
    Seq<ValueView>,
    ErrorView,
> {
    match r {
        Ok(v) => Ok(value::values_view(v@)),
        Err(e) => Err(e@),
    }
}

/// The values of the arguments.
fn eval_arguments<S: Source>(db: &S, rec: &NamedRecord, args: &Vec<Expr>) -> (r: Result<
    Vec<Value>,
    GraphError,
>)
    ensures
        source::steady(*db) ==> values_told(r) == arguments(
            rec@,
            ast_model::exprs_view(args@),
            source::model(*db),
        ),
{
    let ghost m = source::model(*db);
    let ghost s = ast_model::exprs_view(args@);
    let mut out: Vec<Value> = Vec::new();
    let mut i: usize = 0;
    assert(s.take(0) =~= Seq::<ExprView>::empty());
    assert(value::values_view(out@) =~= Seq::<ValueView>::empty());
    while i < args.len()
        invariant
            i <= args.len(),
            m == source::model(*db),
            s == ast_model::exprs_view(args@),
            source::steady(*db) ==> arguments(rec@, s.take(i as int), m) == Ok::<
                Seq<ValueView>,
                ErrorView,
            >(value::values_view(out@)),
        decreases args.len() - i,
    {
        assert(s.take(i + 1).drop_last() =~= s.take(i as int));
        assert(s.take(i + 1).last() == args@[i as int]@);
        match source::ask_eval(db, &args[i], rec) {
            Ok(v) => {
                let ghost before = value::values_view(out@);
                out.push(v);
                assert(value::values_view(out@) =~= before.push(v@));
            },
            Err(e) => {
                proof {
                    if source::steady(*db) {
                        lemma_arguments_stop(rec@, s, m, i + 1);
                    }
                }
                return Err(e);
            },
        }
        i = i + 1;
    }
    assert(s.take(s.len() as int) =~= s);
    Ok(out)
}

/// The row of a table goes with the arguments: each input that it has a value for does.
pub open spec fn row_goes_with(row: Row, inputs: Seq<Seq<char>>, args: Seq<ValueView>) -> bool {
    forall|i: int|
        0 <= i < inputs.len() && i < args.len() ==> (match assoc::lookup(row, #[trigger] inputs[i]) {
            Some(v) => goes_with(v, args[i]),
            None => true,
        })
}

/// The rows of a table that go with the arguments.
pub open spec fn matching(rows: Seq<Row>, inputs: Seq<Seq<char>>, args: Seq<ValueView>) -> Seq<Row>
    decreases rows.len(),
{
    if rows.len() == 0 {
        Seq::empty()
    } else if row_goes_with(rows.last(), inputs, args) {
        matching(rows.drop_last(), inputs, args).push(rows.last())
    } else {
        matching(rows.drop_last(), inputs, args)
    }
}

/// A value of a table row.
fn cell<'a>(row: &'a AssocList<Value>, key: &str) -> (r: Option<&'a Value>)
    ensures
        record::seen(r) == assoc::lookup(value::props_view(row.entries@), key@),
{
    proof {
        assoc::lemma_same_keys(row.entries@, value::props_view(row.entries@));
    }
    row.get(key)
}

/// True when the row of a table goes with the arguments.
fn row_matches(row: &AssocList<Value>, inputs: &Vec<String>, args: &Vec<Value>) -> (r: bool)
    ensures
        r == row_goes_with(
            value::props_view(row.entries@),
            ast_model::texts(inputs@),
            value::values_view(args@),
        ),
{
    let ghost ins = ast_model::texts(inputs@);
    let ghost vs = value::values_view(args@);
    let ghost rv = value::props_view(row.entries@);
    let mut i: usize = 0;
    while i < inputs.len() && i < args.len()
        invariant
            i <= inputs.len(),
            i <= args.len(),
            ins == ast_model::texts(inputs@),
            vs == value::values_view(args@),
            rv == value::props_view(row.entries@),
            forall|j: int|
                0 <= j < i ==> (match assoc::lookup(rv, #[trigger] ins[j]) {
                    Some(v) => goes_with(v, vs[j]),
                    None => true,
                }),
        decreases inputs.len() - i,
    {
        assert(ins[i as int] == inputs@[i as int]@);
        assert(vs[i as int] == args@[i as int]@);
        match cell(row, inputs[i].as_str()) {
            Some(v) => {
                if !values_match(v, &args[i]) {
                    return false;
                }
            },
            None => {},
        }
        i = i + 1;
    }
    true
}

/// Keeps the rows of a table that go with the arguments.
fn match_rows(rows: Vec<AssocList<Value>>, inputs: &Vec<String>, args: &Vec<Value>) -> (r: Vec<
    AssocList<Value>,
>)
    ensures
        source::table(r@) == matching(
            source::table(rows@),
            ast_model::texts(inputs@),
            value::values_view(args@),
        ),
{
    let ghost s = source::table(rows@);
    let ghost ins = ast_model::texts(inputs@);
    let ghost vs = value::values_view(args@);
    let mut out: Vec<AssocList<Value>> = Vec::new();
    let mut i: usize = 0;
    assert(s.take(0) =~= Seq::<Row>::empty());
    assert(source::table(out@) =~= Seq::<Row>::empty());
    while i < rows.len()
        invariant
            i <= rows.len(),
            s == source::table(rows@),
            ins == ast_model::texts(inputs@),
            vs == value::values_view(args@),
            source::table(out@) == matching(s.take(i as int), ins, vs),
        decreases rows.len() - i,
    {
        assert(s.take(i + 1).drop_last() =~= s.take(i as int));
        assert(s.take(i + 1).last() == value::props_view(rows@[i as int].entries@));
        if row_matches(&rows[i], inputs, args) {
            let ghost before = source::table(out@);
            let copy = AssocList { entries: value::dup_props(&rows[i].entries) };
            out.push(copy);
            assert(source::table(out@) =~= before.push(s[i as int]));
        }
        i = i + 1;
    }
    assert(s.take(s.len() as int) =~= s);
    out
}

/// The rows that a procedure gives for the arguments. A registered procedure has all its rows
/// in a table, of which those count that go with the arguments.
pub open spec fn given(name: Seq<char>, p: ProcedureView, args: Seq<ValueView>, m: Model) -> Rows {
    if p.builtin {
        (m.builtin_rows)(name, args)
    } else if p.inputs.len() == 0 || args.len() == 0 {
        Ok(p.rows)
    } else {
        Ok(matching(p.rows, p.inputs, args))
    }
}

/// A copy of a table.
fn dup_table(v: &Vec<AssocList<Value>>) -> (r: Vec<AssocList<Value>>)
    ensures
        source::table(r@) == source::table(v@),
{
    let mut out: Vec<AssocList<Value>> = Vec::new();
    let mut i: usize = 0;
    while i < v.len()
        invariant
            i <= v.len(),
            source::table(out@) == source::table(v@).take(i as int),
        decreases v.len() - i,
    {
        let ghost before = source::table(out@);
        let copy = AssocList { entries: value::dup_props(&v[i].entries) };
        out.push(copy);
        assert(source::table(out@) =~= before.push(source::table(v@)[i as int]));
        assert(source::table(v@).take(i + 1) =~= source::table(v@).take(i as int).push(
            source::table(v@)[i as int],
        ));
        i = i + 1;
    }
    assert(source::table(v@).take(v@.len() as int) =~= source::table(v@));
    out
}

/// The rows that a procedure gives for the arguments.
fn give<S: Source>(db: &S, name: &str, p: &Procedure, args: &Vec<Value>) -> (r: Result<
    Vec<AssocList<Value>>,
    GraphError,
>)
    ensures
        source::steady(*db) ==> source::table_told(r) == given(
            name@,
            p@,
            value::values_view(args@),
            source::model(*db),
        ),
{
    if p.builtin {
        return source::ask_builtin_rows(db, name, args);
    }
    let rows = dup_table(&p.rows);
    if p.inputs.len() == 0 || args.len() == 0 {
        Ok(rows)
    } else {
        Ok(match_rows(rows, &p.inputs, args))
    }
}

/// The row with the columns that a call yields. A column that the table lacks is null.
pub open spec fn yielded(rec: Row, row: Row, ys: Seq<(Seq<char>, Option<Seq<char>>)>) -> Row
    decreases ys.len(),
{
    if ys.len() == 0 {
        rec
    } else {
        let (col, alias) = ys.last();
        assoc::put(
            yielded(rec, row, ys.drop_last()),
            match alias {
                Some(a) => a,
                None => col,
            },
            match assoc::lookup(row, col) {
                Some(v) => v,
                None => ValueView::Null,
            },
        )
    }
}

/// The row with the columns that a call yields.
fn yield_row(rec: &NamedRecord, row: &AssocList<Value>, ys: &Vec<(String, Option<String>)>) -> (r:
    NamedRecord)
    ensures
        r@ == yielded(rec@, value::props_view(row.entries@), ast_model::yields_view(ys@)),
{
    let ghost s = ast_model::yields_view(ys@);
    let ghost rv = value::props_view(row.entries@);
    let mut out = rec.dup();
    let mut i: usize = 0;
    assert(s.take(0) =~= Seq::empty());
    while i < ys.len()
        invariant
            i <= ys.len(),
            s == ast_model::yields_view(ys@),
            rv == value::props_view(row.entries@),
            out@ == yielded(rec@, rv, s.take(i as int)),
        decreases ys.len() - i,
    {
        assert(s.take(i + 1).drop_last() =~= s.take(i as int));
        assert(s.take(i + 1).last() == (ys@[i as int].0@, ast_model::opt_text(ys@[i as int].1)));
        let name = match &ys[i].1 {
            Some(a) => a.clone(),
            None => ys[i].0.clone(),
        };
        let v = match cell(row, ys[i].0.as_str()) {
            Some(v) => v.dup(),
            None => Value::Null,
        };
        out.set(name, v);
        i = i + 1;
    }
    assert(s.take(s.len() as int) =~= s);
    out
}

/// The rows that a table yields for a row. Without columns to yield, the row itself goes on,
/// if it holds anything.
pub open spec fn yielded_rows(
    rec: Row,
    rows: Seq<Row>,
    ys: Seq<(Seq<char>, Option<Seq<char>>)>,
) -> Seq<Row> {
    if ys.len() == 0 {
        if rec.len() == 0 {
            Seq::empty()
        } else {
            seq![rec]
        }
    } else {
        Seq::new(rows.len(), |i: int| yielded(rec, rows[i], ys))
    }
}

/// The rows that a table yields for a row.
pub fn yield_rows(
    rec: &NamedRecord,
    rows: &Vec<AssocList<Value>>,
    ys: &Vec<(String, Option<String>)>,
) -> (r: Vec<NamedRecord>)
    ensures
        record::rows(r@) == yielded_rows(rec@, source::table(rows@), ast_model::yields_view(ys@)),
{
    if ys.len() == 0 {
        return if rec.fields.len() == 0 {
            read::no_rows()
        } else {
            read::one_row(rec.dup())
        };
    }
    let ghost whole = yielded_rows(rec@, source::table(rows@), ast_model::yields_view(ys@));
    let mut out: Vec<NamedRecord> = Vec::new();
    let mut i: usize = 0;
    while i < rows.len()
        invariant
            i <= rows.len(),
            ys.len() > 0,
            whole == yielded_rows(rec@, source::table(rows@), ast_model::yields_view(ys@)),
            record::rows(out@) == whole.take(i as int),
        decreases rows.len() - i,
    {
        let ghost before = record::rows(out@);
        let row = yield_row(rec, &rows[i], ys);
        out.push(row);
        assert(record::rows(out@) =~= before.push(row@));
        assert(whole.take(i + 1) =~= whole.take(i as int).push(whole[i as int]));
        i = i + 1;
    }
    assert(whole.take(whole.len() as int) =~= whole);
    out
}

/// The rows of a call for one row.
pub open spec fn called(
    rec: Row,
    name: Seq<char>,
    p: ProcedureView,
    args: Seq<ExprView>,
    ys: Seq<(Seq<char>, Option<Seq<char>>)>,
    m: Model,
) -> Rows {
    match arguments(rec, args, m) {
        Ok(vs) => match given(name, p, vs, m) {
            Ok(rows) => Ok(yielded_rows(rec, rows, ys)),
            Err(e) => Err(e),
        },
        Err(e) => Err(e),
    }
}

/// The rows of a call for one row.
fn call_one<S: Source>(
    db: &S,
    rec: &NamedRecord,
    name: &str,
    p: &Procedure,
    args: &Vec<Expr>,
    ys: &Vec<(String, Option<String>)>,
) -> (r: Outcome)
    ensures
        source::steady(*db) ==> flow::rows_told(r) == called(
            rec@,
            name@,
            p@,
            ast_model::exprs_view(args@),
            ast_model::yields_view(ys@),
            source::model(*db),
        ),
{
    match eval_arguments(db, rec, args) {
        Ok(vs) => match give(db, name, p, &vs) {
            Ok(rows) => Ok(yield_rows(rec, &rows, ys)),
            Err(e) => Err(e),
        },
        Err(e) => Err(e),
    }
}

/// There is no such procedure.
pub open spec fn unknown_procedure(name: Seq<char>) -> ErrorView {
    types::query_error(
        ErrorKind::Procedure,
        QueryPhase::Runtime,
        ErrorCode::Other,
        "ProcedureNotFound: unknown procedure `"@ + name + "`"@,
        None,
        None,
    )
}

/// The rows of the calls for all rows.
pub open spec fn called_rows(
    rs: Seq<Row>,
    name: Seq<char>,
    args: Seq<ExprView>,
    ys: Seq<(Seq<char>, Option<Seq<char>>)>,
    ctx: ExecContext,
    m: Model,
) -> Rows {
    match (m.procedure)(name) {
        Some(p) => read::limited_all(
            flow::each(rs, |rec: Row| called(rec, name, p, args, ys, m)),
            ctx,
        ),
        None => Err(unknown_procedure(name)),
    }
}

/// The rows of the calls for all rows.
pub fn call_rows<S: Source>(
    db: &S,
    rs: &Vec<NamedRecord>,
    name: &str,
    args: &Vec<Expr>,
    ys: &Vec<(String, Option<String>)>,
    ctx: &ExecContext,
) -> (r: Outcome)
    ensures
        source::steady(*db) ==> flow::rows_told(r) == called_rows(
            record::rows(rs@),
            name@,
            ast_model::exprs_view(args@),
            ast_model::yields_view(ys@),
            *ctx,
            source::model(*db),
        ),
{
    let p = match source::ask_procedure(db, name) {
        Some(p) => p,
        None => {
            return Err(
                GraphError::Query(
                    QueryError::ProcedureError {
                        phase: QueryPhase::Runtime,
                        code: ErrorCode::Other,
                        message: text::cat3("ProcedureNotFound: unknown procedure `", name, "`"),
                        hint: None,
                        span: None,
                    },
                ),
            );
        },
    };
    let ghost m = source::model(*db);
    let ghost (n, a, y) = (name@, ast_model::exprs_view(args@), ast_model::yields_view(ys@));
    let ghost pv = p@;
    assert(flow::viewed(rs@) =~= record::rows(rs@));
    let f = |rec: &NamedRecord| -> (o: Outcome)
        ensures
            source::steady(*db) ==> flow::rows_told(o) == called(
                rec@,
                name@,
                p@,
                ast_model::exprs_view(args@),
                ast_model::yields_view(ys@),
                source::model(*db),
            ),
        { call_one(db, rec, name, &p, args, ys) };
    match flow::gather(
        rs,
        f,
        Ghost(|rec: Row| called(rec, n, pv, a, y, m)),
        Ghost(source::steady(*db)),
    ) {
        Ok(out) => read::limit_rows(out, ctx),
        Err(e) => Err(e),
    }
}

} // verus!
