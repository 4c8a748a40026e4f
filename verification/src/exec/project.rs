//! Projection: the columns of RETURN and WITH.
use super::flow;
use super::flow::{Outcome, Rows};
use super::read;
use crate::assoc;
use crate::ast::{Expr, ExprKind, ReturnItem};
use crate::ast_model;
use crate::ast_model::{ExprKindView, ExprView, ReturnItemView};
use crate::binding;
use crate::plan;
use crate::record;
use crate::record::{NamedRecord, Row};
use crate::source;
use crate::source::{Model, Source};
use crate::text;
use crate::types;
use crate::types::{ErrorCode, ErrorKind, ErrorView, GraphError, QueryError, QueryPhase};
use crate::value::{Value, ValueView};
use vstd::prelude::*;

verus! {

/// What the outcome of building one row says.
pub open spec fn row_told(r: Result<NamedRecord, GraphError>) -> Result<Row, ErrorView> {
    match r {
        Ok(rec) => Ok(rec@),
        Err(e) => Err(e@),
    }
}

/// True when the text is among the others.
pub fn has_text(v: &Vec<String>, x: &str) -> (r: bool)
    ensures
        r == ast_model::texts(v@).contains(x@),
{
    let ghost s = ast_model::texts(v@);
    let mut i: usize = 0;
    while i < v.len()
        invariant
            i <= v.len(),
            s == ast_model::texts(v@),
            forall|j: int| 0 <= j < i ==> #[trigger] s[j] != x@,
        decreases v.len() - i,
    {
        assert(s[i as int] == v@[i as int]@);
        if text::same_str(v[i].as_str(), x) {
            return true;
        }
        i = i + 1;
    }
    false
}

/// The row with the whole values of the variables added.
pub open spec fn put_compounds(p: Row, rec: Row, vars: Seq<Seq<char>>) -> Row
    decreases vars.len(),
{
    if vars.len() == 0 {
        p
    } else {
        let so_far = put_compounds(p, rec, vars.drop_last());
        match binding::compound(rec, vars.last()) {
            Some(v) => assoc::put(so_far, vars.last(), v),
            None => so_far,
        }
    }
}

/// Adds the whole values of the variables.
pub fn add_compounds(p: &mut NamedRecord, rec: &NamedRecord, vars: &Vec<String>)
    ensures
        final(p)@ == put_compounds(old(p)@, rec@, ast_model::texts(vars@)),
{
    let ghost s = ast_model::texts(vars@);
    let ghost base = p@;
    let mut i: usize = 0;
    assert(s.take(0) =~= Seq::<Seq<char>>::empty());
    while i < vars.len()
        invariant
            i <= vars.len(),
            s == ast_model::texts(vars@),
            p@ == put_compounds(base, rec@, s.take(i as int)),
        decreases vars.len() - i,
    {
        assert(s.take(i + 1).drop_last() =~= s.take(i as int));
        assert(s.take(i + 1).last() == vars@[i as int]@);
        match binding::build_compound_binding(rec, vars[i].as_str()) {
            Some(v) => {
                p.set(vars[i].clone(), v);
            },
            None => {},
        }
        i = i + 1;
    }
    assert(s.take(s.len() as int) =~= s);
}

/// The field stands for itself in `RETURN *`: it belongs to no variable that is bound to a node
/// or a relationship, and is not internal.
pub open spec fn stands_alone(rec: Row, vars: Seq<Seq<char>>, key: Seq<char>) -> bool {
    match text::parted(key, '.') {
        Some((owner, name)) => !text::begins(name, "__"@) && !vars.contains(owner),
        None => !vars.contains(key) && assoc::lookup(rec, text::dotted(key, "__id"@)) is None,
    }
}

/// True when the field stands for itself in `RETURN *`.
fn is_alone(rec: &NamedRecord, vars: &Vec<String>, key: &str) -> (r: bool)
    ensures
        r == stands_alone(rec@, ast_model::texts(vars@), key@),
{
    match text::split_once(key, '.') {
        Some((owner, name)) => !text::starts_with(name.as_str(), "__") && !has_text(
            vars,
            owner.as_str(),
        ),
        None => !has_text(vars, key) && !rec.has(text::field(key, "__id").as_str()),
    }
}

/// The row with those of the first `n` fields added that stand for themselves.
pub open spec fn put_scalars(p: Row, rec: Row, vars: Seq<Seq<char>>, n: int) -> Row
    decreases n,
{
    if n <= 0 {
        p
    } else {
        let so_far = put_scalars(p, rec, vars, n - 1);
        if stands_alone(rec, vars, rec[n - 1].0) {
            assoc::put(so_far, rec[n - 1].0, rec[n - 1].1)
        } else {
            so_far
        }
    }
}

/// The row with all that `RETURN *` gives: whole values and fields that stand for themselves.
pub open spec fn put_star(p: Row, rec: Row) -> Row {
    put_scalars(
        put_compounds(p, rec, binding::bound_vars(rec)),
        rec,
        binding::bound_vars(rec),
        rec.len() as int,
    )
}

/// Adds all that `RETURN *` gives.
fn add_star(p: &mut NamedRecord, rec: &NamedRecord)
    ensures
        final(p)@ == put_star(old(p)@, rec@),
{
    let vars = binding::compound_binding_vars(rec);
    add_compounds(p, rec, &vars);
    let ghost base = p@;
    let ghost vs = ast_model::texts(vars@);
    let mut i: usize = 0;
    while i < rec.fields.entries.len()
        invariant
            i <= rec@.len(),
            rec@.len() == rec.fields.entries@.len(),
            vs == ast_model::texts(vars@),
            p@ == put_scalars(base, rec@, vs, i as int),
        decreases rec@.len() - i,
    {
        let key = &rec.fields.entries[i].0;
        assert(rec@[i as int] == (key@, rec.fields.entries@[i as int].1@));
        if is_alone(rec, &vars, key.as_str()) {
            p.set(key.clone(), rec.fields.entries[i].1.dup());
        }
        i = i + 1;
    }
}

/// The row with a column of the value of an expression.
pub open spec fn put_evaluated(p: Row, rec: Row, e: ExprView, col: Seq<char>, m: Model) -> Result<
    Row,
    ErrorView,
> {
    match (m.eval)(e, rec) {
        Ok(v) => Ok(assoc::put(p, col, v)),
        Err(e) => Err(e),
    }
}

/// The row with a column of the value of an expression.
pub fn add_evaluated<S: Source>(
    db: &S,
    p: NamedRecord,
    rec: &NamedRecord,
    e: &Expr,
    col: String,
) -> (r: Result<NamedRecord, GraphError>)
    ensures
        source::steady(*db) ==> row_told(r) == put_evaluated(
            p@,
            rec@,
            e@,
            col@,
            source::model(*db),
        ),
{
    match source::ask_eval(db, e, rec) {
        Ok(v) => {
            let mut p = p;
            p.set(col, v);
            Ok(p)
        },
        Err(e) => Err(e),
    }
}

/// The row with the column of a bare variable: its whole value at the end of a query, its
/// fields before.
pub open spec fn put_variable(
    p: Row,
    rec: Row,
    e: ExprView,
    var: Seq<char>,
    col: Seq<char>,
    emit: bool,
    m: Model,
) -> Result<Row, ErrorView> {
    if emit {
        match binding::compound(rec, var) {
            Some(v) => Ok(assoc::put(p, col, v)),
            None => match assoc::lookup(rec, col) {
                Some(v) => Ok(assoc::put(p, col, v)),
                None => put_evaluated(p, rec, e, col, m),
            },
        }
    } else {
        let fields = record::carried(rec, var + "."@, col + "."@);
        let spread = record::put_all(p, fields);
        match assoc::lookup(rec, var) {
            Some(v) => Ok(assoc::put(spread, col, v)),
            None => if fields.len() > 0 {
                Ok(spread)
            } else {
                put_evaluated(spread, rec, e, col, m)
            },
        }
    }
}

/// The row with the column of a bare variable.
pub fn add_variable<S: Source>(
    db: &S,
    p: NamedRecord,
    rec: &NamedRecord,
    e: &Expr,
    var: &str,
    col: String,
    emit: bool,
) -> (r: Result<NamedRecord, GraphError>)
    ensures
        source::steady(*db) ==> row_told(r) == put_variable(
            p@,
            rec@,
            e@,
            var@,
            col@,
            emit,
            source::model(*db),
        ),
{
    let mut p = p;
    if emit {
        match binding::build_compound_binding(rec, var) {
            Some(v) => {
                p.set(col, v);
                return Ok(p);
            },
            None => {},
        }
        match rec.get(col.as_str()) {
            Some(v) => {
                p.set(col, v.dup());
                return Ok(p);
            },
            None => {},
        }
        return add_evaluated(db, p, rec, e, col);
    }
    let any = p.carry(
        &rec.fields.entries,
        text::cat(var, ".").as_str(),
        text::cat(col.as_str(), ".").as_str(),
    );
    match rec.get(var) {
        Some(v) => {
            p.set(col, v.dup());
            return Ok(p);
        },
        None => {},
    }
    if any {
        return Ok(p);
    }
    add_evaluated(db, p, rec, e, col)
}

/// The expression reads a property of something that was deleted.
pub open spec fn reads_deleted(rec: Row, e: ExprView) -> bool {
    match e.kind {
        ExprKindView::Property(var, _) => assoc::lookup(rec, text::dotted(var, "__deleted"@))
            == Some(ValueView::Bool(true)),
        _ => false,
    }
}

/// A property of something that was deleted is read.
pub open spec fn deleted_access(e: ExprView) -> ErrorView {
    match e.kind {
        ExprKindView::Property(var, prop) => types::query_error(
            ErrorKind::EntityNotFound,
            QueryPhase::Runtime,
            ErrorCode::Other,
            "DeletedEntityAccess: cannot access property `"@ + prop + "` on deleted entity `"@
                + var + "`"@,
            None,
            None,
        ),
        _ => arbitrary(),
    }
}

/// Refuses to read a property of something that was deleted.
fn check_deleted(rec: &NamedRecord, e: &Expr) -> (r: Result<(), GraphError>)
    ensures
        types::verdict(r) == (if reads_deleted(rec@, e@) {
            Err(deleted_access(e@))
        } else {
            Ok(())
        }),
{
    match &e.kind {
        ExprKind::Property(var, prop) => {
            match rec.get(text::field(var.as_str(), "__deleted").as_str()) {
                Some(Value::Bool(true)) => {
                    let mut message = text::cat3(
                        "DeletedEntityAccess: cannot access property `",
                        prop.as_str(),
                        "` on deleted entity `",
                    );
                    message.append(var.as_str());
                    message.append("`");
                    Err(
                        GraphError::Query(
                            QueryError::EntityNotFound {
                                phase: QueryPhase::Runtime,
                                code: ErrorCode::Other,
                                message,
                                hint: None,
                                span: None,
                            },
                        ),
                    )
                },
                _ => Ok(()),
            }
        },
        _ => Ok(()),
    }
}

/// The value that a row holds already for an expression: under the expression's own name, or
/// under the column's where it is an aggregate. A column named like a variable bound to a node
/// holds no such value.
pub open spec fn precomputed(rec: Row, e: ExprView, col: Seq<char>, own: Seq<char>) -> Option<
    ValueView,
> {
    if assoc::lookup(rec, text::dotted(col, "__id"@)) is Some {
        None
    } else {
        match assoc::lookup(rec, own) {
            Some(v) => Some(v),
            None => if col != own && plan::aggregate_call(e) {
                assoc::lookup(rec, col)
            } else {
                None
            },
        }
    }
}

/// The value that a row holds already for an expression.
fn find_precomputed(rec: &NamedRecord, e: &Expr, col: &str, own: &str) -> (r: Option<Value>)
    ensures
        binding::opt_value(r) == precomputed(rec@, e@, col@, own@),
{
    if rec.has(text::field(col, "__id").as_str()) {
        return None;
    }
    match rec.get(own) {
        Some(v) => {
            return Some(v.dup());
        },
        None => {},
    }
    if !text::same_str(col, own) && plan::is_aggregate_call(e) {
        match rec.get(col) {
            Some(v) => Some(v.dup()),
            None => None,
        }
    } else {
        None
    }
}

/// The row with the column of an expression.
pub open spec fn put_expression(
    p: Row,
    rec: Row,
    e: ExprView,
    col: Seq<char>,
    own: Seq<char>,
    m: Model,
) -> Result<Row, ErrorView> {
    if reads_deleted(rec, e) {
        Err(deleted_access(e))
    } else {
        match precomputed(rec, e, col, own) {
            Some(v) => Ok(assoc::put(p, col, v)),
            None => put_evaluated(p, rec, e, col, m),
        }
    }
}

/// The row with the column of an expression.
fn add_expression<S: Source>(
    db: &S,
    p: NamedRecord,
    rec: &NamedRecord,
    e: &Expr,
    col: String,
    own: String,
) -> (r: Result<NamedRecord, GraphError>)
    ensures
        source::steady(*db) ==> row_told(r) == put_expression(
            p@,
            rec@,
            e@,
            col@,
            own@,
            source::model(*db),
        ),
{
    match check_deleted(rec, e) {
        Err(e) => {
            return Err(e);
        },
        Ok(_) => {},
    }
    match find_precomputed(rec, e, col.as_str(), own.as_str()) {
        Some(v) => {
            let mut p = p;
            p.set(col, v);
            Ok(p)
        },
        None => add_evaluated(db, p, rec, e, col),
    }
}

/// The row with the columns of one item.
pub open spec fn put_item(p: Row, rec: Row, item: ReturnItemView, emit: bool, m: Model) -> Result<
    Row,
    ErrorView,
> {
    match item.expr.kind {
        ExprKindView::Star => Ok(
            if emit {
                put_star(p, rec)
            } else {
                record::put_all(p, rec)
            },
        ),
        ExprKindView::Variable(var) => put_variable(
            p,
            rec,
            item.expr,
            var,
            match item.alias {
                Some(a) => a,
                None => var,
            },
            emit,
            m,
        ),
        _ => {
            let own = (m.column_name)(item.expr);
            put_expression(
                p,
                rec,
                item.expr,
                match item.alias {
                    Some(a) => a,
                    None => own,
                },
                own,
                m,
            )
        },
    }
}

/// The row with the columns of one item.
fn add_item<S: Source>(
    db: &S,
    p: NamedRecord,
    rec: &NamedRecord,
    item: &ReturnItem,
    emit: bool,
) -> (r: Result<NamedRecord, GraphError>)
    ensures
        source::steady(*db) ==> row_told(r) == put_item(
            p@,
            rec@,
            item@,
            emit,
            source::model(*db),
        ),
{
    match &item.expr.kind {
        ExprKind::Star => {
            let mut p = p;
            if emit {
                add_star(&mut p, rec);
            } else {
                p.set_all(&rec.fields.entries);
            }
            Ok(p)
        },
        ExprKind::Variable(var) => {
            let col = match &item.alias {
                Some(a) => a.clone(),
                None => var.clone(),
            };
            add_variable(db, p, rec, &item.expr, var.as_str(), col, emit)
        },
        _ => {
            let own = source::ask_column_name(db, &item.expr);
            let col = match &item.alias {
                Some(a) => a.clone(),
                None => own.clone(),
            };
            add_expression(db, p, rec, &item.expr, col, own)
        },
    }
}

/// The row of the columns that the items give.
pub open spec fn projected(rec: Row, items: Seq<ReturnItemView>, emit: bool, m: Model) -> Result<
    Row,
    ErrorView,
>
    decreases items.len(),
{
    if items.len() == 0 {
        Ok(Row::empty())
    } else {
        match projected(rec, items.drop_last(), emit, m) {
            Ok(p) => put_item(p, rec, items.last(), emit, m),
            Err(e) => Err(e),
        }
    }
}

/// The first item that fails decides.
proof fn lemma_projected_stops(
    rec: Row,
    items: Seq<ReturnItemView>,
    emit: bool,
    m: Model,
    i: int,
)
    requires
        0 <= i <= items.len(),
        projected(rec, items.take(i), emit, m) is Err,
    ensures
        projected(rec, items, emit, m) == projected(rec, items.take(i), emit, m),
    decreases items.len(),
{
    if i < items.len() {
        assert(items.drop_last().take(i) =~= items.take(i));
        lemma_projected_stops(rec, items.drop_last(), emit, m, i);
    } else {
        assert(items.take(i) =~= items);
    }
}

/// The row of the columns that the items give.
pub fn project_record<S: Source>(
    db: &S,
    rec: &NamedRecord,
    items: &Vec<ReturnItem>,
    emit: bool,
) -> (r: Result<NamedRecord, GraphError>)
    ensures
        source::steady(*db) ==> row_told(r) == projected(
            rec@,
            ast_model::return_items_view(items@),
            emit,
            source::model(*db),
        ),
{
    let ghost m = source::model(*db);
    let ghost s = ast_model::return_items_view(items@);
    let mut p = NamedRecord::new();
    let mut i: usize = 0;
    assert(s.take(0) =~= Seq::<ReturnItemView>::empty());
    while i < items.len()
        invariant
            i <= items.len(),
            m == source::model(*db),
            s == ast_model::return_items_view(items@),
            source::steady(*db) ==> projected(rec@, s.take(i as int), emit, m) == Ok::<
                Row,
                ErrorView,
            >(p@),
        decreases items.len() - i,
    {
        assert(s.take(i + 1).drop_last() =~= s.take(i as int));
        assert(s.take(i + 1).last() == items@[i as int]@);
        match add_item(db, p, rec, &items[i], emit) {
            Ok(next) => {
                p = next;
            },
            Err(e) => {
                proof {
                    if source::steady(*db) {
                        lemma_projected_stops(rec@, s, emit, m, i + 1);
                    }
                }
                return Err(e);
            },
        }
        i = i + 1;
    }
    assert(s.take(s.len() as int) =~= s);
    Ok(p)
}

/// One projected row.
pub open spec fn projected_one(rec: Row, items: Seq<ReturnItemView>, emit: bool, m: Model) -> Rows {
    match projected(rec, items, emit, m) {
        Ok(p) => Ok(seq![p]),
        Err(e) => Err(e),
    }
}

/// One projected row.
fn project_one<S: Source>(
    db: &S,
    rec: &NamedRecord,
    items: &Vec<ReturnItem>,
    emit: bool,
) -> (r: Outcome)
    ensures
        source::steady(*db) ==> flow::rows_told(r) == projected_one(
            rec@,
            ast_model::return_items_view(items@),
            emit,
            source::model(*db),
        ),
{
    match project_record(db, rec, items, emit) {
        Ok(p) => Ok(read::one_row(p)),
        Err(e) => Err(e),
    }
}

/// The rows of the columns that the items give.
pub open spec fn projected_rows(
    rs: Seq<Row>,
    items: Seq<ReturnItemView>,
    emit: bool,
    m: Model,
) -> Rows {
    flow::each(rs, |rec: Row| projected_one(rec, items, emit, m))
}

/// The rows of the columns that the items give.
pub fn project_rows<S: Source>(
    db: &S,
    rs: &Vec<NamedRecord>,
    items: &Vec<ReturnItem>,
    emit: bool,
) -> (r: Outcome)
    ensures
        source::steady(*db) ==> flow::rows_told(r) == projected_rows(
            record::rows(rs@),
            ast_model::return_items_view(items@),
            emit,
            source::model(*db),
        ),
{
    let ghost m = source::model(*db);
    let ghost s = ast_model::return_items_view(items@);
    assert(flow::viewed(rs@) =~= record::rows(rs@));
    let f = |rec: &NamedRecord| -> (o: Outcome)
        ensures
            source::steady(*db) ==> flow::rows_told(o) == projected_one(
                rec@,
                ast_model::return_items_view(items@),
                emit,
                source::model(*db),
            ),
        { project_one(db, rec, items, emit) };
    flow::gather(rs, f, Ghost(|rec: Row| projected_one(rec, s, emit, m)), Ghost(source::steady(*db)))
}

/// The row with the column of one item of a subquery. What the row holds under the expression's
/// own name or the column's name counts as its value; a variable takes its fields along.
pub open spec fn put_inner_item(p: Row, rec: Row, item: ReturnItemView, m: Model) -> Result<
    Row,
    ErrorView,
> {
    match item.expr.kind {
        ExprKindView::Star => Ok(record::put_all(p, rec)),
        ExprKindView::Variable(var) => {
            let col = match item.alias {
                Some(a) => a,
                None => var,
            };
            match inner_value(rec, item.expr, col, m) {
                Ok(v) => Ok(
                    record::put_all(
                        assoc::put(p, col, v),
                        record::carried(rec, var + "."@, col + "."@),
                    ),
                ),
                Err(e) => Err(e),
            }
        },
        _ => {
            let col = match item.alias {
                Some(a) => a,
                None => (m.spelled)(item.expr),
            };
            match inner_value(rec, item.expr, col, m) {
                Ok(v) => Ok(assoc::put(p, col, v)),
                Err(e) => Err(e),
            }
        },
    }
}

/// The value of an item of a subquery.
pub open spec fn inner_value(rec: Row, e: ExprView, col: Seq<char>, m: Model) -> Result<
    ValueView,
    ErrorView,
> {
    match assoc::lookup(rec, (m.column_name)(e)) {
        Some(v) => Ok(v),
        None => match assoc::lookup(rec, col) {
            Some(v) => Ok(v),
            None => (m.eval)(e, rec),
        },
    }
}

/// The value of an item of a subquery.
fn find_inner_value<S: Source>(db: &S, rec: &NamedRecord, e: &Expr, col: &str) -> (r: Result<
    Value,
    GraphError,
>)
    ensures
        source::steady(*db) ==> types::outcome(r) == inner_value(
            rec@,
            e@,
            col@,
            source::model(*db),
        ),
{
    let own = source::ask_column_name(db, e);
    match rec.get(own.as_str()) {
        Some(v) => {
            return Ok(v.dup());
        },
        None => {},
    }
    match rec.get(col) {
        Some(v) => Ok(v.dup()),
        None => source::ask_eval(db, e, rec),
    }
}

/// The row with the column of one item of a subquery.
fn add_inner_item<S: Source>(
    db: &S,
    p: NamedRecord,
    rec: &NamedRecord,
    item: &ReturnItem,
) -> (r: Result<NamedRecord, GraphError>)
    ensures
        source::steady(*db) ==> row_told(r) == put_inner_item(
            p@,
            rec@,
            item@,
            source::model(*db),
        ),
{
    let mut p = p;
    match &item.expr.kind {
        ExprKind::Star => {
            p.set_all(&rec.fields.entries);
            Ok(p)
        },
        ExprKind::Variable(var) => {
            let col = match &item.alias {
                Some(a) => a.clone(),
                None => var.clone(),
            };
            match find_inner_value(db, rec, &item.expr, col.as_str()) {
                Ok(v) => {
                    p.set(col.clone(), v);
                    p.carry(
                        &rec.fields.entries,
                        text::cat(var.as_str(), ".").as_str(),
                        text::cat(col.as_str(), ".").as_str(),
                    );
                    Ok(p)
                },
                Err(e) => Err(e),
            }
        },
        _ => {
            let col = match &item.alias {
                Some(a) => a.clone(),
                None => source::ask_spelled(db, &item.expr),
            };
            match find_inner_value(db, rec, &item.expr, col.as_str()) {
                Ok(v) => {
                    p.set(col, v);
                    Ok(p)
                },
                Err(e) => Err(e),
            }
        },
    }
}

/// The row of the columns that the items of a subquery give.
pub open spec fn inner_projected(rec: Row, items: Seq<ReturnItemView>, m: Model) -> Result<
    Row,
    ErrorView,
>
    decreases items.len(),
{
    if items.len() == 0 {
        Ok(Row::empty())
    } else {
        match inner_projected(rec, items.drop_last(), m) {
            Ok(p) => put_inner_item(p, rec, items.last(), m),
            Err(e) => Err(e),
        }
    }
}

/// The first item that fails decides.
proof fn lemma_inner_stops(rec: Row, items: Seq<ReturnItemView>, m: Model, i: int)
    requires
        0 <= i <= items.len(),
        inner_projected(rec, items.take(i), m) is Err,
    ensures
        inner_projected(rec, items, m) == inner_projected(rec, items.take(i), m),
    decreases items.len(),
{
    if i < items.len() {
        assert(items.drop_last().take(i) =~= items.take(i));
        lemma_inner_stops(rec, items.drop_last(), m, i);
    } else {
        assert(items.take(i) =~= items);
    }
}

/// The row of the columns that the items of a subquery give.
fn project_inner<S: Source>(db: &S, rec: &NamedRecord, items: &Vec<ReturnItem>) -> (r: Result<
    NamedRecord,
    GraphError,
>)
    ensures
        source::steady(*db) ==> row_told(r) == inner_projected(
            rec@,
            ast_model::return_items_view(items@),
            source::model(*db),
        ),
{
    let ghost m = source::model(*db);
    let ghost s = ast_model::return_items_view(items@);
    let mut p = NamedRecord::new();
    let mut i: usize = 0;
    assert(s.take(0) =~= Seq::<ReturnItemView>::empty());
    while i < items.len()
        invariant
            i <= items.len(),
            m == source::model(*db),
            s == ast_model::return_items_view(items@),
            source::steady(*db) ==> inner_projected(rec@, s.take(i as int), m) == Ok::<
                Row,
                ErrorView,
            >(p@),
        decreases items.len() - i,
    {
        assert(s.take(i + 1).drop_last() =~= s.take(i as int));
        assert(s.take(i + 1).last() == items@[i as int]@);
        match add_inner_item(db, p, rec, &items[i]) {
            Ok(next) => {
                p = next;
            },
            Err(e) => {
                proof {
                    if source::steady(*db) {
                        lemma_inner_stops(rec@, s, m, i + 1);
                    }
                }
                return Err(e);
            },
        }
        i = i + 1;
    }
    assert(s.take(s.len() as int) =~= s);
    Ok(p)
}

/// The row with those of the first `n` fields added that are bare and no whole values.
pub open spec fn put_bare(p: Row, rec: Row, vars: Seq<Seq<char>>, n: int) -> Row
    decreases n,
{
    if n <= 0 {
        p
    } else {
        let so_far = put_bare(p, rec, vars, n - 1);
        if text::parted(rec[n - 1].0, '.') is None && !vars.contains(rec[n - 1].0) {
            assoc::put(so_far, rec[n - 1].0, rec[n - 1].1)
        } else {
            so_far
        }
    }
}

/// The row with nodes and relationships as whole values.
pub open spec fn compounded(rec: Row) -> Row {
    put_bare(
        put_compounds(Row::empty(), rec, binding::bound_vars(rec)),
        rec,
        binding::bound_vars(rec),
        rec.len() as int,
    )
}

/// The row with nodes and relationships as whole values.
fn compound_row(rec: &NamedRecord) -> (r: NamedRecord)
    ensures
        r@ == compounded(rec@),
{
    let mut p = NamedRecord::new();
    let vars = binding::compound_binding_vars(rec);
    add_compounds(&mut p, rec, &vars);
    let ghost base = p@;
    let ghost vs = ast_model::texts(vars@);
    let mut i: usize = 0;
    while i < rec.fields.entries.len()
        invariant
            i <= rec@.len(),
            rec@.len() == rec.fields.entries@.len(),
            vs == ast_model::texts(vars@),
            p@ == put_bare(base, rec@, vs, i as int),
        decreases rec@.len() - i,
    {
        let key = &rec.fields.entries[i].0;
        assert(rec@[i as int] == (key@, rec.fields.entries@[i as int].1@));
        let bare = match text::split_once(key.as_str(), '.') {
            Some(_) => false,
            None => true,
        };
        if bare && !has_text(&vars, key.as_str()) {
            p.set(key.clone(), rec.fields.entries[i].1.dup());
        }
        i = i + 1;
    }
    p
}

/// One projected row of a subquery.
pub open spec fn inner_projected_one(
    rec: Row,
    items: Seq<ReturnItemView>,
    emit: bool,
    m: Model,
) -> Rows {
    match inner_projected(rec, items, m) {
        Ok(p) => Ok(
            seq![
                if emit {
                    compounded(p)
                } else {
                    p
                },
            ],
        ),
        Err(e) => Err(e),
    }
}

/// One projected row of a subquery.
fn project_inner_one<S: Source>(
    db: &S,
    rec: &NamedRecord,
    items: &Vec<ReturnItem>,
    emit: bool,
) -> (r: Outcome)
    ensures
        source::steady(*db) ==> flow::rows_told(r) == inner_projected_one(
            rec@,
            ast_model::return_items_view(items@),
            emit,
            source::model(*db),
        ),
{
    match project_inner(db, rec, items) {
        Ok(p) => if emit {
            Ok(read::one_row(compound_row(&p)))
        } else {
            Ok(read::one_row(p))
        },
        Err(e) => Err(e),
    }
}

/// The projected rows of a subquery.
pub open spec fn inner_projected_rows(
    rs: Seq<Row>,
    items: Seq<ReturnItemView>,
    emit: bool,
    m: Model,
) -> Rows {
    flow::each(rs, |rec: Row| inner_projected_one(rec, items, emit, m))
}

/// The projected rows of a subquery.
pub fn project_inner_rows<S: Source>(
    db: &S,
    rs: &Vec<NamedRecord>,
    items: &Vec<ReturnItem>,
    emit: bool,
) -> (r: Outcome)
    ensures
        source::steady(*db) ==> flow::rows_told(r) == inner_projected_rows(
            record::rows(rs@),
            ast_model::return_items_view(items@),
            emit,
            source::model(*db),
        ),
{
    let ghost m = source::model(*db);
    let ghost s = ast_model::return_items_view(items@);
    assert(flow::viewed(rs@) =~= record::rows(rs@));
    let f = |rec: &NamedRecord| -> (o: Outcome)
        ensures
            source::steady(*db) ==> flow::rows_told(o) == inner_projected_one(
                rec@,
                ast_model::return_items_view(items@),
                emit,
                source::model(*db),
            ),
        { project_inner_one(db, rec, items, emit) };
    flow::gather(
        rs,
        f,
        Ghost(|rec: Row| inner_projected_one(rec, s, emit, m)),
        Ghost(source::steady(*db)),
    )
}

} // verus!
