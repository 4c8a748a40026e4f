//! Projection of rows that are pulled one at a time.
use super::flow::Rows;
use super::project;
use crate::assoc;
use crate::ast::{Expr, ExprKind, ReturnItem};
use crate::ast_model;
use crate::ast_model::{ExprKindView, ExprView, ReturnItemView};
use crate::binding;
use crate::record;
use crate::record::{NamedRecord, Row};
use crate::source;
use crate::source::{Model, Source};
use crate::text;
use crate::types::{ErrorView, GraphError};
use vstd::prelude::*;

verus! {

/// The field is a property that `RETURN *` shows: it is not internal, and its owner is not
/// bound to a node or a relationship. A field without an owner is not shown.
pub open spec fn shown(vars: Seq<Seq<char>>, key: Seq<char>) -> bool {
    match text::parted(key, '.') {
        Some((owner, name)) => !text::begins(name, "__"@) && !vars.contains(owner),
        None => false,
    }
}

/// True when `RETURN *` shows the field.
fn is_shown(vars: &Vec<String>, key: &str) -> (r: bool)
    ensures
        r == shown(ast_model::texts(vars@), key@),
{
    match text::split_once(key, '.') {
        Some((owner, name)) => !text::starts_with(name.as_str(), "__") && !project::has_text(
            vars,
            owner.as_str(),
        ),
        None => false,
    }
}

/// The row with those of the first `n` fields added that `RETURN *` shows.
pub open spec fn put_shown(p: Row, rec: Row, vars: Seq<Seq<char>>, n: int) -> Row
    decreases n,
{
    if n <= 0 {
        p
    } else {
        let so_far = put_shown(p, rec, vars, n - 1);
        if shown(vars, rec[n - 1].0) {
            assoc::put(so_far, rec[n - 1].0, rec[n - 1].1)
        } else {
            so_far
        }
    }
}

/// The row with all that `RETURN *` gives: whole values and the fields that it shows.
pub open spec fn put_all_shown(p: Row, rec: Row) -> Row {
    put_shown(
        project::put_compounds(p, rec, binding::bound_vars(rec)),
        rec,
        binding::bound_vars(rec),
        rec.len() as int,
    )
}

/// Adds all that `RETURN *` gives.
fn add_all_shown(p: &mut NamedRecord, rec: &NamedRecord)
    ensures
        final(p)@ == put_all_shown(old(p)@, rec@),
{
    let vars = binding::compound_binding_vars(rec);
    project::add_compounds(p, rec, &vars);
    let ghost base = p@;
    let ghost vs = ast_model::texts(vars@);
    let mut i: usize = 0;
    while i < rec.fields.entries.len()
        invariant
            i <= rec@.len(),
            rec@.len() == rec.fields.entries@.len(),
            vs == ast_model::texts(vars@),
            p@ == put_shown(base, rec@, vs, i as int),
        decreases rec@.len() - i,
    {
        let key = &rec.fields.entries[i].0;
        assert(rec@[i as int] == (key@, rec.fields.entries@[i as int].1@));
        if is_shown(&vars, key.as_str()) {
            p.set(key.clone(), rec.fields.entries[i].1.dup());
        }
        i = i + 1;
    }
}

/// The row with the column of an expression: what the row holds under the column's name
/// already, or else the expression's value.
pub open spec fn put_held(p: Row, rec: Row, e: ExprView, col: Seq<char>, m: Model) -> Result<
    Row,
    ErrorView,
> {
    match assoc::lookup(rec, col) {
        Some(v) => Ok(assoc::put(p, col, v)),
        None => project::put_evaluated(p, rec, e, col, m),
    }
}

/// The row with the column of an expression.
fn add_held<S: Source>(
    db: &S,
    p: NamedRecord,
    rec: &NamedRecord,
    e: &Expr,
    col: String,
) -> (r: Result<NamedRecord, GraphError>)
    ensures
        source::steady(*db) ==> project::row_told(r) == put_held(
            p@,
            rec@,
            e@,
            col@,
            source::model(*db),
        ),
{
    match rec.get(col.as_str()) {
        Some(v) => {
            let mut p = p;
            p.set(col, v.dup());
            Ok(p)
        },
        None => project::add_evaluated(db, p, rec, e, col),
    }
}

/// The row with the columns of one item.
pub open spec fn put_item(p: Row, rec: Row, item: ReturnItemView, emit: bool, m: Model) -> Result<
    Row,
    ErrorView,
> {
    match item.expr.kind {
        ExprKindView::Star => Ok(
            if emit {
                put_all_shown(p, rec)
            } else {
                record::put_all(p, rec)
            },
        ),
        ExprKindView::Variable(var) => project::put_variable(
            p,
            rec,
            item.expr,
            var,
            match item.alias {
                Some(a) => a,
                None => var,
            },
            emit,
            m,
        ),
        _ => put_held(
            p,
            rec,
            item.expr,
            match item.alias {
                Some(a) => a,
                None => (m.column_name)(item.expr),
            },
            m,
        ),
    }
}

/// The row with the columns of one item.
fn add_item<S: Source>(
    db: &S,
    p: NamedRecord,
    rec: &NamedRecord,
    item: &ReturnItem,
    emit: bool,
) -> (r: Result<NamedRecord, GraphError>)
    ensures
        source::steady(*db) ==> project::row_told(r) == put_item(
            p@,
            rec@,
            item@,
            emit,
            source::model(*db),
        ),
{
    match &item.expr.kind {
        ExprKind::Star => {
            let mut p = p;
            if emit {
                add_all_shown(&mut p, rec);
            } else {
                p.set_all(&rec.fields.entries);
            }
            Ok(p)
        },
        ExprKind::Variable(var) => {
            let col = match &item.alias {
                Some(a) => a.clone(),
                None => var.clone(),
            };
            project::add_variable(db, p, rec, &item.expr, var.as_str(), col, emit)
        },
        _ => {
            let col = match &item.alias {
                Some(a) => a.clone(),
                None => source::ask_column_name(db, &item.expr),
            };
            add_held(db, p, rec, &item.expr, col)
        },
    }
}

/// The row of the columns that the items give.
pub open spec fn projected(rec: Row, items: Seq<ReturnItemView>, emit: bool, m: Model) -> Result<
    Row,
    ErrorView,
>
    decreases items.len(),
{
    if items.len() == 0 {
        Ok(Row::empty())
    } else {
        match projected(rec, items.drop_last(), emit, m) {
            Ok(p) => put_item(p, rec, items.last(), emit, m),
            Err(e) => Err(e),
        }
    }
}

/// The first item that fails decides.
proof fn lemma_projected_stops(
    rec: Row,
    items: Seq<ReturnItemView>,
    emit: bool,
    m: Model,
    i: int,
)
    requires
        0 <= i <= items.len(),
        projected(rec, items.take(i), emit, m) is Err,
    ensures
        projected(rec, items, emit, m) == projected(rec, items.take(i), emit, m),
    decreases items.len(),
{
    if i < items.len() {
        assert(items.drop_last().take(i) =~= items.take(i));
        lemma_projected_stops(rec, items.drop_last(), emit, m, i);
    } else {
        assert(items.take(i) =~= items);
    }
}

/// The row of the columns that the items give.
pub fn project_record<S: Source>(
    db: &S,
    rec: &NamedRecord,
    items: &Vec<ReturnItem>,
    emit: bool,
) -> (r: Result<NamedRecord, GraphError>)
    ensures
        source::steady(*db) ==> project::row_told(r) == projected(
            rec@,
            ast_model::return_items_view(items@),
            emit,
            source::model(*db),
        ),
{
    let ghost m = source::model(*db);
    let ghost s = ast_model::return_items_view(items@);
    let mut p = NamedRecord::new();
    let mut i: usize = 0;
    assert(s.take(0) =~= Seq::<ReturnItemView>::empty());
    while i < items.len()
        invariant
            i <= items.len(),
            m == source::model(*db),
            s == ast_model::return_items_view(items@),
            source::steady(*db) ==> projected(rec@, s.take(i as int), emit, m) == Ok::<
                Row,
                ErrorView,
            >(p@),
        decreases items.len() - i,
    {
        assert(s.take(i + 1).drop_last() =~= s.take(i as int));
        assert(s.take(i + 1).last() == items@[i as int]@);
        match add_item(db, p, rec, &items[i], emit) {
            Ok(next) => {
                p = next;
            },
            Err(e) => {
                proof {
                    if source::steady(*db) {
                        lemma_projected_stops(rec@, s, emit, m, i + 1);
                    }
                }
                return Err(e);
            },
        }
        i = i + 1;
    }
    assert(s.take(s.len() as int) =~= s);
    Ok(p)
}

/// One projected row.
pub open spec fn projected_one(rec: Row, items: Seq<ReturnItemView>, emit: bool, m: Model) -> Rows {
    match projected(rec, items, emit, m) {
        Ok(p) => Ok(seq![p]),
        Err(e) => Err(e),
    }
}

/// The item gives the same column whether rows are pulled or projected all at once: it is no
/// `*` at the end of a query, it reads nothing that was deleted, and what the row holds for it
/// already it holds under the column's name alone.
pub open spec fn plain_item(rec: Row, item: ReturnItemView, emit: bool, m: Model) -> bool {
    match item.expr.kind {
        ExprKindView::Star => !emit,
        ExprKindView::Variable(_) => true,
        _ => {
            let own = (m.column_name)(item.expr);
            let col = match item.alias {
                Some(a) => a,
                None => own,
            };
            &&& !project::reads_deleted(rec, item.expr)
            &&& project::precomputed(rec, item.expr, col, own) == assoc::lookup(rec, col)
        },
    }
}

/// Plain items give the same row whether rows are pulled or projected all at once.
pub proof fn plain_items_project_alike(rec: Row, items: Seq<ReturnItemView>, emit: bool, m: Model)
    requires
        forall|i: int| 0 <= i < items.len() ==> plain_item(rec, #[trigger] items[i], emit, m),
    ensures
        projected(rec, items, emit, m) == project::projected(rec, items, emit, m),
    decreases items.len(),
{
    if items.len() > 0 {
        assert forall|i: int| 0 <= i < items.drop_last().len() implies plain_item(
            rec,
            #[trigger] items.drop_last()[i],
            emit,
            m,
        ) by {
            assert(plain_item(rec, items[i], emit, m));
        }
        plain_items_project_alike(rec, items.drop_last(), emit, m);
        assert(plain_item(rec, items[items.len() - 1], emit, m));
    }
}

} // verus!
