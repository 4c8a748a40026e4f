//! Joins: rows made of two rows.
use super::flow;
use super::flow::{Outcome, Rows};
use super::read;
use crate::assoc;
use crate::ast::Expr;
use crate::ast_model;
use crate::ast_model::ExprView;
use crate::binding;
use crate::plan::ExecContext;
use crate::record;
use crate::record::{NamedRecord, Row};
use crate::source;
use crate::source::{Model, Source};
use crate::text;
use crate::types;
use crate::types::{ErrorCode, ErrorKind, ErrorView, GraphError, QueryPhase};
use crate::value::{Value, ValueView};
use vstd::prelude::*;

verus! {

/// Two rows as one. With `overlay` the fields of the second row win, without it those of the
/// first.
pub open spec fn combined(l: Row, r: Row, overlay: bool) -> Row {
    if overlay {
        record::put_all(l, r)
    } else {
        record::filled(l, r)
    }
}

/// Two rows as one; none where both belong to one MATCH and bind a relationship twice.
pub open spec fn paired(l: Row, r: Row, overlay: bool, same_match: bool) -> Rows {
    let c = combined(l, r, overlay);
    if same_match && binding::repeats(binding::edges_up_to(c, c.len() as int)) {
        Ok(Seq::empty())
    } else {
        Ok(seq![c])
    }
}

/// A row with each row of others.
pub open spec fn pairs(l: Row, rs: Seq<Row>, overlay: bool, same_match: bool) -> Rows {
    flow::each(rs, |r: Row| paired(l, r, overlay, same_match))
}

/// Two rows as one.
pub fn combine(l: &NamedRecord, r: &NamedRecord, overlay: bool) -> (c: NamedRecord)
    ensures
        c@ == combined(l@, r@, overlay),
{
    let mut c = l.dup();
    if overlay {
        c.set_all(&r.fields.entries);
    } else {
        c.fill(&r.fields.entries);
    }
    c
}

/// A row with each row of others.
pub fn pair_rows(l: &NamedRecord, rs: &Vec<NamedRecord>, overlay: bool, same_match: bool) -> (out: Vec<
    NamedRecord,
>)
    ensures
        pairs(l@, record::rows(rs@), overlay, same_match) == Ok::<Seq<Row>, ErrorView>(
            record::rows(out@),
        ),
{
    let ghost s = record::rows(rs@);
    let ghost g = |r: Row| paired(l@, r, overlay, same_match);
    let mut out: Vec<NamedRecord> = Vec::new();
    let mut i: usize = 0;
    assert(s.take(0) =~= Seq::<Row>::empty());
    assert(record::rows(out@) =~= Seq::<Row>::empty());
    while i < rs.len()
        invariant
            i <= rs.len(),
            s == record::rows(rs@),
            g == (|r: Row| paired(l@, r, overlay, same_match)),
            flow::each(s.take(i as int), g) == Ok::<Seq<Row>, ErrorView>(record::rows(out@)),
        decreases rs.len() - i,
    {
        proof {
            flow::lemma_each_step(s, g, i as int);
        }
        let c = combine(l, &rs[i], overlay);
        if same_match && binding::has_duplicate_relationships(&c) {
            assert(record::rows(out@) + Seq::<Row>::empty() =~= record::rows(out@));
        } else {
            flow::append_rows(&mut out, read::one_row(c));
        }
        i = i + 1;
    }
    assert(s.take(s.len() as int) =~= s);
    out
}

/// A cross product has more rows than the context allows.
pub open spec fn product_limit(rs: Seq<Row>, ctx: ExecContext) -> Rows {
    if ctx.max_result_rows > 0 && rs.len() > ctx.max_result_rows {
        Err(
            types::query_error(
                ErrorKind::Constraint,
                QueryPhase::Runtime,
                ErrorCode::Other,
                "cross product exceeded maximum of "@ + text::decimal(ctx.max_result_rows as nat)
                    + " rows"@,
                None,
                None,
            ),
        )
    } else {
        Ok(rs)
    }
}

/// Each row of the one side with each row of the other.
pub open spec fn product(ls: Seq<Row>, rs: Seq<Row>, same_match: bool) -> Rows {
    flow::each(ls, |l: Row| pairs(l, rs, true, same_match))
}

/// Each row of the one side with each row of the other, unless those are more than the context
/// allows. Where the one side is empty, it does not matter what the other gives.
pub open spec fn crossed(ls: Seq<Row>, rs: Rows, same_match: bool, ctx: ExecContext) -> Rows {
    if ls.len() == 0 {
        Ok(Seq::empty())
    } else {
        match rs {
            Ok(rs) => match product(ls, rs, same_match) {
                Ok(all) => product_limit(all, ctx),
                Err(e) => Err(e),
            },
            Err(e) => Err(e),
        }
    }
}

/// The product of a part of the rows is no longer than that of all.
proof fn lemma_product_grows(ls: Seq<Row>, rs: Seq<Row>, same_match: bool, i: int)
    requires
        0 <= i <= ls.len(),
        product(ls.take(i), rs, same_match) is Ok,
        forall|l: Row| (#[trigger] pairs(l, rs, true, same_match)) is Ok,
    ensures
        product(ls, rs, same_match) is Ok,
        product(ls, rs, same_match)->Ok_0.len() >= product(ls.take(i), rs, same_match)->Ok_0.len(),
    decreases ls.len(),
{
    if i < ls.len() {
        assert(ls.drop_last().take(i) =~= ls.take(i));
        lemma_product_grows(ls.drop_last(), rs, same_match, i);
        assert(pairs(ls.last(), rs, true, same_match) is Ok);
    } else {
        assert(ls.take(i) =~= ls);
    }
}

/// Pairs are always made.
proof fn lemma_pairs_ok(l: Row, rs: Seq<Row>, overlay: bool, same_match: bool)
    ensures
        pairs(l, rs, overlay, same_match) is Ok,
    decreases rs.len(),
{
    if rs.len() > 0 {
        lemma_pairs_ok(l, rs.drop_last(), overlay, same_match);
    }
}

/// Each row of the one side with each row of the other, unless those are more than the context
/// allows. No more rows are made than are needed to tell.
pub fn cross_rows(
    ls: &Vec<NamedRecord>,
    rs: &Vec<NamedRecord>,
    same_match: bool,
    ctx: &ExecContext,
) -> (r: Outcome)
    ensures
        flow::rows_told(r) == (match product(record::rows(ls@), record::rows(rs@), same_match) {
            Ok(all) => product_limit(all, *ctx),
            Err(e) => Err(e),
        }),
{
    let ghost s = record::rows(ls@);
    let ghost rv = record::rows(rs@);
    let ghost g = |l: Row| pairs(l, rv, true, same_match);
    let mut out: Vec<NamedRecord> = Vec::new();
    let mut i: usize = 0;
    assert(s.take(0) =~= Seq::<Row>::empty());
    assert(record::rows(out@) =~= Seq::<Row>::empty());
    while i < ls.len()
        invariant
            i <= ls.len(),
            s == record::rows(ls@),
            rv == record::rows(rs@),
            g == (|l: Row| pairs(l, rv, true, same_match)),
            flow::each(s.take(i as int), g) == Ok::<Seq<Row>, ErrorView>(record::rows(out@)),
            ctx.max_result_rows > 0 ==> out.len() <= ctx.max_result_rows,
        decreases ls.len() - i,
    {
        proof {
            flow::lemma_each_step(s, g, i as int);
        }
        let more = pair_rows(&ls[i], rs, true, same_match);
        flow::append_rows(&mut out, more);
        if ctx.max_result_rows > 0 && out.len() > ctx.max_result_rows {
            proof {
                assert forall|l: Row| (#[trigger] pairs(l, rv, true, same_match)) is Ok by {
                    lemma_pairs_ok(l, rv, true, same_match);
                }
                assert(product(s.take(i + 1), rv, same_match) == flow::each(s.take(i + 1), g));
                lemma_product_grows(s, rv, same_match, i + 1);
                assert(record::rows(out@).len() == out@.len());
            }
            return Err(
                GraphError::constraint(
                    ErrorCode::Other,
                    text::cat3(
                        "cross product exceeded maximum of ",
                        text::number(ctx.max_result_rows as u64).as_str(),
                        " rows",
                    ),
                ),
            );
        }
        i = i + 1;
    }
    assert(s.take(s.len() as int) =~= s);
    assert(record::rows(out@).len() == out@.len());
    Ok(out)
}

/// The row with a variable and its fields null.
pub open spec fn nulled(rec: Row, var: Seq<char>) -> Row {
    let a = assoc::put(rec, var, ValueView::Null);
    let b = assoc::put(a, text::dotted(var, "__id"@), ValueView::Null);
    let c = assoc::put(b, text::dotted(var, "__labels"@), ValueView::Null);
    let d = assoc::put(c, text::dotted(var, "__src"@), ValueView::Null);
    let e = assoc::put(d, text::dotted(var, "__dst"@), ValueView::Null);
    assoc::put(e, text::dotted(var, "__type"@), ValueView::Null)
}

/// The row with the variables and their fields null.
pub open spec fn all_nulled(rec: Row, vars: Seq<Seq<char>>) -> Row
    decreases vars.len(),
{
    if vars.len() == 0 {
        rec
    } else {
        nulled(all_nulled(rec, vars.drop_last()), vars.last())
    }
}

/// The row with the variables and their fields null.
pub fn null_row(rec: &NamedRecord, vars: &Vec<String>) -> (r: NamedRecord)
    ensures
        r@ == all_nulled(rec@, ast_model::texts(vars@)),
{
    let ghost s = ast_model::texts(vars@);
    let mut out = rec.dup();
    let mut i: usize = 0;
    assert(s.take(0) =~= Seq::<Seq<char>>::empty());
    while i < vars.len()
        invariant
            i <= vars.len(),
            s == ast_model::texts(vars@),
            out@ == all_nulled(rec@, s.take(i as int)),
        decreases vars.len() - i,
    {
        assert(s.take(i + 1).drop_last() =~= s.take(i as int));
        assert(s.take(i + 1).last() == vars@[i as int]@);
        let var = vars[i].as_str();
        out.set(text::owned(var), Value::Null);
        out.set(text::field(var, "__id"), Value::Null);
        out.set(text::field(var, "__labels"), Value::Null);
        out.set(text::field(var, "__src"), Value::Null);
        out.set(text::field(var, "__dst"), Value::Null);
        out.set(text::field(var, "__type"), Value::Null);
        i = i + 1;
    }
    assert(s.take(s.len() as int) =~= s);
    out
}

/// A row with those of the others on which the condition holds; with nulls where there is none.
pub open spec fn outer_joined(
    l: Row,
    rs: Seq<Row>,
    vars: Seq<Seq<char>>,
    condition: Option<ExprView>,
    m: Model,
) -> Rows {
    match flow::each(rs, |r: Row| read::kept_if(record::filled(l, r), condition, m)) {
        Ok(out) => Ok(
            if out.len() == 0 {
                seq![all_nulled(l, vars)]
            } else {
                out
            },
        ),
        Err(e) => Err(e),
    }
}

/// A row with those of the others on which the condition holds; with nulls where there is none.
pub fn outer_join<S: Source>(
    db: &S,
    l: &NamedRecord,
    rs: &Vec<NamedRecord>,
    vars: &Vec<String>,
    condition: &Option<Expr>,
) -> (r: Outcome)
    ensures
        source::steady(*db) ==> flow::rows_told(r) == outer_joined(
            l@,
            record::rows(rs@),
            ast_model::texts(vars@),
            ast_model::opt_expr_view(*condition),
            source::model(*db),
        ),
{
    let ghost m = source::model(*db);
    let ghost (lv, c) = (l@, ast_model::opt_expr_view(*condition));
    assert(flow::viewed(rs@) =~= record::rows(rs@));
    let f = |r: &NamedRecord| -> (o: Outcome)
        ensures
            source::steady(*db) ==> flow::rows_told(o) == read::kept_if(
                record::filled(l@, r@),
                ast_model::opt_expr_view(*condition),
                source::model(*db),
            ),
        { read::keep_if(db, combine(l, r, false), condition) };
    match flow::gather(
        rs,
        f,
        Ghost(|r: Row| read::kept_if(record::filled(lv, r), c, m)),
        Ghost(source::steady(*db)),
    ) {
        Ok(out) => {
            assert(record::rows(out@).len() == out@.len());
            if out.len() == 0 {
                Ok(read::one_row(null_row(l, vars)))
            } else {
                Ok(out)
            }
        },
        Err(e) => Err(e),
    }
}

/// An outer join drops no row: each row of the left side gives at least one.
pub proof fn outer_join_keeps_rows(
    l: Row,
    rs: Seq<Row>,
    vars: Seq<Seq<char>>,
    condition: Option<ExprView>,
    m: Model,
)
    requires
        outer_joined(l, rs, vars, condition, m) is Ok,
    ensures
        outer_joined(l, rs, vars, condition, m)->Ok_0.len() > 0,
{
}

} // verus!
