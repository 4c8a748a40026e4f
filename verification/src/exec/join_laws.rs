//! What joins make of the rows of their two sides.
use super::flow;
use super::flow_laws;
use super::join;
use super::read;
use super::run;
use crate::assoc;
use crate::ast_model;
use crate::ast_model::ExprView;
use crate::binding;
use crate::plan::{ExecContext, LogicalOp};
use crate::record;
use crate::record::Row;
use crate::row_laws;
use crate::source::Model;
use crate::text;
use crate::types::ErrorView;
use crate::value::ValueView;
use vstd::prelude::*;

verus! {

/// The row reads as `first` where that binds a name, and as `second` where it does not.
pub open spec fn reads_first(row: Row, first: Row, second: Row) -> bool {
    forall|k: Seq<char>| #[trigger]
        assoc::lookup(row, k) == (if assoc::lookup(first, k) is Some {
            assoc::lookup(first, k)
        } else {
            assoc::lookup(second, k)
        })
}

/// A row filled up from another reads as itself first.
proof fn lemma_filled_reads(l: Row, r: Row)
    ensures
        reads_first(record::filled(l, r), l, r),
{
    assert forall|k: Seq<char>| #[trigger]
        assoc::lookup(record::filled(l, r), k) == (if assoc::lookup(l, k) is Some {
            assoc::lookup(l, k)
        } else {
            assoc::lookup(r, k)
        }) by {
        row_laws::filling_keeps_and_adds(l, r, k);
    }
}

/// A row that another is laid over reads as the other first.
proof fn lemma_laid_over_reads(l: Row, r: Row)
    requires
        assoc::distinct(assoc::keys(r)),
    ensures
        reads_first(record::put_all(l, r), r, l),
{
    assert forall|k: Seq<char>| #[trigger]
        assoc::lookup(record::put_all(l, r), k) == (if assoc::lookup(r, k) is Some {
            assoc::lookup(r, k)
        } else {
            assoc::lookup(l, k)
        }) by {
        row_laws::overlaying_takes_and_keeps(l, r, k);
    }
}

/// The condition holds on a row, or there is none.
pub open spec fn passes(row: Row, condition: Option<ExprView>, m: Model) -> bool {
    match condition {
        Some(c) => (m.holds)(c, row) == Ok::<bool, ErrorView>(true),
        None => true,
    }
}

/// The name belongs to one of the variables: it is the variable, or one of the fields that tell
/// what the variable is bound to.
pub open spec fn tells_of(vars: Seq<Seq<char>>, k: Seq<char>) -> bool {
    exists|i: int| 0 <= i < vars.len() && tells_of_one(#[trigger] vars[i], k)
}

/// The name is the variable, or one of the fields that tell what the variable is bound to.
pub open spec fn tells_of_one(var: Seq<char>, k: Seq<char>) -> bool {
    ||| k == var
    ||| k == var + "."@ + "__id"@
    ||| k == var + "."@ + "__labels"@
    ||| k == var + "."@ + "__src"@
    ||| k == var + "."@ + "__dst"@
    ||| k == var + "."@ + "__type"@
}

/// Reading after one variable was set to null.
proof fn lemma_nulled_reads(rec: Row, var: Seq<char>, k: Seq<char>)
    ensures
        assoc::lookup(join::nulled(rec, var), k) == (if tells_of_one(var, k) {
            Some(ValueView::Null)
        } else {
            assoc::lookup(rec, k)
        }),
{
    let a = assoc::put(rec, var, ValueView::Null);
    let b = assoc::put(a, text::dotted(var, "__id"@), ValueView::Null);
    let c = assoc::put(b, text::dotted(var, "__labels"@), ValueView::Null);
    let d = assoc::put(c, text::dotted(var, "__src"@), ValueView::Null);
    let e = assoc::put(d, text::dotted(var, "__dst"@), ValueView::Null);
    assoc::lemma_lookup_put(rec, var, ValueView::Null, k);
    assoc::lemma_lookup_put(a, text::dotted(var, "__id"@), ValueView::Null, k);
    assoc::lemma_lookup_put(b, text::dotted(var, "__labels"@), ValueView::Null, k);
    assoc::lemma_lookup_put(c, text::dotted(var, "__src"@), ValueView::Null, k);
    assoc::lemma_lookup_put(d, text::dotted(var, "__dst"@), ValueView::Null, k);
    assoc::lemma_lookup_put(e, text::dotted(var, "__type"@), ValueView::Null, k);
}

/// A null row has null for each of the variables and for what would tell of them, and all else
/// as it was.
pub proof fn a_null_row_has_nulls_for_the_variables(rec: Row, vars: Seq<Seq<char>>, k: Seq<char>)
    ensures
        assoc::lookup(join::all_nulled(rec, vars), k) == (if tells_of(vars, k) {
            Some(ValueView::Null)
        } else {
            assoc::lookup(rec, k)
        }),
    decreases vars.len(),
{
    if vars.len() > 0 {
        let t = vars.drop_last();
        a_null_row_has_nulls_for_the_variables(rec, t, k);
        lemma_nulled_reads(join::all_nulled(rec, t), vars.last(), k);
        let n = vars.len() - 1;
        assert(vars[n] == vars.last());
        if tells_of(t, k) {
            let i = choose|i: int| 0 <= i < t.len() && tells_of_one(#[trigger] t[i], k);
            assert(tells_of_one(vars[i], k));
        }
        if tells_of(vars, k) && !tells_of_one(vars[n], k) {
            let i = choose|i: int| 0 <= i < vars.len() && tells_of_one(#[trigger] vars[i], k);
            assert(tells_of_one(t[i], k));
        }
    }
}

/// The rows are those of an outer join of a row with others: for each of the others on which the
/// condition holds, in their order, the two as one row; and where there is none, one row with
/// null for each of the variables.
pub open spec fn outer_rows(
    l: Row,
    rs: Seq<Row>,
    vars: Seq<Seq<char>>,
    condition: Option<ExprView>,
    m: Model,
    out: Seq<Row>,
) -> bool {
    let fit = rs.filter(|r: Row| passes(record::filled(l, r), condition, m));
    if fit.len() > 0 {
        out.len() == fit.len() && forall|i: int|
            0 <= i < fit.len() ==> reads_first(#[trigger] out[i], l, fit[i])
    } else {
        out.len() == 1 && forall|k: Seq<char>| #[trigger]
            assoc::lookup(out[0], k) == (if tells_of(vars, k) {
                Some(ValueView::Null)
            } else {
                assoc::lookup(l, k)
            })
    }
}

/// An outer join gives as many rows as there are rows of the other side on which the condition
/// holds, each the combination of the two, the fields of the left row first. Only where there is
/// none does it give the one null row.
pub proof fn an_outer_join_keeps_every_match(
    l: Row,
    rs: Seq<Row>,
    vars: Seq<Seq<char>>,
    condition: Option<ExprView>,
    m: Model,
)
    requires
        join::outer_joined(l, rs, vars, condition, m) is Ok,
    ensures
        outer_rows(
            l,
            rs,
            vars,
            condition,
            m,
            join::outer_joined(l, rs, vars, condition, m)->Ok_0,
        ),
{
    let f = |r: Row| read::kept_if(record::filled(l, r), condition, m);
    let p = |r: Row| passes(record::filled(l, r), condition, m);
    let g = |r: Row| record::filled(l, r);
    let out = join::outer_joined(l, rs, vars, condition, m)->Ok_0;
    assert forall|i: int| 0 <= i < rs.len() implies f(#[trigger] rs[i]) == Ok::<
        Seq<Row>,
        ErrorView,
    >(
        if p(rs[i]) {
            seq![g(rs[i])]
        } else {
            Seq::empty()
        },
    ) by {
        flow_laws::nothing_given_is_lost(rs, f, i);
    }
    flow_laws::one_or_none_is_a_selection(rs, f, p, g);
    let fit = rs.filter(p);
    if fit.len() > 0 {
        assert(out == fit.map_values(g));
        assert forall|i: int| 0 <= i < fit.len() implies reads_first(#[trigger] out[i], l, fit[i]) by {
            lemma_filled_reads(l, fit[i]);
        }
    } else {
        assert(out == seq![join::all_nulled(l, vars)]);
        assert forall|k: Seq<char>| #[trigger]
            assoc::lookup(out[0], k) == (if tells_of(vars, k) {
                Some(ValueView::Null)
            } else {
                assoc::lookup(l, k)
            }) by {
            a_null_row_has_nulls_for_the_variables(l, vars, k);
        }
    }
}

/// For each row of the other side on which the condition holds, the combination of the two is
/// among the rows of an outer join.
pub proof fn each_match_is_among_the_rows(
    l: Row,
    rs: Seq<Row>,
    vars: Seq<Seq<char>>,
    condition: Option<ExprView>,
    m: Model,
    i: int,
)
    requires
        join::outer_joined(l, rs, vars, condition, m) is Ok,
        0 <= i < rs.len(),
        passes(record::filled(l, rs[i]), condition, m),
    ensures
        exists|row: Row| #[trigger]
            join::outer_joined(l, rs, vars, condition, m)->Ok_0.contains(row) && reads_first(
                row,
                l,
                rs[i],
            ),
{
    let f = |r: Row| read::kept_if(record::filled(l, r), condition, m);
    let c = record::filled(l, rs[i]);
    flow_laws::nothing_given_is_lost(rs, f, i);
    assert(f(rs[i])->Ok_0[0] == c);
    assert(f(rs[i])->Ok_0.contains(c));
    lemma_filled_reads(l, rs[i]);
}

/// The row binds a variable to a relationship: its start, its end, its type and its number,
/// which is zero where none is noted.
pub open spec fn names_relationship(
    row: Row,
    var: Seq<char>,
    s: i64,
    d: i64,
    t: Seq<char>,
    n: u64,
) -> bool {
    &&& assoc::lookup(row, var + "."@ + "__src"@) == Some(ValueView::I64(s))
    &&& assoc::lookup(row, var + "."@ + "__dst"@) == Some(ValueView::I64(d))
    &&& assoc::lookup(row, var + "."@ + "__type"@) == Some(ValueView::String(t))
    &&& match assoc::lookup(row, var + "."@ + "__edge_seq"@) {
        Some(ValueView::I64(q)) => n == q as u64,
        _ => n == 0,
    }
}

/// A relationship found at a field is among those of the row.
proof fn lemma_edge_among(row: Row, i: int, n: int)
    requires
        0 <= i < n,
        binding::edge_at(row, i) is Some,
    ensures
        binding::edges_up_to(row, n).contains(binding::edge_at(row, i)->0),
    decreases n,
{
    let k = binding::edge_at(row, i)->0;
    let e = binding::edges_up_to(row, n);
    if i == n - 1 {
        assert(e[e.len() - 1] == k);
    } else {
        lemma_edge_among(row, i, n - 1);
        let s = binding::edges_up_to(row, n - 1);
        let p = choose|p: int| 0 <= p < s.len() && s[p] == k;
        assert(e[p] == k);
    }
}

/// One relationship at two fields is a repetition.
proof fn lemma_edge_twice(row: Row, i: int, j: int, n: int)
    requires
        0 <= i < j < n,
        binding::edge_at(row, i) is Some,
        binding::edge_at(row, i) == binding::edge_at(row, j),
    ensures
        binding::repeats(binding::edges_up_to(row, n)),
    decreases n,
{
    let k = binding::edge_at(row, i)->0;
    let e = binding::edges_up_to(row, n);
    let s = binding::edges_up_to(row, n - 1);
    if j == n - 1 {
        lemma_edge_among(row, i, n - 1);
        let p = choose|p: int| 0 <= p < s.len() && s[p] == k;
        assert(e[p] == e[e.len() - 1]);
    } else {
        lemma_edge_twice(row, i, j, n - 1);
        let (p, q) = choose|p: int, q: int| 0 <= p < q < s.len() && #[trigger] s[p] == #[trigger] s[q];
        assert(e[p] == e[q]);
    }
}

/// Where a relationship stands among those of a row, a field has it.
proof fn lemma_edge_has_field(row: Row, n: int, p: int) -> (i: int)
    requires
        0 <= p < binding::edges_up_to(row, n).len(),
    ensures
        0 <= i < n,
        binding::edge_at(row, i) == Some(binding::edges_up_to(row, n)[p]),
    decreases n,
{
    let s = binding::edges_up_to(row, n - 1);
    if p < s.len() {
        lemma_edge_has_field(row, n - 1, p)
    } else {
        n - 1
    }
}

/// A repetition is one relationship at two fields.
proof fn lemma_repetition_has_fields(row: Row, n: int) -> (r: (int, int))
    requires
        binding::repeats(binding::edges_up_to(row, n)),
    ensures
        0 <= r.0 < r.1 < n,
        binding::edge_at(row, r.0) is Some,
        binding::edge_at(row, r.0) == binding::edge_at(row, r.1),
    decreases n,
{
    let e = binding::edges_up_to(row, n);
    let (p, q) = choose|p: int, q: int| 0 <= p < q < e.len() && #[trigger] e[p] == #[trigger] e[q];
    let s = binding::edges_up_to(row, n - 1);
    if q < s.len() {
        assert(s[p] == s[q]);
        lemma_repetition_has_fields(row, n - 1)
    } else {
        assert(s[p] == e[p]);
        let i = lemma_edge_has_field(row, n - 1, p);
        (i, n - 1)
    }
}

/// The field with the start of a relationship.
proof fn lemma_start_field(row: Row, var: Seq<char>, s: i64, d: i64, t: Seq<char>, n: u64) -> (i: int)
    requires
        names_relationship(row, var, s, d, t, n),
    ensures
        0 <= i < row.len(),
        row[i].0 == var + "."@ + "__src"@,
        binding::edge_at(row, i) == Some(binding::edge_key(s, d, t, n)),
{
    let k = var + "."@ + "__src"@;
    row_laws::only_bound_names_read(row, k);
    let i = choose|i: int| 0 <= i < row.len() && row[i] == (k, ValueView::I64(s));
    reveal_strlit(".__src");
    reveal_strlit(".");
    reveal_strlit("__src");
    assert(k.skip(k.len() - ".__src"@.len()) =~= ".__src"@);
    assert(k.take(k.len() - ".__src"@.len()) =~= var);
    i
}

/// Two variables that are bound to one relationship, whichever way round, are seen to repeat it.
pub proof fn a_relationship_bound_twice_is_seen(
    row: Row,
    a: Seq<char>,
    b: Seq<char>,
    s: i64,
    d: i64,
    t: Seq<char>,
    n: u64,
)
    requires
        a != b,
        names_relationship(row, a, s, d, t, n),
        names_relationship(row, b, s, d, t, n) || names_relationship(row, b, d, s, t, n),
    ensures
        binding::repeats(binding::edges_up_to(row, row.len() as int)),
{
    let i = lemma_start_field(row, a, s, d, t, n);
    let j = if names_relationship(row, b, s, d, t, n) {
        lemma_start_field(row, b, s, d, t, n)
    } else {
        lemma_start_field(row, b, d, s, t, n)
    };
    reveal_strlit(".");
    reveal_strlit("__src");
    let ka = a + "."@ + "__src"@;
    let kb = b + "."@ + "__src"@;
    if ka == kb {
        assert(ka.take(ka.len() - 6) =~= a);
        assert(kb.take(kb.len() - 6) =~= b);
    }
    if i < j {
        lemma_edge_twice(row, i, j, row.len() as int);
    } else {
        lemma_edge_twice(row, j, i, row.len() as int);
    }
}

/// Two variables are bound to one relationship, whichever way round.
pub open spec fn names_it_twice(
    row: Row,
    a: Seq<char>,
    b: Seq<char>,
    s: i64,
    d: i64,
    t: Seq<char>,
    n: u64,
) -> bool {
    a != b && names_relationship(row, a, s, d, t, n) && (names_relationship(row, b, s, d, t, n)
        || names_relationship(row, b, d, s, t, n))
}

/// Where relationships are seen to repeat, two variables are bound to one, whichever way round.
/// No name occurs twice in the row.
pub proof fn a_repetition_is_of_one_relationship(row: Row)
    requires
        assoc::distinct(assoc::keys(row)),
        binding::repeats(binding::edges_up_to(row, row.len() as int)),
    ensures
        exists|a: Seq<char>, b: Seq<char>, s: i64, d: i64, t: Seq<char>, n: u64|
            names_it_twice(row, a, b, s, d, t, n),
{
    let (i, j) = lemma_repetition_has_fields(row, row.len() as int);
    reveal_strlit(".__src");
    reveal_strlit(".");
    reveal_strlit("__src");
    let ki = row[i].0;
    let kj = row[j].0;
    assert(assoc::keys(row)[i] != assoc::keys(row)[j]);
    let a = ki.take(ki.len() - ".__src"@.len());
    let b = kj.take(kj.len() - ".__src"@.len());
    assert(ki =~= a + ki.skip(ki.len() - ".__src"@.len()));
    assert(kj =~= b + kj.skip(kj.len() - ".__src"@.len()));
    assert(a != b);
    let (s, d, t) = binding::edge_ends(row, a)->0;
    let (x, y, u) = binding::edge_ends(row, b)->0;
    let n = match binding::edge_number(row, a) {
        Some(n) => n,
        None => 0,
    };
    assert(names_relationship(row, a, s, d, t, n));
    assert(names_relationship(row, b, x, y, u, n));
    assert((x == s && y == d) || (x == d && y == s));
    assert(names_it_twice(row, a, b, s, d, t, n));
}

/// The two rows may stand together: they are not of one MATCH, or bind no relationship twice.
pub open spec fn may_pair(l: Row, r: Row, overlay: bool, same_match: bool) -> bool {
    let c = join::combined(l, r, overlay);
    !same_match || !binding::repeats(binding::edges_up_to(c, c.len() as int))
}

/// Pairing a row with others gives a row for each that may stand with it, in their order: the
/// two as one row, the left one's fields first or, laid over, the right one's first.
pub proof fn each_pair_gives_a_row(l: Row, rs: Seq<Row>, overlay: bool, same_match: bool)
    requires
        overlay ==> forall|i: int|
            0 <= i < rs.len() ==> assoc::distinct(assoc::keys(#[trigger] rs[i])),
    ensures
        ({
            let fit = rs.filter(|r: Row| may_pair(l, r, overlay, same_match));
            let out = join::pairs(l, rs, overlay, same_match);
            &&& out is Ok
            &&& out->Ok_0.len() == fit.len()
            &&& forall|i: int|
                0 <= i < fit.len() ==> if overlay {
                    reads_first(#[trigger] out->Ok_0[i], fit[i], l)
                } else {
                    reads_first(out->Ok_0[i], l, fit[i])
                }
        }),
{
    let f = |r: Row| join::paired(l, r, overlay, same_match);
    let p = |r: Row| may_pair(l, r, overlay, same_match);
    let g = |r: Row| join::combined(l, r, overlay);
    flow_laws::one_or_none_is_a_selection(rs, f, p, g);
    let fit = rs.filter(p);
    let out = join::pairs(l, rs, overlay, same_match)->Ok_0;
    assert(out == fit.map_values(g));
    assert forall|i: int| 0 <= i < fit.len() implies if overlay {
        reads_first(#[trigger] out[i], fit[i], l)
    } else {
        reads_first(out[i], l, fit[i])
    } by {
        if overlay {
            rs.lemma_filter_contains_rev(p, fit[i]);
            let j = choose|j: int| 0 <= j < rs.len() && rs[j] == fit[i];
            assert(assoc::distinct(assoc::keys(rs[j])));
            lemma_laid_over_reads(l, fit[i]);
        } else {
            lemma_filled_reads(l, fit[i]);
        }
    }
}

/// Rows of several parts, one part after the other.
pub open spec fn strung(parts: Seq<Seq<Row>>) -> Seq<Row>
    decreases parts.len(),
{
    if parts.len() == 0 {
        Seq::empty()
    } else {
        strung(parts.drop_last()) + parts.last()
    }
}

/// The operator joins two sides.
pub open spec fn is_join(op: LogicalOp) -> bool {
    op is CrossProduct || op is CorrelatedJoin || op is LeftOuterJoin
}

/// The part that each left row gives.
proof fn lemma_parts(
    op: LogicalOp,
    ls: Seq<Row>,
    outer: Option<Row>,
    ctx: ExecContext,
    m: Model,
) -> (parts: Seq<Seq<Row>>)
    requires
        is_join(op),
        run::joined(op, ls, outer, ctx, m) is Ok,
    ensures
        parts.len() == ls.len(),
        run::joined(op, ls, outer, ctx, m)->Ok_0 == strung(parts),
        forall|i: int|
            0 <= i < ls.len() ==> run::joined_one(op, ls[i], outer, ctx, m) == Ok::<
                Seq<Row>,
                ErrorView,
            >(#[trigger] parts[i]),
    decreases ls.len(),
{
    if ls.len() == 0 {
        Seq::empty()
    } else {
        let t = ls.drop_last();
        let done = lemma_parts(op, t, outer, ctx, m);
        let more = run::joined_one(op, ls.last(), outer, ctx, m)->Ok_0;
        let parts = done.push(more);
        assert(parts.drop_last() =~= done);
        assert forall|i: int| 0 <= i < ls.len() implies run::joined_one(op, ls[i], outer, ctx, m)
            == Ok::<Seq<Row>, ErrorView>(#[trigger] parts[i]) by {
            if i < t.len() {
                assert(parts[i] == done[i]);
                assert(t[i] == ls[i]);
            }
        }
        parts
    }
}

/// A join that runs its right side for each left row gives what the parts are together.
proof fn lemma_joined_rows(op: LogicalOp, input: LogicalOp, ctx: ExecContext, m: Model)
    requires
        (op is LeftOuterJoin && input == *op->LeftOuterJoin_input) || (op is CorrelatedJoin
            && input == *op->CorrelatedJoin_input),
        run::rows_of(op, ctx, m) is Ok,
    ensures
        run::rows_of(input, ctx, m) is Ok,
        run::joined(op, run::rows_of(input, ctx, m)->Ok_0, None, ctx, m) == run::rows_of(
            op,
            ctx,
            m,
        ),
{
}

/// What an outer join gives for one left row.
proof fn lemma_one_outer_joined(op: LogicalOp, l: Row, ctx: ExecContext, m: Model)
    requires
        op is LeftOuterJoin,
        run::joined_one(op, l, None, ctx, m) is Ok,
    ensures
        run::inner_rows_of(*op->LeftOuterJoin_right, l, ctx, m) is Ok,
        run::joined_one(op, l, None, ctx, m) == join::outer_joined(
            l,
            run::inner_rows_of(*op->LeftOuterJoin_right, l, ctx, m)->Ok_0,
            ast_model::texts(op->LeftOuterJoin_optional_aliases@),
            ast_model::opt_expr_view(op->LeftOuterJoin_opt_filter),
            m,
        ),
{
}

/// What a correlated join gives for one left row.
proof fn lemma_one_correlated(op: LogicalOp, l: Row, ctx: ExecContext, m: Model)
    requires
        op is CorrelatedJoin,
        run::joined_one(op, l, None, ctx, m) is Ok,
    ensures
        run::inner_rows_of(*op->CorrelatedJoin_right, l, ctx, m) is Ok,
        run::joined_one(op, l, None, ctx, m) == join::pairs(
            l,
            run::inner_rows_of(*op->CorrelatedJoin_right, l, ctx, m)->Ok_0,
            false,
            op->CorrelatedJoin_same_match,
        ),
{
}

/// The part that a left row gives in an outer join: the right side runs with the left row in
/// sight, and the two are joined.
pub open spec fn outer_part(op: LogicalOp, l: Row, ctx: ExecContext, m: Model, part: Seq<Row>) -> bool {
    let rs = run::inner_rows_of(*op->LeftOuterJoin_right, l, ctx, m);
    rs is Ok && outer_rows(
        l,
        rs->Ok_0,
        ast_model::texts(op->LeftOuterJoin_optional_aliases@),
        ast_model::opt_expr_view(op->LeftOuterJoin_opt_filter),
        m,
        part,
    )
}

/// An outer join of a plan runs its right side for each row of its left side, with that row in
/// sight, and gives for each left row, in turn, the rows of the outer join of the two.
pub proof fn a_plan_outer_joins_as_it_says(op: LogicalOp, ctx: ExecContext, m: Model) -> (parts:
    Seq<Seq<Row>>)
    requires
        op is LeftOuterJoin,
        run::rows_of(op, ctx, m) is Ok,
    ensures
        run::rows_of(*op->LeftOuterJoin_input, ctx, m) is Ok,
        parts.len() == run::rows_of(*op->LeftOuterJoin_input, ctx, m)->Ok_0.len(),
        run::rows_of(op, ctx, m)->Ok_0 == strung(parts),
        forall|i: int|
            0 <= i < parts.len() ==> outer_part(
                op,
                run::rows_of(*op->LeftOuterJoin_input, ctx, m)->Ok_0[i],
                ctx,
                m,
                #[trigger] parts[i],
            ),
{
    lemma_joined_rows(op, *op->LeftOuterJoin_input, ctx, m);
    let ls = run::rows_of(*op->LeftOuterJoin_input, ctx, m)->Ok_0;
    let parts = lemma_parts(op, ls, None, ctx, m);
    assert forall|i: int| 0 <= i < parts.len() implies outer_part(
        op,
        ls[i],
        ctx,
        m,
        #[trigger] parts[i],
    ) by {
        let l = ls[i];
        assert(run::joined_one(op, ls[i], None, ctx, m) == Ok::<Seq<Row>, ErrorView>(parts[i]));
        lemma_one_outer_joined(op, l, ctx, m);
        an_outer_join_keeps_every_match(
            l,
            run::inner_rows_of(*op->LeftOuterJoin_right, l, ctx, m)->Ok_0,
            ast_model::texts(op->LeftOuterJoin_optional_aliases@),
            ast_model::opt_expr_view(op->LeftOuterJoin_opt_filter),
            m,
        );
    }
    parts
}

/// The part that a left row gives in a correlated join: the right side runs with the left row in
/// sight, and each of its rows that may stand with the left row is paired with it, the left
/// row's fields first.
pub open spec fn correlated_part(op: LogicalOp, l: Row, ctx: ExecContext, m: Model, part: Seq<Row>) -> bool {
    let rs = run::inner_rows_of(*op->CorrelatedJoin_right, l, ctx, m);
    let fit = rs->Ok_0.filter(|r: Row| may_pair(l, r, false, op->CorrelatedJoin_same_match));
    rs is Ok && part.len() == fit.len() && forall|i: int|
        0 <= i < fit.len() ==> reads_first(#[trigger] part[i], l, fit[i])
}

/// A correlated join of a plan runs its right side for each row of its left side, with that row
/// in sight, and gives each pair of the two that may stand together.
pub proof fn a_plan_correlates_as_it_says(op: LogicalOp, ctx: ExecContext, m: Model) -> (parts: Seq<
    Seq<Row>,
>)
    requires
        op is CorrelatedJoin,
        run::rows_of(op, ctx, m) is Ok,
    ensures
        run::rows_of(*op->CorrelatedJoin_input, ctx, m) is Ok,
        parts.len() == run::rows_of(*op->CorrelatedJoin_input, ctx, m)->Ok_0.len(),
        run::rows_of(op, ctx, m)->Ok_0 == strung(parts),
        forall|i: int|
            0 <= i < parts.len() ==> correlated_part(
                op,
                run::rows_of(*op->CorrelatedJoin_input, ctx, m)->Ok_0[i],
                ctx,
                m,
                #[trigger] parts[i],
            ),
{
    lemma_joined_rows(op, *op->CorrelatedJoin_input, ctx, m);
    let ls = run::rows_of(*op->CorrelatedJoin_input, ctx, m)->Ok_0;
    let parts = lemma_parts(op, ls, None, ctx, m);
    assert forall|i: int| 0 <= i < parts.len() implies correlated_part(
        op,
        ls[i],
        ctx,
        m,
        #[trigger] parts[i],
    ) by {
        let l = ls[i];
        assert(run::joined_one(op, ls[i], None, ctx, m) == Ok::<Seq<Row>, ErrorView>(parts[i]));
        lemma_one_correlated(op, l, ctx, m);
        each_pair_gives_a_row(
            l,
            run::inner_rows_of(*op->CorrelatedJoin_right, l, ctx, m)->Ok_0,
            false,
            op->CorrelatedJoin_same_match,
        );
    }
    parts
}

/// The rows that each left row gives in a product.
proof fn lemma_product_parts(ls: Seq<Row>, rs: Seq<Row>, same_match: bool) -> (parts: Seq<Seq<Row>>)
    requires
        join::product(ls, rs, same_match) is Ok,
    ensures
        parts.len() == ls.len(),
        join::product(ls, rs, same_match)->Ok_0 == strung(parts),
        forall|i: int|
            0 <= i < ls.len() ==> join::pairs(ls[i], rs, true, same_match) == Ok::<
                Seq<Row>,
                ErrorView,
            >(#[trigger] parts[i]),
    decreases ls.len(),
{
    if ls.len() == 0 {
        Seq::empty()
    } else {
        let t = ls.drop_last();
        let done = lemma_product_parts(t, rs, same_match);
        let more = join::pairs(ls.last(), rs, true, same_match)->Ok_0;
        let parts = done.push(more);
        assert(parts.drop_last() =~= done);
        assert forall|i: int| 0 <= i < ls.len() implies join::pairs(ls[i], rs, true, same_match)
            == Ok::<Seq<Row>, ErrorView>(#[trigger] parts[i]) by {
            if i < t.len() {
                assert(parts[i] == done[i]);
                assert(t[i] == ls[i]);
            }
        }
        parts
    }
}

/// The rows are those of laying others over a row, one by one.
pub open spec fn laid_rows(l: Row, rs: Seq<Row>, same_match: bool, out: Seq<Row>) -> bool {
    let fit = rs.filter(|r: Row| may_pair(l, r, true, same_match));
    out.len() == fit.len() && forall|i: int|
        0 <= i < fit.len() ==> reads_first(#[trigger] out[i], fit[i], l)
}

/// A cross product of a plan gives each row of the left side with each row of the right side
/// that may stand with it, left rows in turn.
pub proof fn a_plan_multiplies_as_it_says(op: LogicalOp, ctx: ExecContext, m: Model)
    requires
        op is CrossProduct,
        run::rows_of(op, ctx, m) is Ok,
        run::rows_of(*op->CrossProduct_left, ctx, m) is Ok,
        run::rows_of(*op->CrossProduct_left, ctx, m)->Ok_0.len() > 0,
        run::rows_of(*op->CrossProduct_right, ctx, m) matches Ok(rs) ==> forall|i: int|
            0 <= i < rs.len() ==> assoc::distinct(assoc::keys(#[trigger] rs[i])),
    ensures
        ({
            let ls = run::rows_of(*op->CrossProduct_left, ctx, m)->Ok_0;
            let rs = run::rows_of(*op->CrossProduct_right, ctx, m);
            &&& rs is Ok
            &&& exists|parts: Seq<Seq<Row>>|
                {
                    &&& parts.len() == ls.len()
                    &&& run::rows_of(op, ctx, m)->Ok_0 == #[trigger] strung(parts)
                    &&& forall|i: int|
                        0 <= i < parts.len() ==> laid_rows(
                            ls[i],
                            rs->Ok_0,
                            op->CrossProduct_same_match,
                            #[trigger] parts[i],
                        )
                }
        }),
{
    let ls = run::rows_of(*op->CrossProduct_left, ctx, m)->Ok_0;
    let rs = run::rows_of(*op->CrossProduct_right, ctx, m)->Ok_0;
    let same = op->CrossProduct_same_match;
    let parts = lemma_product_parts(ls, rs, same);
    assert(run::rows_of(op, ctx, m)->Ok_0 == strung(parts));
    assert forall|i: int| 0 <= i < parts.len() implies laid_rows(
        ls[i],
        rs,
        same,
        #[trigger] parts[i],
    ) by {
        assert(join::pairs(ls[i], rs, true, same) == Ok::<Seq<Row>, ErrorView>(parts[i]));
        each_pair_gives_a_row(ls[i], rs, true, same);
    }
}

/// Without rows on the left side a cross product has none.
pub proof fn nothing_times_anything_is_nothing(op: LogicalOp, ctx: ExecContext, m: Model)
    requires
        op is CrossProduct,
        run::rows_of(*op->CrossProduct_left, ctx, m) == Ok::<Seq<Row>, ErrorView>(Seq::empty()),
    ensures
        run::rows_of(op, ctx, m) == Ok::<Seq<Row>, ErrorView>(Seq::empty()),
{
}

/// Where no relationship can repeat, a cross product has as many rows as the two sides
/// multiplied.
pub proof fn products_multiply_the_rows(ls: Seq<Row>, rs: Seq<Row>)
    ensures
        join::product(ls, rs, false) is Ok,
        join::product(ls, rs, false)->Ok_0.len() == ls.len() * rs.len(),
    decreases ls.len(),
{
    if ls.len() > 0 {
        products_multiply_the_rows(ls.drop_last(), rs);
        let l = ls.last();
        let f = |r: Row| join::paired(l, r, true, false);
        let g = |r: Row| join::combined(l, r, true);
        flow_laws::one_each_is_place_by_place(rs, f, g);
        assert(join::pairs(l, rs, true, false) == flow::each(rs, f));
        assert((ls.len() - 1) * rs.len() + rs.len() == ls.len() * rs.len()) by (nonlinear_arith);
    } else {
        assert(0 * rs.len() == 0);
    }
}

} // verus!
