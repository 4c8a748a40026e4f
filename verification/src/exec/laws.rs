//! What holds of the executor as a whole.
use crate::assoc;
use crate::ast_model;
use crate::ast_model::{ReturnItemView, SortItemView};
use crate::binding;
use crate::exec::arrange;
use crate::exec::assign;
use crate::exec::expand;
use crate::exec::flow;
use crate::exec::flow::Rows;
use crate::exec::project;
use crate::exec::pull;
use crate::exec::query;
use crate::exec::read;
use crate::exec::run;
use crate::iter;
use crate::iter::Stream;
use crate::plan;
use crate::plan::{ExecContext, LogicalOp};
use crate::record::Row;
use crate::source::Model;
use crate::types::{ErrorView, NodeId};
use crate::value::ValueView;
use vstd::prelude::*;

verus! {

/// What the items give, seen from the first one.
proof fn lemma_each_first<T, U>(s: Seq<T>, f: spec_fn(T) -> Result<Seq<U>, ErrorView>)
    requires
        s.len() > 0,
    ensures
        flow::each(s, f) == (match f(s[0]) {
            Ok(a) => match flow::each(s.drop_first(), f) {
                Ok(b) => Ok(a + b),
                Err(e) => Err(e),
            },
            Err(e) => Err(e),
        }),
    decreases s.len(),
{
    let t = s.drop_last();
    if t.len() == 0 {
        assert(s.drop_first() =~= Seq::<T>::empty());
        match f(s[0]) {
            Ok(a) => {
                assert(Seq::<U>::empty() + a =~= a + Seq::<U>::empty());
            },
            Err(_) => {},
        }
    } else {
        lemma_each_first(t, f);
        assert(s.drop_first().drop_last() =~= t.drop_first());
        assert(s.drop_first().last() == s.last());
        match (f(s[0]), flow::each(t.drop_first(), f), f(s.last())) {
            (Ok(a), Ok(b), Ok(c)) => {
                assert((a + b) + c =~= a + (b + c));
            },
            _ => {},
        }
    }
}

/// Pulling rows one by one gives what taking them all gives, up to the first failure.
pub proof fn lemma_streamed<T, U>(s: Stream<T>, f: spec_fn(T) -> Result<Seq<U>, ErrorView>)
    ensures
        s.fault is None ==> (match flow::each(s.rows, f) {
            Ok(rs) => iter::streamed(s, f) == (Stream { rows: rs, fault: None::<ErrorView> }),
            Err(e) => iter::streamed(s, f).fault == Some(e),
        }),
        s.fault is Some ==> iter::streamed(s, f).fault is Some,
    decreases s.rows.len(),
{
    if s.rows.len() > 0 {
        lemma_each_first(s.rows, f);
        lemma_streamed(Stream { rows: s.rows.drop_first(), fault: s.fault }, f);
    }
}

/// Without a cap, the rows that all rows expand to are those of each.
pub proof fn lemma_expanded(rs: Seq<Row>, x: expand::ExpansionView, work: u64, m: Model)
    ensures
        expand::expanded_all(rs, x, None, work, m) == flow::each(
            rs,
            |rec: Row| expand::expanded(rec, x, None, work, m),
        ),
    decreases rs.len(),
{
    if rs.len() > 0 {
        lemma_expanded(rs.drop_last(), x, work, m);
    }
}

/// No expansion below the plan's pulled operators stops at a number of rows.
pub open spec fn uncapped(op: LogicalOp) -> bool
    decreases op,
{
    match op {
        LogicalOp::Filter { input, .. } => uncapped(*input),
        LogicalOp::Project { input, .. } => uncapped(*input),
        LogicalOp::Skip { input, .. } => uncapped(*input),
        LogicalOp::Limit { input, .. } => uncapped(*input),
        LogicalOp::Distinct { input } => uncapped(*input),
        LogicalOp::Sort { input, .. } => uncapped(*input),
        LogicalOp::Expand { input, result_cap, .. } => result_cap is None && uncapped(*input),
        _ => true,
    }
}

/// No LIMIT is among the plan's pulled operators.
pub open spec fn unlimited(op: LogicalOp) -> bool
    decreases op,
{
    match op {
        LogicalOp::Filter { input, .. } => unlimited(*input),
        LogicalOp::Project { input, .. } => unlimited(*input),
        LogicalOp::Skip { input, .. } => unlimited(*input),
        LogicalOp::Limit { .. } => false,
        LogicalOp::Distinct { input } => unlimited(*input),
        LogicalOp::Sort { input, .. } => unlimited(*input),
        LogicalOp::Expand { input, .. } => unlimited(*input),
        _ => true,
    }
}

/// Each projection and each sort among the plan's pulled operators makes the same of the rows
/// that it gets whether they are pulled or run.
pub open spec fn plain(op: LogicalOp, m: Model) -> bool
    decreases op,
{
    match op {
        LogicalOp::Filter { input, .. } => plain(*input, m),
        LogicalOp::Skip { input, .. } => plain(*input, m),
        LogicalOp::Limit { input, .. } => plain(*input, m),
        LogicalOp::Distinct { input } => plain(*input, m),
        LogicalOp::Expand { input, .. } => plain(*input, m),
        LogicalOp::Project { input, items, emit_compound } => plain(*input, m) && (run::rows_of(
            *input,
            iter::free_context(),
            m,
        ) matches Ok(rs) ==> plainly_projected(
            rs,
            ast_model::return_items_view(items@),
            emit_compound,
            m,
        )),
        LogicalOp::Sort { input, items } => plain(*input, m) && (run::rows_of(
            *input,
            iter::free_context(),
            m,
        ) matches Ok(rs) ==> plainly_sorted(rs, ast_model::sort_items_view(items@), m)),
        _ => true,
    }
}

/// The items give each row the same columns whether it is pulled or projected with all others,
/// as they do by [`super::pull::plain_items_project_alike`] where they are plain.
pub open spec fn plainly_projected(
    rs: Seq<Row>,
    items: Seq<ReturnItemView>,
    emit: bool,
    m: Model,
) -> bool {
    forall|i: int|
        0 <= i < rs.len() ==> pull::projected(#[trigger] rs[i], items, emit, m)
            == project::projected(rs[i], items, emit, m)
}

/// The rows are sorted alike in the full and in the plain order, as they are by
/// [`super::sort_laws::plain_keys_sort_alike`] where the sort keys are numbers or texts.
pub open spec fn plainly_sorted(rs: Seq<Row>, items: Seq<SortItemView>, m: Model) -> bool {
    arrange::sorted(rs, arrange::row_plainly_before(items, m)) == arrange::sorted(
        rs,
        arrange::row_before(items, m),
    )
}

/// What gives the same for each row gives the same for all.
proof fn lemma_each_same(rs: Seq<Row>, f: spec_fn(Row) -> Rows, g: spec_fn(Row) -> Rows)
    requires
        forall|i: int| 0 <= i < rs.len() ==> f(#[trigger] rs[i]) == g(rs[i]),
    ensures
        flow::each(rs, f) == flow::each(rs, g),
    decreases rs.len(),
{
    if rs.len() > 0 {
        let t = rs.drop_last();
        assert(f(rs[rs.len() - 1]) == g(rs[rs.len() - 1]));
        assert forall|i: int| 0 <= i < t.len() implies f(#[trigger] t[i]) == g(t[i]) by {
            assert(f(rs[i]) == g(rs[i]));
        }
        lemma_each_same(t, f, g);
    }
}

/// How what is pulled stands to what is run.
pub open spec fn agree(pulled: iter::Flow, run: Rows, always: bool) -> bool {
    match run {
        Ok(rs) => pulled == Ok::<Stream<Row>, ErrorView>(Stream { rows: rs, fault: None }),
        Err(_) => always ==> iter::gathered(pulled) is Err,
    }
}

/// Row by row operators agree where their inputs do.
proof fn lemma_mapped(s: iter::Flow, rs: Rows, f: spec_fn(Row) -> Rows, always: bool)
    requires
        agree(s, rs, always),
    ensures
        agree(
            iter::mapped(s, f),
            (match rs {
                Ok(rs) => flow::each(rs, f),
                Err(e) => Err(e),
            }),
            always,
        ),
{
    match s {
        Ok(s) => {
            lemma_streamed(s, f);
        },
        Err(_) => {},
    }
}

/// What is pulled of a plan, without limits.
spec fn pulled_stream(op: LogicalOp, m: Model) -> iter::Flow {
    iter::stream_of(op, iter::free_context().max_traversal_work, m)
}

/// What is run of a plan, without limits.
spec fn run_rows(op: LogicalOp, m: Model) -> Rows {
    run::rows_of(op, iter::free_context(), m)
}

/// Filters agree.
proof fn lemma_agree_filter(op: LogicalOp, input: LogicalOp, m: Model)
    requires
        op matches LogicalOp::Filter { input: i, .. } && *i == input,
        agree(pulled_stream(input, m), run_rows(input, m), unlimited(input)),
    ensures
        agree(pulled_stream(op, m), run_rows(op, m), unlimited(op)),
{
    let ctx = iter::free_context();
    match op {
        LogicalOp::Filter { predicate, .. } => {
            let f = |rec: Row| read::kept(rec, predicate@, m);
            lemma_mapped(pulled_stream(input, m), run_rows(input, m), f, unlimited(input));
            assert(pulled_stream(op, m) == iter::mapped(pulled_stream(input, m), f));
            assert(run_rows(op, m) == run::applied_to(op, run_rows(input, m), ctx, m));
        },
        _ => {},
    }
}

/// Projections agree.
proof fn lemma_agree_project(op: LogicalOp, input: LogicalOp, m: Model)
    requires
        op matches LogicalOp::Project { input: i, .. } && *i == input,
        plain(op, m),
        agree(pulled_stream(input, m), run_rows(input, m), unlimited(input)),
    ensures
        agree(pulled_stream(op, m), run_rows(op, m), unlimited(op)),
{
    let ctx = iter::free_context();
    match op {
        LogicalOp::Project { items, emit_compound, .. } => {
            let its = ast_model::return_items_view(items@);
            let f = |rec: Row| pull::projected_one(rec, its, emit_compound, m);
            let g = |rec: Row| project::projected_one(rec, its, emit_compound, m);
            lemma_mapped(pulled_stream(input, m), run_rows(input, m), f, unlimited(input));
            assert(pulled_stream(op, m) == iter::mapped(pulled_stream(input, m), f));
            assert(run_rows(op, m) == run::applied_to(op, run_rows(input, m), ctx, m));
            match run_rows(input, m) {
                Ok(rs) => {
                    lemma_each_same(rs, f, g);
                    assert(project::projected_rows(rs, its, emit_compound, m) == flow::each(rs, g));
                },
                Err(_) => {},
            }
        },
        _ => {},
    }
}

/// Expansions without a cap agree.
proof fn lemma_agree_expand(op: LogicalOp, input: LogicalOp, m: Model)
    requires
        op matches LogicalOp::Expand { input: i, result_cap: None, .. } && *i == input,
        agree(pulled_stream(input, m), run_rows(input, m), unlimited(input)),
    ensures
        agree(pulled_stream(op, m), run_rows(op, m), unlimited(op)),
{
    let ctx = iter::free_context();
    let work = ctx.max_traversal_work;
    let x = run::expansion(op, m);
    let f = |rec: Row| expand::expanded(rec, x, None, work, m);
    lemma_mapped(pulled_stream(input, m), run_rows(input, m), f, unlimited(input));
    assert(pulled_stream(op, m) == iter::mapped(pulled_stream(input, m), f));
    assert(run_rows(op, m) == run::applied_to(op, run_rows(input, m), ctx, m));
    match run_rows(input, m) {
        Ok(rs) => {
            lemma_expanded(rs, x, work, m);
        },
        Err(_) => {},
    }
}

/// Skips agree.
proof fn lemma_agree_skip(op: LogicalOp, input: LogicalOp, m: Model)
    requires
        op matches LogicalOp::Skip { input: i, .. } && *i == input,
        agree(pulled_stream(input, m), run_rows(input, m), unlimited(input)),
    ensures
        agree(pulled_stream(op, m), run_rows(op, m), unlimited(op)),
{
    let ctx = iter::free_context();
    assert(run_rows(op, m) == run::applied_to(op, run_rows(input, m), ctx, m));
}

/// Limits agree.
proof fn lemma_agree_limit(op: LogicalOp, input: LogicalOp, m: Model)
    requires
        op matches LogicalOp::Limit { input: i, .. } && *i == input,
        agree(pulled_stream(input, m), run_rows(input, m), unlimited(input)),
    ensures
        agree(pulled_stream(op, m), run_rows(op, m), unlimited(op)),
{
    let ctx = iter::free_context();
    assert(run_rows(op, m) == run::applied_to(op, run_rows(input, m), ctx, m));
    match (op, run_rows(input, m)) {
        (LogicalOp::Limit { count, .. }, Ok(rs)) => {
            assert(pulled_stream(op, m) == iter::limited(pulled_stream(input, m), count));
            assert(run_rows(op, m) == Ok::<Seq<Row>, ErrorView>(arrange::limited(rs, count)));
            if count == rs.len() {
                assert(rs.take(count as int) =~= rs);
            }
        },
        _ => {},
    }
}

/// Removals of repetitions agree.
proof fn lemma_agree_distinct(op: LogicalOp, input: LogicalOp, m: Model)
    requires
        op matches LogicalOp::Distinct { input: i } && *i == input,
        agree(pulled_stream(input, m), run_rows(input, m), unlimited(input)),
    ensures
        agree(pulled_stream(op, m), run_rows(op, m), unlimited(op)),
{
    let ctx = iter::free_context();
    assert(run_rows(op, m) == run::applied_to(op, run_rows(input, m), ctx, m));
}

/// Sorts agree.
proof fn lemma_agree_sort(op: LogicalOp, input: LogicalOp, m: Model)
    requires
        op matches LogicalOp::Sort { input: i, .. } && *i == input,
        plain(op, m),
        agree(pulled_stream(input, m), run_rows(input, m), unlimited(input)),
    ensures
        agree(pulled_stream(op, m), run_rows(op, m), unlimited(op)),
{
    let ctx = iter::free_context();
    assert(run_rows(op, m) == run::applied_to(op, run_rows(input, m), ctx, m));
}

/// Each operator that is pulled agrees with the same operator run on all rows.
proof fn lemma_agree(op: LogicalOp, m: Model)
    requires
        uncapped(op),
        plain(op, m),
    ensures
        agree(pulled_stream(op, m), run_rows(op, m), unlimited(op)),
    decreases op,
{
    match op {
        LogicalOp::Filter { input, .. } => {
            lemma_agree(*input, m);
            lemma_agree_filter(op, *input, m);
        },
        LogicalOp::Project { input, .. } => {
            lemma_agree(*input, m);
            lemma_agree_project(op, *input, m);
        },
        LogicalOp::Expand { input, .. } => {
            lemma_agree(*input, m);
            lemma_agree_expand(op, *input, m);
        },
        LogicalOp::Skip { input, .. } => {
            lemma_agree(*input, m);
            lemma_agree_skip(op, *input, m);
        },
        LogicalOp::Limit { input, .. } => {
            lemma_agree(*input, m);
            lemma_agree_limit(op, *input, m);
        },
        LogicalOp::Distinct { input } => {
            lemma_agree(*input, m);
            lemma_agree_distinct(op, *input, m);
        },
        LogicalOp::Sort { input, .. } => {
            lemma_agree(*input, m);
            lemma_agree_sort(op, *input, m);
        },
        _ => {},
    }
}

/// Where running a plan operator by operator succeeds, pulling its rows through iterators gives
/// the same rows. The plan has no expansion that stops at a number of rows, and its projections
/// and sorts make the same of their rows either way.
pub proof fn pulling_gives_what_running_gives(op: LogicalOp, m: Model)
    requires
        uncapped(op),
        plain(op, m),
        run::rows_of(op, iter::free_context(), m) is Ok,
    ensures
        query::pulled(op, m) == run::rows_of(op, iter::free_context(), m),
{
    lemma_agree(op, m);
}

/// Without a LIMIT, pulling the rows of a plan fails where running it operator by operator
/// fails.
pub proof fn pulling_fails_where_running_fails(op: LogicalOp, m: Model)
    requires
        uncapped(op),
        unlimited(op),
        plain(op, m),
        run::rows_of(op, iter::free_context(), m) is Err,
    ensures
        query::pulled(op, m) is Err,
{
    lemma_agree(op, m);
}

/// A property that was set on a row reads back as it was set, and no other field changes.
pub proof fn set_property_reads_back(rec: Row, key: Seq<char>, v: ValueView, other: Seq<char>)
    requires
        !(v is Null),
    ensures
        assoc::lookup(assign::with_entry(rec, key, v), key) == Some(v),
        other != key ==> assoc::lookup(assign::with_entry(rec, key, v), other) == assoc::lookup(
            rec,
            other,
        ),
{
    assoc::lemma_lookup_put(rec, key, v, other);
}

/// A property that was set to null is gone from a row whose fields have different names.
pub proof fn nulled_property_is_gone(rec: Row, key: Seq<char>)
    requires
        assoc::distinct(assoc::keys(rec)),
    ensures
        assoc::lookup(assign::with_entry(rec, key, ValueView::Null), key) is None,
{
    let ks = assoc::keys(rec);
    let t = assign::with_entry(rec, key, ValueView::Null);
    assoc::lemma_place(ks, key);
    let i = assoc::place(ks, key) as int;
    assert forall|j: int| 0 <= j < t.len() implies #[trigger] assoc::keys(t)[j] != key by {
        if i < rec.len() {
            if j == i {
                assert(assoc::keys(t)[j] == ks[rec.len() - 1]);
            } else {
                assert(assoc::keys(t)[j] == ks[j]);
            }
        } else {
            assert(assoc::keys(t)[j] == ks[j]);
        }
    }
    assoc::lemma_place_is(assoc::keys(t), key, t.len() as int);
}

/// A relationship that an expansion binds is bound by no other variable of the row.
pub proof fn expansion_binds_no_relationship_twice(
    rec: Row,
    n: crate::value::NodeView,
    ends: (NodeId, NodeId),
    label: Seq<char>,
    edge: (u64, Row),
    alias: Seq<char>,
    dst_alias: Seq<char>,
)
    ensures
        ({
            let there = binding::node_row(rec, n, dst_alias);
            let key = binding::edge_key(ends.0.0 as i64, ends.1.0 as i64, label, edge.0);
            match expand::hop_row(rec, n, ends, label, edge, alias, dst_alias) {
                Ok(rs) => rs.len() > 0 ==> !binding::bound_elsewhere(there, alias, key),
                Err(_) => false,
            }
        }),
{
}

/// A LIMIT yields no more rows than it says.
pub proof fn limit_yields_no_more(s: iter::Flow, n: u64)
    ensures
        iter::limited(s, n) matches Ok(t) ==> t.rows.len() <= n,
{
}

/// What a SKIP leaves out is what a LIMIT by the same number takes.
pub proof fn skip_and_limit_share_the_rows(rs: Seq<Row>, n: u64)
    ensures
        arrange::limited(rs, n) + arrange::skipped(rs, n) == rs,
{
    assert(arrange::limited(rs, n) + arrange::skipped(rs, n) =~= rs);
}

/// No operator of a plan that reads gives more rows than the context allows, outside a subquery
/// or inside one.
pub proof fn no_operator_gives_more_rows_than_allowed(
    op: LogicalOp,
    outer: Row,
    ctx: ExecContext,
    m: Model,
)
    requires
        plan::reads_only(op),
        ctx.max_result_rows > 0,
    ensures
        run::rows_of(op, ctx, m) matches Ok(rs) ==> rs.len() <= ctx.max_result_rows,
        run::inner_rows_of(op, outer, ctx, m) matches Ok(rs) ==> rs.len() <= ctx.max_result_rows,
{
    assert(run::rows_of(op, ctx, m) matches Ok(rs) ==> rs.len() <= ctx.max_result_rows);
}

} // verus!
