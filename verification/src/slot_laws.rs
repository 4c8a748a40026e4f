//! Operators on rows by slots do what the operators on rows by names do.
use crate::ast_model::{ExprView, SortItemView};
use crate::assoc;
use crate::exec::arrange;
use crate::exec::read;
use crate::iter;
use crate::iter::Stream;
use crate::iter_slot;
use crate::iter_slot::{Cells, Names, SlotFlows};
use crate::order;
use crate::plan::{ExecContext, LogicalOp};
use crate::record;
use crate::record::Row;
use crate::source::Model;
use vstd::prelude::*;

verus! {

/// A flow of rows by slots as one of rows by names.
pub open spec fn spelled(s: SlotFlows) -> iter::Flow {
    match s {
        Ok(s) => Ok(
            Stream {
                rows: iter_slot::spelled_out(s.names, s.stream.rows),
                fault: s.stream.fault,
            },
        ),
        Err(e) => Err(e),
    }
}

/// Filtering by slots keeps the rows that filtering by names keeps.
proof fn lemma_filtered(names: Names, s: Stream<Cells>, predicate: ExprView, m: Model)
    ensures
        ({
            let by_slots = iter::streamed(s, iter_slot::cells_kept(names, predicate, m));
            let by_names = iter::streamed(
                Stream { rows: iter_slot::spelled_out(names, s.rows), fault: s.fault },
                |rec: Row| read::kept(rec, predicate, m),
            );
            by_names == Stream {
                rows: iter_slot::spelled_out(names, by_slots.rows),
                fault: by_slots.fault,
            }
        }),
    decreases s.rows.len(),
{
    let f = iter_slot::cells_kept(names, predicate, m);
    let g = |rec: Row| read::kept(rec, predicate, m);
    let rows = iter_slot::spelled_out(names, s.rows);
    let by_slots = iter::streamed(s, f);
    let by_names = iter::streamed(Stream { rows, fault: s.fault }, g);
    if s.rows.len() > 0 {
        let t = Stream { rows: s.rows.drop_first(), fault: s.fault };
        lemma_filtered(names, t, predicate, m);
        assert(rows.drop_first() =~= iter_slot::spelled_out(names, t.rows));
        assert(rows[0] == record::named(names, s.rows[0]));
        assert(g(rows[0]) == read::kept(rows[0], predicate, m));
    }
    assert(by_names.rows =~= iter_slot::spelled_out(names, by_slots.rows));
}

/// Filtering by slots keeps the rows that filtering by names keeps, and fails where that
/// fails.
pub proof fn slots_filter_as_names_do(s: SlotFlows, predicate: ExprView, m: Model)
    ensures
        spelled(iter_slot::kept(s, predicate, m)) == iter::mapped(
            spelled(s),
            |rec: Row| read::kept(rec, predicate, m),
        ),
{
    match s {
        Ok(s) => {
            lemma_filtered(s.names, s.stream, predicate, m);
        },
        Err(_) => {},
    }
}

/// Skipping by slots leaves the rows that skipping by names leaves.
pub proof fn slots_skip_as_names_do(s: SlotFlows, n: u64)
    ensures
        spelled(iter_slot::skipped(s, n)) == iter::skipped(spelled(s), n),
{
    match s {
        Ok(s) => {
            assert(iter_slot::spelled_out(s.names, arrange::skipped(s.stream.rows, n))
                =~= arrange::skipped(iter_slot::spelled_out(s.names, s.stream.rows), n));
        },
        Err(_) => {},
    }
}

/// Limiting by slots takes the rows that limiting by names takes.
pub proof fn slots_limit_as_names_do(s: SlotFlows, n: u64)
    ensures
        spelled(iter_slot::limited(s, n)) == iter::limited(spelled(s), n),
{
    match s {
        Ok(s) => {
            if n <= s.stream.rows.len() {
                assert(iter_slot::spelled_out(s.names, s.stream.rows.take(n as int))
                    =~= iter_slot::spelled_out(s.names, s.stream.rows).take(n as int));
            }
        },
        Err(_) => {},
    }
}

/// A row by slots goes to the place that the row by names goes to.
proof fn lemma_sorted_in(names: Names, s: Seq<Cells>, x: Cells, items: Seq<SortItemView>, m: Model)
    ensures
        iter_slot::spelled_out(
            names,
            arrange::sorted_in(s, x, iter_slot::cells_before(names, items, m)),
        ) == arrange::sorted_in(
            iter_slot::spelled_out(names, s),
            record::named(names, x),
            arrange::row_before(items, m),
        ),
    decreases s.len(),
{
    let f = iter_slot::cells_before(names, items, m);
    let g = arrange::row_before(items, m);
    let t = iter_slot::spelled_out(names, s);
    let y = record::named(names, x);
    if s.len() > 0 {
        assert(t.last() == record::named(names, s.last()));
        assert(f(x, s.last()) == g(y, t.last()));
        lemma_sorted_in(names, s.drop_last(), x, items, m);
        assert(t.drop_last() =~= iter_slot::spelled_out(names, s.drop_last()));
    }
    assert(iter_slot::spelled_out(names, arrange::sorted_in(s, x, f)) =~= arrange::sorted_in(
        t,
        y,
        g,
    ));
}

/// Rows by slots come in the order that the rows by names come in.
proof fn lemma_sorted(names: Names, s: Seq<Cells>, items: Seq<SortItemView>, m: Model)
    ensures
        iter_slot::spelled_out(names, arrange::sorted(s, iter_slot::cells_before(names, items, m)))
            == arrange::sorted(iter_slot::spelled_out(names, s), arrange::row_before(items, m)),
    decreases s.len(),
{
    let t = iter_slot::spelled_out(names, s);
    if s.len() > 0 {
        let f = iter_slot::cells_before(names, items, m);
        lemma_sorted(names, s.drop_last(), items, m);
        lemma_sorted_in(names, arrange::sorted(s.drop_last(), f), s.last(), items, m);
        assert(t.drop_last() =~= iter_slot::spelled_out(names, s.drop_last()));
        assert(t.last() == record::named(names, s.last()));
    } else {
        assert(iter_slot::spelled_out(names, s) =~= t);
    }
}

/// Sorting by slots puts rows in the order that sorting by names puts them in.
pub proof fn slots_sort_as_names_do(s: SlotFlows, items: Seq<SortItemView>, m: Model)
    ensures
        iter::gathered(spelled(iter_slot::ordered(s, items, m))) == iter::gathered(
            iter::rearranged(
                spelled(s),
                |rs: Seq<Row>| arrange::sorted(rs, arrange::row_before(items, m)),
            ),
        ),
{
    match s {
        Ok(s) => {
            lemma_sorted(s.names, s.stream.rows, items, m);
        },
        Err(_) => {},
    }
}

/// Rows by slots are alike where the rows by names are.
pub proof fn lemma_alike(names: Names, a: Cells, b: Cells)
    requires
        assoc::distinct(names),
        a.len() == names.len(),
        b.len() == names.len(),
    ensures
        iter_slot::cells_alike()(a, b) == arrange::alike(true)(
            record::named(names, a),
            record::named(names, b),
        ),
{
    let x = record::named(names, a);
    let y = record::named(names, b);
    assert(assoc::keys(y) =~= names);
    assert forall|i: int| 0 <= i < names.len() implies assoc::lookup(y, (#[trigger] x[i]).0)
        == Some(b[i]) && x[i].1 == a[i] by {
        assoc::lemma_place_is(names, names[i], i);
    }
    if order::same_entries(x, y) {
        assert forall|i: int| 0 <= i < a.len() implies order::same(#[trigger] a[i], b[i]) by {
            assert(x[i].1 == a[i]);
        }
    }
}

/// Without repetitions, rows by slots are the rows by names without repetitions.
proof fn lemma_unique(names: Names, s: Seq<Cells>)
    requires
        assoc::distinct(names),
        forall|i: int| 0 <= i < s.len() ==> (#[trigger] s[i]).len() == names.len(),
    ensures
        iter_slot::spelled_out(names, arrange::unique(s, iter_slot::cells_alike()))
            == arrange::unique(iter_slot::spelled_out(names, s), arrange::alike(true)),
        forall|i: int|
            0 <= i < arrange::unique(s, iter_slot::cells_alike()).len() ==> (
            #[trigger] arrange::unique(s, iter_slot::cells_alike())[i]).len() == names.len(),
    decreases s.len(),
{
    let f = iter_slot::cells_alike();
    let g = arrange::alike(true);
    let t = iter_slot::spelled_out(names, s);
    if s.len() > 0 {
        let u = s.drop_last();
        assert forall|i: int| 0 <= i < u.len() implies (#[trigger] u[i]).len() == names.len() by {
            assert(u[i] == s[i]);
        }
        lemma_unique(names, u);
        assert(t.drop_last() =~= iter_slot::spelled_out(names, u));
        assert(t.last() == record::named(names, s.last()));
        let so_far = arrange::unique(u, f);
        let told = arrange::unique(t.drop_last(), g);
        assert(told == iter_slot::spelled_out(names, so_far));
        assert(s.last() == s[s.len() - 1]);
        assert forall|i: int| 0 <= i < so_far.len() implies f(#[trigger] so_far[i], s.last()) == g(
            told[i],
            t.last(),
        ) by {
            lemma_alike(names, so_far[i], s.last());
        }
        if arrange::known(so_far, s.last(), f) {
            let i = choose|i: int| 0 <= i < so_far.len() && f(#[trigger] so_far[i], s.last());
            assert(g(told[i], t.last()));
        }
        if arrange::known(told, t.last(), g) {
            let i = choose|i: int| 0 <= i < told.len() && g(#[trigger] told[i], t.last());
            assert(f(so_far[i], s.last()));
        }
        assert(arrange::known(so_far, s.last(), f) == arrange::known(told, t.last(), g));
        assert(iter_slot::spelled_out(names, so_far.push(s.last())) =~= told.push(t.last()));
    } else {
        assert(iter_slot::spelled_out(names, arrange::unique(s, f)) =~= arrange::unique(t, g));
    }
}

/// Removing repetitions by slots leaves the rows that removing them by names leaves, where
/// each slot has a name of its own and each row has all slots.
pub proof fn slots_unrepeat_as_names_do(s: SlotFlows)
    requires
        s matches Ok(s) ==> assoc::distinct(s.names) && forall|i: int|
            0 <= i < s.stream.rows.len() ==> (#[trigger] s.stream.rows[i]).len()
                == s.names.len(),
    ensures
        iter::gathered(spelled(iter_slot::unrepeated(s))) == iter::gathered(
            iter::rearranged(
                spelled(s),
                |rs: Seq<Row>| arrange::unique(rs, arrange::alike(true)),
            ),
        ),
{
    match s {
        Ok(s) => {
            lemma_unique(s.names, s.stream.rows);
        },
        Err(_) => {},
    }
}

/// No operator gives more rows by slots than the context allows.
pub proof fn no_slot_operator_gives_more_rows_than_allowed(
    whole: LogicalOp,
    op: LogicalOp,
    ctx: ExecContext,
    m: Model,
)
    requires
        ctx.max_result_rows > 0,
    ensures
        iter_slot::slots_of(whole, op, ctx, m) matches Ok(s) ==> s.stream.rows.len()
            <= ctx.max_result_rows,
{
}

} // verus!
