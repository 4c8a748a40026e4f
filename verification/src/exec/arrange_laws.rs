//! What becomes of rows that are ordered, cut, thinned out, put together, unwound or projected.
use super::arrange;
use super::flow;
use super::flow_laws;
use super::group_laws;
use super::join_laws;
use super::project;
use super::read;
use super::run;
use super::sort_laws;
use crate::assoc;
use crate::ast_model;
use crate::ast_model::{ExprKindView, ExprView, ReturnItemView, SortItemView};
use crate::binding;
use crate::binding_laws;
use crate::order;
use crate::order::Place;
use crate::plan;
use crate::plan::{ExecContext, LogicalOp};
use crate::record;
use crate::record::Row;
use crate::row_laws;
use crate::source::Model;
use crate::text;
use crate::types::ErrorView;
use crate::value::{NodeView, ValueView};
use vstd::prelude::*;

verus! {

/// How the rows stand to each other by one sort key, before its direction counts.
pub open spec fn by_key(a: Row, b: Row, item: SortItemView, m: Model) -> Place {
    order::placed(group_laws::key_on(item.expr, a, m), group_laws::key_on(item.expr, b, m))
}

/// Rows that no sort key tells apart up to a place stand to each other by the keys from there on.
proof fn lemma_keys_from(a: Row, b: Row, items: Seq<SortItemView>, m: Model, i: int, n: int)
    requires
        0 <= n <= i <= items.len(),
        forall|j: int| n <= j < i ==> by_key(a, b, #[trigger] items[j], m) == Place::Same,
    ensures
        arrange::by_keys(
            arrange::sort_keys(a, items, m),
            arrange::sort_keys(b, items, m),
            items,
            false,
            n,
        ) == arrange::by_keys(
            arrange::sort_keys(a, items, m),
            arrange::sort_keys(b, items, m),
            items,
            false,
            i,
        ),
    decreases i - n,
{
    if n < i {
        lemma_keys_from(a, b, items, m, i, n + 1);
        assert(by_key(a, b, items[n], m) == Place::Same);
        assert(arrange::sort_keys(a, items, m)[n] == group_laws::key_on(items[n].expr, a, m));
        assert(arrange::sort_keys(b, items, m)[n] == group_laws::key_on(items[n].expr, b, m));
    }
}

/// The first sort key that tells two rows apart decides which belongs before the other: the one
/// whose key is placed before, or the one whose key is placed after where the order is
/// descending.
pub proof fn the_first_key_that_differs_decides(
    a: Row,
    b: Row,
    items: Seq<SortItemView>,
    m: Model,
    i: int,
)
    requires
        0 <= i < items.len(),
        forall|j: int| 0 <= j < i ==> by_key(a, b, #[trigger] items[j], m) == Place::Same,
        by_key(a, b, items[i], m) != Place::Same,
    ensures
        arrange::row_before(items, m)(a, b) <==> (if items[i].descending {
            by_key(a, b, items[i], m) == Place::After
        } else {
            by_key(a, b, items[i], m) == Place::Before
        }),
{
    lemma_keys_from(a, b, items, m, i, 0);
    assert(arrange::sort_keys(a, items, m)[i] == group_laws::key_on(items[i].expr, a, m));
    assert(arrange::sort_keys(b, items, m)[i] == group_laws::key_on(items[i].expr, b, m));
}

/// Rows that no sort key tells apart belong before each other neither way.
pub proof fn equal_keys_decide_nothing(a: Row, b: Row, items: Seq<SortItemView>, m: Model)
    requires
        forall|j: int| 0 <= j < items.len() ==> by_key(a, b, #[trigger] items[j], m) == Place::Same,
    ensures
        !arrange::row_before(items, m)(a, b),
{
    lemma_keys_from(a, b, items, m, items.len() as int, 0);
}

/// The rows that an operator with one input works on, and what it makes of them.
proof fn lemma_applied(op: LogicalOp, input: LogicalOp, ctx: ExecContext, m: Model)
    requires
        run::rows_of(op, ctx, m) is Ok,
        (op is Sort && input == *op->Sort_input) || (op is Skip && input == *op->Skip_input) || (
        op is Limit && input == *op->Limit_input) || (op is Distinct && input
            == *op->Distinct_input) || (op is Unwind && input == *op->Unwind_input) || (
        op is Project && input == *op->Project_input),
    ensures
        run::rows_of(input, ctx, m) is Ok,
        run::made(op, run::rows_of(input, ctx, m)->Ok_0, ctx, m) == run::rows_of(op, ctx, m),
{
    assert(run::rows_of(op, ctx, m) == run::applied_to(op, run::rows_of(input, ctx, m), ctx, m));
}

/// ORDER BY in a plan keeps every row of its input and puts them in order, where the keys are of
/// one type for each item.
pub proof fn a_plan_sorts_as_it_says(op: LogicalOp, ctx: ExecContext, m: Model)
    requires
        op is Sort,
        run::rows_of(op, ctx, m) is Ok,
    ensures
        ({
            let rs = run::rows_of(*op->Sort_input, ctx, m);
            let out = run::rows_of(op, ctx, m)->Ok_0;
            let items = ast_model::sort_items_view(op->Sort_items@);
            &&& rs is Ok
            &&& out.to_multiset() == rs->Ok_0.to_multiset()
            &&& out.len() == rs->Ok_0.len()
            &&& sort_laws::keys_of_one_kind(rs->Ok_0, items, m) ==> forall|i: int, j: int|
                0 <= i < j < out.len() ==> !arrange::row_before(items, m)(
                    #[trigger] out[j],
                    #[trigger] out[i],
                )
        }),
{
    lemma_applied(op, *op->Sort_input, ctx, m);
    let rs = run::rows_of(*op->Sort_input, ctx, m)->Ok_0;
    let out = run::rows_of(op, ctx, m)->Ok_0;
    let items = ast_model::sort_items_view(op->Sort_items@);
    let before = arrange::row_before(items, m);
    sort_laws::sorting_keeps_rows(rs, before);
    if sort_laws::keys_of_one_kind(rs, items, m) {
        assert forall|i: int, j: int| 0 <= i < j < out.len() implies !before(
            #[trigger] out[j],
            #[trigger] out[i],
        ) by {
            sort_laws::order_by_orders_rows(rs, items, m, i, j);
        }
    }
}

/// SKIP leaves out the first rows, and no others.
pub proof fn a_plan_skips_as_it_says(op: LogicalOp, ctx: ExecContext, m: Model)
    requires
        op is Skip,
        run::rows_of(op, ctx, m) is Ok,
    ensures
        ({
            let rs = run::rows_of(*op->Skip_input, ctx, m);
            let out = run::rows_of(op, ctx, m)->Ok_0;
            let n = op->Skip_count as int;
            &&& rs is Ok
            &&& out.len() == (if n < rs->Ok_0.len() {
                rs->Ok_0.len() - n
            } else {
                0
            })
            &&& forall|i: int| 0 <= i < out.len() ==> #[trigger] out[i] == rs->Ok_0[n + i]
        }),
{
    lemma_applied(op, *op->Skip_input, ctx, m);
}

/// LIMIT gives the first rows, and no others.
pub proof fn a_plan_limits_as_it_says(op: LogicalOp, ctx: ExecContext, m: Model)
    requires
        op is Limit,
        run::rows_of(op, ctx, m) is Ok,
    ensures
        ({
            let rs = run::rows_of(*op->Limit_input, ctx, m);
            let out = run::rows_of(op, ctx, m)->Ok_0;
            let n = op->Limit_count as int;
            &&& rs is Ok
            &&& out.len() == (if n < rs->Ok_0.len() {
                n
            } else {
                rs->Ok_0.len() as int
            })
            &&& forall|i: int| 0 <= i < out.len() ==> #[trigger] out[i] == rs->Ok_0[i]
        }),
{
    lemma_applied(op, *op->Limit_input, ctx, m);
}

/// The rows are the others without repetitions: each is one of the others, none is like one
/// before it, and each of the others of which none like it came before is among them.
pub open spec fn thinned<T>(rs: Seq<T>, alike: spec_fn(T, T) -> bool, out: Seq<T>) -> bool {
    &&& out.len() <= rs.len()
    &&& forall|i: int| 0 <= i < out.len() ==> rs.contains(#[trigger] out[i])
    &&& forall|i: int, j: int|
        0 <= i < j < out.len() ==> !alike(#[trigger] out[i], #[trigger] out[j])
    &&& forall|i: int|
        0 <= i < rs.len() && (forall|j: int| 0 <= j < i ==> !alike(#[trigger] rs[j], rs[i]))
            ==> out.contains(#[trigger] rs[i])
    &&& forall|i: int|
        0 <= i < rs.len() ==> out.contains(#[trigger] rs[i]) || exists|k: int|
            0 <= k < out.len() && alike(#[trigger] out[k], rs[i])
}

/// Leaving out repetitions keeps the first row of each kind.
pub proof fn the_first_of_a_kind_stays<T>(rs: Seq<T>, alike: spec_fn(T, T) -> bool)
    ensures
        thinned(rs, alike, arrange::unique(rs, alike)),
    decreases rs.len(),
{
    let out = arrange::unique(rs, alike);
    if rs.len() > 0 {
        let t = rs.drop_last();
        let so_far = arrange::unique(t, alike);
        the_first_of_a_kind_stays(t, alike);
        assert forall|i: int| 0 <= i < out.len() implies rs.contains(#[trigger] out[i]) by {
            if i < so_far.len() {
                assert(t.contains(so_far[i]));
                let k = choose|k: int| 0 <= k < t.len() && t[k] == so_far[i];
                assert(rs[k] == out[i]);
            } else {
                assert(rs[rs.len() - 1] == out[i]);
            }
        }
        assert forall|i: int, j: int| 0 <= i < j < out.len() implies !alike(
            #[trigger] out[i],
            #[trigger] out[j],
        ) by {
            arrange::unique_rows_are_unlike(rs, alike, i, j);
        }
        assert forall|i: int|
            0 <= i < rs.len() && (forall|j: int| 0 <= j < i ==> !alike(#[trigger] rs[j], rs[i])) implies out.contains(
        #[trigger] rs[i]) by {
            if i < t.len() {
                assert forall|j: int| 0 <= j < i implies !alike(#[trigger] t[j], t[i]) by {
                    assert(!alike(rs[j], rs[i]));
                }
                assert(so_far.contains(t[i]));
                let k = choose|k: int| 0 <= k < so_far.len() && so_far[k] == t[i];
                assert(out[k] == rs[i]);
            } else {
                if arrange::known(so_far, rs.last(), alike) {
                    let k = choose|k: int|
                        0 <= k < so_far.len() && alike(#[trigger] so_far[k], rs.last());
                    assert(t.contains(so_far[k]));
                    let j = choose|j: int| 0 <= j < t.len() && t[j] == so_far[k];
                    assert(!alike(rs[j], rs[i]));
                }
                assert(out[so_far.len() as int] == rs[i]);
            }
        }
        assert forall|i: int| 0 <= i < rs.len() implies out.contains(#[trigger] rs[i]) || exists|k: int|
            0 <= k < out.len() && alike(#[trigger] out[k], rs[i]) by {
            arrange::unique_rows_miss_none(rs, alike, i);
            if !out.contains(rs[i]) {
                let k = choose|k: int| 0 <= k < out.len() && alike(#[trigger] out[k], rs[i]);
                assert(alike(out[k], rs[i]));
            }
        }
    }
}

/// DISTINCT keeps the first of several equal rows, and drops no other.
pub proof fn a_plan_drops_repetitions(op: LogicalOp, ctx: ExecContext, m: Model)
    requires
        op is Distinct,
        run::rows_of(op, ctx, m) is Ok,
    ensures
        run::rows_of(*op->Distinct_input, ctx, m) is Ok,
        thinned(
            run::rows_of(*op->Distinct_input, ctx, m)->Ok_0,
            |a: Row, b: Row| order::same_entries(a, b),
            run::rows_of(op, ctx, m)->Ok_0,
        ),
{
    lemma_applied(op, *op->Distinct_input, ctx, m);
    let rs = run::rows_of(*op->Distinct_input, ctx, m)->Ok_0;
    the_first_of_a_kind_stays(rs, arrange::alike(true));
    assert(arrange::alike(true) =~= (|a: Row, b: Row| order::same_entries(a, b)));
}

/// The rows of the plans of a union, one plan after the other.
proof fn lemma_all_parts(ops: Seq<LogicalOp>, n: int, ctx: ExecContext, m: Model) -> (parts: Seq<
    Seq<Row>,
>)
    requires
        0 <= n <= ops.len(),
        run::rows_of_all(ops, n, ctx, m) is Ok,
    ensures
        parts.len() == n,
        run::rows_of_all(ops, n, ctx, m)->Ok_0 == join_laws::strung(parts),
        forall|i: int|
            0 <= i < n ==> run::rows_of(ops[i], ctx, m) == Ok::<Seq<Row>, ErrorView>(
                #[trigger] parts[i],
            ),
    decreases n,
{
    if n == 0 {
        Seq::empty()
    } else {
        let done = lemma_all_parts(ops, n - 1, ctx, m);
        let parts = done.push(run::rows_of(ops[n - 1], ctx, m)->Ok_0);
        assert(parts.drop_last() =~= done);
        assert forall|i: int| 0 <= i < n implies run::rows_of(ops[i], ctx, m) == Ok::<
            Seq<Row>,
            ErrorView,
        >(#[trigger] parts[i]) by {
            if i < n - 1 {
                assert(parts[i] == done[i]);
            }
        }
        parts
    }
}

/// UNION ALL gives the rows of each plan, one plan after the other; UNION gives them without
/// repetitions, full-text scores aside.
pub proof fn a_plan_unites_as_it_says(op: LogicalOp, ctx: ExecContext, m: Model) -> (parts: Seq<
    Seq<Row>,
>)
    requires
        op is Union,
        run::rows_of(op, ctx, m) is Ok,
    ensures
        parts.len() == op->Union_inputs@.len(),
        forall|i: int|
            0 <= i < parts.len() ==> run::rows_of(op->Union_inputs@[i], ctx, m) == Ok::<
                Seq<Row>,
                ErrorView,
            >(#[trigger] parts[i]),
        op->Union_all ==> run::rows_of(op, ctx, m)->Ok_0 == join_laws::strung(parts),
        !op->Union_all ==> thinned(
            join_laws::strung(parts),
            |a: Row, b: Row| binding::same_unscored(a, b),
            run::rows_of(op, ctx, m)->Ok_0,
        ),
{
    let ops = op->Union_inputs@;
    let parts = lemma_all_parts(ops, ops.len() as int, ctx, m);
    if !op->Union_all {
        the_first_of_a_kind_stays(join_laws::strung(parts), arrange::alike(false));
        assert(arrange::alike(false) =~= (|a: Row, b: Row|
            binding::same_unscored(a, b)));
    }
    parts
}

/// The value is bound as it is, not spread over fields.
pub open spec fn plain_item(v: ValueView) -> bool {
    !(v is Node) && !(v is Edge)
}

/// The rows that UNWIND makes of a row and a list: one for each item, in their order, with the
/// item under the variable and all else as before.
pub open spec fn unwound_to(rec: Row, items: Seq<ValueView>, alias: Seq<char>, out: Seq<Row>) -> bool {
    &&& out.len() == items.len()
    &&& forall|i: int, k: Seq<char>|
        #![trigger assoc::lookup(out[i], k)]
        0 <= i < items.len() && plain_item(items[i]) ==> assoc::lookup(out[i], k) == (if k
            == alias {
            Some(items[i])
        } else {
            assoc::lookup(rec, k)
        })
    &&& forall|i: int|
        0 <= i < items.len() && items[i] is Node && tidy_node(items[i]->Node_0, alias)
            ==> assoc::lookup(#[trigger] out[i], alias + "."@ + "__id"@) == Some(
            ValueView::I64(items[i]->Node_0.id.0 as i64),
        )
}

/// The properties of a node have plain names, none twice, and so have its fields in a row.
pub open spec fn tidy_node(n: NodeView, alias: Seq<char>) -> bool {
    &&& binding_laws::plain_keys(n.properties)
    &&& assoc::distinct(assoc::keys(n.properties))
    &&& assoc::distinct(assoc::keys(binding::node_row(Row::empty(), n, alias)))
}

/// UNWIND of a list gives a row for each of its items.
pub proof fn each_item_gives_a_row(rec: Row, items: Seq<ValueView>, alias: Seq<char>, m: Model)
    ensures
        read::unwound(rec, ValueView::List(items), alias, m) is Ok,
        unwound_to(
            rec,
            items,
            alias,
            read::unwound(rec, ValueView::List(items), alias, m)->Ok_0,
        ),
{
    let out = read::unwound(rec, ValueView::List(items), alias, m)->Ok_0;
    assert forall|i: int, k: Seq<char>|
        #![trigger assoc::lookup(out[i], k)]
        0 <= i < items.len() && plain_item(items[i]) implies assoc::lookup(out[i], k) == (if k
        == alias {
        Some(items[i])
    } else {
        assoc::lookup(rec, k)
    }) by {
        assoc::lemma_lookup_put(rec, alias, items[i], k);
    }
    assert forall|i: int|
        0 <= i < items.len() && items[i] is Node && tidy_node(
            items[i]->Node_0,
            alias,
        ) implies assoc::lookup(#[trigger] out[i], alias + "."@ + "__id"@) == Some(
        ValueView::I64(items[i]->Node_0.id.0 as i64),
    ) by {
        let n = items[i]->Node_0;
        row_laws::a_bound_node_is_in_the_row(Row::empty(), n, alias, alias, alias);
        row_laws::overlaying_takes_and_keeps(
            rec,
            binding::node_row(Row::empty(), n, alias),
            alias + "."@ + "__id"@,
        );
    }
}

/// The rows that UNWIND makes of one row: one for each item of its list, none where the
/// expression is null there. Anything but a list or null fails.
pub open spec fn unwound_part(rec: Row, e: ExprView, alias: Seq<char>, m: Model, part: Seq<Row>) -> bool {
    match (m.eval)(e, rec) {
        Ok(ValueView::List(items)) => unwound_to(rec, items, alias, part),
        Ok(ValueView::Null) => part.len() == 0,
        _ => false,
    }
}

/// UNWIND goes through rows in turn.
pub proof fn rows_are_unwound_in_turn(rs: Seq<Row>, e: ExprView, alias: Seq<char>, m: Model) -> (parts:
    Seq<Seq<Row>>)
    requires
        read::unwound_rows(rs, e, alias, m) is Ok,
    ensures
        parts.len() == rs.len(),
        read::unwound_rows(rs, e, alias, m)->Ok_0 == join_laws::strung(parts),
        forall|i: int|
            0 <= i < rs.len() ==> unwound_part(rs[i], e, alias, m, #[trigger] parts[i]),
{
    let f = |rec: Row| read::unwound_expr(rec, e, alias, m);
    let parts = lemma_gathered_parts(rs, f);
    assert forall|i: int| 0 <= i < rs.len() implies unwound_part(
        rs[i],
        e,
        alias,
        m,
        #[trigger] parts[i],
    ) by {
        assert(f(rs[i]) == Ok::<Seq<Row>, ErrorView>(parts[i]));
        if let Ok(ValueView::List(items)) = (m.eval)(e, rs[i]) {
            each_item_gives_a_row(rs[i], items, alias, m);
        }
    }
    parts
}

/// UNWIND in a plan goes through the rows of its input in turn.
pub proof fn a_plan_unwinds_as_it_says(op: LogicalOp, ctx: ExecContext, m: Model)
    requires
        op is Unwind,
        run::rows_of(op, ctx, m) is Ok,
    ensures
        run::rows_of(*op->Unwind_input, ctx, m) is Ok,
        run::rows_of(op, ctx, m) == read::unwound_rows(
            run::rows_of(*op->Unwind_input, ctx, m)->Ok_0,
            op->Unwind_expr@,
            op->Unwind_alias@,
            m,
        ),
{
    lemma_applied(op, *op->Unwind_input, ctx, m);
}

/// The part that each row gives.
proof fn lemma_gathered_parts(rs: Seq<Row>, f: spec_fn(Row) -> Result<Seq<Row>, ErrorView>) -> (parts:
    Seq<Seq<Row>>)
    requires
        flow::each(rs, f) is Ok,
    ensures
        parts.len() == rs.len(),
        flow::each(rs, f)->Ok_0 == join_laws::strung(parts),
        forall|i: int|
            0 <= i < rs.len() ==> f(rs[i]) == Ok::<Seq<Row>, ErrorView>(#[trigger] parts[i]),
    decreases rs.len(),
{
    if rs.len() == 0 {
        Seq::empty()
    } else {
        let t = rs.drop_last();
        let done = lemma_gathered_parts(t, f);
        let parts = done.push(f(rs.last())->Ok_0);
        assert(parts.drop_last() =~= done);
        assert forall|i: int| 0 <= i < rs.len() implies f(rs[i]) == Ok::<Seq<Row>, ErrorView>(
            #[trigger] parts[i],
        ) by {
            if i < t.len() {
                assert(parts[i] == done[i]);
                assert(t[i] == rs[i]);
            }
        }
        parts
    }
}

/// The column of an item.
pub open spec fn column_of(item: ReturnItemView, m: Model) -> Seq<char> {
    match item.alias {
        Some(a) => a,
        None => match item.expr.kind {
            ExprKindView::Variable(var) => var,
            _ => (m.column_name)(item.expr),
        },
    }
}

/// The item is an expression, neither a bare variable nor a star.
pub open spec fn computes(item: ReturnItemView) -> bool {
    !(item.expr.kind is Star) && !(item.expr.kind is Variable)
}

/// The item leaves a column alone.
pub open spec fn leaves(item: ReturnItemView, emit: bool, m: Model, col: Seq<char>) -> bool {
    &&& !(item.expr.kind is Star)
    &&& column_of(item, m) != col
    &&& item.expr.kind is Variable && !emit ==> !text::begins(col, column_of(item, m) + "."@)
}

/// Fields that are carried over begin with their new beginning.
proof fn lemma_carried_begin(s: Row, from: Seq<char>, to: Seq<char>)
    ensures
        forall|i: int|
            0 <= i < record::carried(s, from, to).len() ==> text::begins(
                (#[trigger] record::carried(s, from, to)[i]).0,
                to,
            ),
    decreases s.len(),
{
    if s.len() > 0 {
        let t = s.drop_last();
        lemma_carried_begin(t, from, to);
        let c = record::carried(s, from, to);
        let so_far = record::carried(t, from, to);
        assert forall|i: int| 0 <= i < c.len() implies text::begins((#[trigger] c[i]).0, to) by {
            if i < so_far.len() {
                assert(c[i] == so_far[i]);
            } else {
                assert(c[i].0.take(to.len() as int) =~= to);
            }
        }
    }
}

/// An item that leaves a column alone does.
proof fn lemma_item_leaves(p: Row, rec: Row, item: ReturnItemView, emit: bool, m: Model, col: Seq<char>)
    requires
        leaves(item, emit, m, col),
        project::put_item(p, rec, item, emit, m) is Ok,
    ensures
        assoc::lookup(project::put_item(p, rec, item, emit, m)->Ok_0, col) == assoc::lookup(p, col),
{
    let c = column_of(item, m);
    match item.expr.kind {
        ExprKindView::Variable(var) => {
            if emit {
                assert forall|v: ValueView| assoc::lookup(#[trigger] assoc::put(p, c, v), col)
                    == assoc::lookup(p, col) by {
                    assoc::lemma_lookup_put(p, c, v, col);
                }
            } else {
                let fields = record::carried(rec, var + "."@, c + "."@);
                let spread = record::put_all(p, fields);
                lemma_carried_begin(rec, var + "."@, c + "."@);
                binding_laws::lemma_put_all_other(p, fields, col);
                assert forall|v: ValueView| assoc::lookup(#[trigger] assoc::put(spread, c, v), col)
                    == assoc::lookup(spread, col) by {
                    assoc::lemma_lookup_put(spread, c, v, col);
                }
            }
        },
        _ => {
            assert forall|v: ValueView| assoc::lookup(#[trigger] assoc::put(p, c, v), col)
                == assoc::lookup(p, col) by {
                assoc::lemma_lookup_put(p, c, v, col);
            }
        },
    }
}

/// The row holds nothing yet for the expression of an item.
pub open spec fn nothing_held(rec: Row, item: ReturnItemView, m: Model) -> bool {
    let own = (m.column_name)(item.expr);
    let col = column_of(item, m);
    assoc::lookup(rec, col + "."@ + "__id"@) is Some || (assoc::lookup(rec, own) is None && (col
        == own || !plan::aggregate_call(item.expr) || assoc::lookup(rec, col) is None))
}

/// Each column of a projected row holds the value of its item: what the row held already under
/// the expression's own name, as for an aggregate that was computed before, or else what the
/// expression evaluates to on the row. Of several items with one column the last counts.
pub proof fn each_column_holds_its_value(
    rec: Row,
    items: Seq<ReturnItemView>,
    emit: bool,
    m: Model,
    i: int,
)
    requires
        project::projected(rec, items, emit, m) is Ok,
        0 <= i < items.len(),
        computes(items[i]),
        forall|j: int|
            i < j < items.len() ==> leaves(#[trigger] items[j], emit, m, column_of(items[i], m)),
    ensures
        nothing_held(rec, items[i], m) ==> ((m.eval)(items[i].expr, rec) is Ok && assoc::lookup(
            project::projected(rec, items, emit, m)->Ok_0,
            column_of(items[i], m),
        ) == Some((m.eval)(items[i].expr, rec)->Ok_0)),
        assoc::lookup(rec, column_of(items[i], m) + "."@ + "__id"@) is None && assoc::lookup(
            rec,
            (m.column_name)(items[i].expr),
        ) is Some ==> assoc::lookup(
            project::projected(rec, items, emit, m)->Ok_0,
            column_of(items[i], m),
        ) == assoc::lookup(rec, (m.column_name)(items[i].expr)),
    decreases items.len(),
{
    let t = items.drop_last();
    let p = project::projected(rec, t, emit, m)->Ok_0;
    let col = column_of(items[i], m);
    if i < t.len() {
        assert(t[i] == items[i]);
        assert forall|j: int| i < j < t.len() implies leaves(
            #[trigger] t[j],
            emit,
            m,
            column_of(t[i], m),
        ) by {
            assert(leaves(items[j], emit, m, column_of(items[i], m)));
        }
        each_column_holds_its_value(rec, t, emit, m, i);
        assert(leaves(items[items.len() - 1], emit, m, col));
        lemma_item_leaves(p, rec, items.last(), emit, m, col);
    } else {
        assert(items.last() == items[i]);
        assert forall|v: ValueView| assoc::lookup(#[trigger] assoc::put(p, col, v), col) == Some(v) by {
            assoc::lemma_lookup_put(p, col, v, col);
        }
    }
}

/// A projected variable holds the whole of what it is bound to at the end of a query.
pub proof fn a_projected_variable_holds_the_whole(
    rec: Row,
    items: Seq<ReturnItemView>,
    m: Model,
    i: int,
    v: ValueView,
)
    requires
        project::projected(rec, items, true, m) is Ok,
        0 <= i < items.len(),
        items[i].expr.kind is Variable,
        binding::compound(rec, items[i].expr.kind->Variable_0) == Some(v),
        forall|j: int|
            i < j < items.len() ==> leaves(#[trigger] items[j], true, m, column_of(items[i], m)),
    ensures
        assoc::lookup(
            project::projected(rec, items, true, m)->Ok_0,
            column_of(items[i], m),
        ) == Some(v),
    decreases items.len(),
{
    let t = items.drop_last();
    let p = project::projected(rec, t, true, m)->Ok_0;
    let col = column_of(items[i], m);
    if i < t.len() {
        assert(t[i] == items[i]);
        assert forall|j: int| i < j < t.len() implies leaves(
            #[trigger] t[j],
            true,
            m,
            column_of(t[i], m),
        ) by {
            assert(leaves(items[j], true, m, column_of(items[i], m)));
        }
        a_projected_variable_holds_the_whole(rec, t, m, i, v);
        assert(leaves(items[items.len() - 1], true, m, col));
        lemma_item_leaves(p, rec, items.last(), true, m, col);
    } else {
        assert(items.last() == items[i]);
        assoc::lemma_lookup_put(p, col, v, col);
    }
}

/// A variable that is handed on keeps its fields, under its new name: what the row held of the
/// variable is there under the column.
pub proof fn a_variable_handed_on_keeps_its_fields(
    rec: Row,
    item: ReturnItemView,
    m: Model,
    name: Seq<char>,
)
    requires
        item.expr.kind is Variable,
        assoc::distinct(assoc::keys(rec)),
        project::projected(rec, seq![item], false, m) is Ok,
        assoc::lookup(rec, item.expr.kind->Variable_0) is Some,
    ensures
        ({
            let var = item.expr.kind->Variable_0;
            let col = column_of(item, m);
            let p = project::projected(rec, seq![item], false, m)->Ok_0;
            &&& assoc::lookup(p, col) == assoc::lookup(rec, var)
            &&& assoc::lookup(p, col + "."@ + name) == assoc::lookup(rec, var + "."@ + name)
        }),
{
    let var = item.expr.kind->Variable_0;
    let col = column_of(item, m);
    let items = seq![item];
    assert(items.drop_last() =~= Seq::<ReturnItemView>::empty());
    assert(project::projected(rec, items.drop_last(), false, m) == Ok::<Row, ErrorView>(
        Row::empty(),
    ));
    let fields = record::carried(rec, var + "."@, col + "."@);
    let spread = record::put_all(Row::empty(), fields);
    let v = assoc::lookup(rec, var)->0;
    let k = col + "."@ + name;
    reveal_strlit(".");
    assert(k != col) by {
        assert(k.len() > col.len());
    }
    assoc::lemma_lookup_put(spread, col, v, col);
    assoc::lemma_lookup_put(spread, col, v, k);
    lemma_carried_reads(rec, var + "."@, col + "."@, name);
    row_laws::overlaying_takes_and_keeps(Row::empty(), fields, k);
    row_laws::only_bound_names_read(Row::empty(), k);
}

/// A field that begins so is carried over under its new beginning.
proof fn lemma_carried_reads(s: Row, from: Seq<char>, to: Seq<char>, name: Seq<char>)
    requires
        assoc::distinct(assoc::keys(s)),
    ensures
        assoc::distinct(assoc::keys(record::carried(s, from, to))),
        assoc::lookup(record::carried(s, from, to), to + name) == assoc::lookup(s, from + name),
        forall|i: int|
            0 <= i < record::carried(s, from, to).len() ==> exists|j: int|
                0 <= j < s.len() && (#[trigger] s[j]).0 == from + (#[trigger] record::carried(
                    s,
                    from,
                    to,
                )[i]).0.skip(to.len() as int),
    decreases s.len(),
{
    let k = to + name;
    let c = record::carried(s, from, to);
    if s.len() > 0 {
        let t = s.drop_last();
        let e = s.last();
        assert(assoc::distinct(assoc::keys(t))) by {
            assert forall|i: int, j: int| 0 <= i < j < t.len() implies #[trigger] assoc::keys(t)[i]
                != #[trigger] assoc::keys(t)[j] by {
                assert(assoc::keys(s)[i] != assoc::keys(s)[j]);
            }
        }
        lemma_carried_reads(t, from, to, name);
        lemma_carried_begin(t, from, to);
        let so_far = record::carried(t, from, to);
        assert(t.push(e) =~= s);
        row_laws::lemma_lookup_push(t, e, from + name);
        assert forall|i: int| 0 <= i < c.len() implies exists|j: int|
            0 <= j < s.len() && (#[trigger] s[j]).0 == from + (#[trigger] c[i]).0.skip(
                to.len() as int,
            ) by {
            if i < so_far.len() {
                assert(c[i] == so_far[i]);
                let j = choose|j: int|
                    0 <= j < t.len() && (#[trigger] t[j]).0 == from + so_far[i].0.skip(
                        to.len() as int,
                    );
                assert(s[j].0 == from + c[i].0.skip(to.len() as int));
            } else {
                let rest = text::after(e.0, from)->0;
                assert(from + rest =~= e.0);
                assert((to + rest).skip(to.len() as int) =~= rest);
                assert(s[s.len() - 1].0 == from + c[i].0.skip(to.len() as int));
            }
        }
        match text::after(e.0, from) {
            Some(rest) => {
                assert(from + rest =~= e.0);
                row_laws::lemma_lookup_push(so_far, (to + rest, e.1), k);
                if to + rest == k {
                    assert((to + rest).skip(to.len() as int) =~= rest);
                    assert(k.skip(to.len() as int) =~= name);
                }
                if e.0 == from + name {
                    assert((from + rest).skip(from.len() as int) =~= rest);
                    assert((from + name).skip(from.len() as int) =~= name);
                }
                assert forall|i: int, j: int| 0 <= i < j < c.len() implies #[trigger] assoc::keys(
                    c,
                )[i] != #[trigger] assoc::keys(c)[j] by {
                    if j < so_far.len() {
                        assert(assoc::keys(so_far)[i] != assoc::keys(so_far)[j]);
                    } else {
                        assert(c[i] == so_far[i]);
                        let x = choose|x: int|
                            0 <= x < t.len() && (#[trigger] t[x]).0 == from + so_far[i].0.skip(
                                to.len() as int,
                            );
                        assert(assoc::keys(s)[x] != assoc::keys(s)[s.len() - 1]);
                        if c[i].0 == to + rest {
                            assert((to + rest).skip(to.len() as int) =~= rest);
                        }
                    }
                }
            },
            None => {
                if e.0 == from + name {
                    assert((from + name).take(from.len() as int) =~= from);
                }
            },
        }
    } else {
        row_laws::only_bound_names_read(s, from + name);
        row_laws::only_bound_names_read(c, k);
    }
}

/// A projection of a plan gives one row for each row of its input, in their order: the row of
/// the columns of its items.
pub proof fn a_plan_projects_as_it_says(op: LogicalOp, ctx: ExecContext, m: Model)
    requires
        op is Project,
        run::rows_of(op, ctx, m) is Ok,
    ensures
        ({
            let rs = run::rows_of(*op->Project_input, ctx, m);
            let out = run::rows_of(op, ctx, m)->Ok_0;
            &&& rs is Ok
            &&& out.len() == rs->Ok_0.len()
            &&& forall|i: int|
                0 <= i < out.len() ==> project::projected(
                    rs->Ok_0[i],
                    ast_model::return_items_view(op->Project_items@),
                    op->Project_emit_compound,
                    m,
                ) == Ok::<Row, ErrorView>(#[trigger] out[i])
        }),
{
    lemma_applied(op, *op->Project_input, ctx, m);
    let rs = run::rows_of(*op->Project_input, ctx, m)->Ok_0;
    let out = run::rows_of(op, ctx, m)->Ok_0;
    let items = ast_model::return_items_view(op->Project_items@);
    let emit = op->Project_emit_compound;
    let f = |rec: Row| project::projected_one(rec, items, emit, m);
    let g = |rec: Row| project::projected(rec, items, emit, m)->Ok_0;
    assert forall|i: int| 0 <= i < rs.len() implies f(#[trigger] rs[i]) == Ok::<
        Seq<Row>,
        ErrorView,
    >(seq![g(rs[i])]) && project::projected(rs[i], items, emit, m) is Ok by {
        flow_laws::nothing_given_is_lost(rs, f, i);
    }
    flow_laws::one_each_is_place_by_place(rs, f, g);
    assert forall|i: int| 0 <= i < out.len() implies project::projected(rs[i], items, emit, m)
        == Ok::<Row, ErrorView>(#[trigger] out[i]) by {
        assert(out[i] == g(rs[i]));
        assert(f(rs[i]) == Ok::<Seq<Row>, ErrorView>(seq![g(rs[i])]));
    }
}

} // verus!
