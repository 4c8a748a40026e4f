//! Grouping parts the rows, and gives a row for each part.
use super::aggregate;
use super::flow_laws;
use super::group;
use super::group::GroupView;
use super::run;
use crate::assoc;
use crate::ast_model;
use crate::ast_model::ExprView;
use crate::order;
use crate::plan::{AggregateExpr, ExecContext, LogicalOp};
use crate::record;
use crate::record::Row;
use crate::row_laws;
use crate::source::Model;
use crate::types::ErrorView;
use crate::value::ValueView;
use vstd::prelude::*;

verus! {

/// The value of a group key on a row; null where it cannot be computed.
pub open spec fn key_on(e: ExprView, rec: Row, m: Model) -> ValueView {
    match (m.eval)(e, rec) {
        Ok(v) => v,
        Err(_) => ValueView::Null,
    }
}

/// The row has the keys of a group.
pub open spec fn has_the_keys(rec: Row, g: GroupView, keys: Seq<ExprView>, m: Model) -> bool {
    &&& g.keys.len() == keys.len()
    &&& forall|k: int|
        0 <= k < keys.len() ==> (order::same(#[trigger] g.keys[k], key_on(keys[k], rec, m))
            || g.keys[k] == key_on(keys[k], rec, m))
}

/// How many rows the groups hold.
pub open spec fn held(gs: Seq<GroupView>) -> nat
    decreases gs.len(),
{
    if gs.len() == 0 {
        0
    } else {
        held(gs.drop_last()) + gs.last().rows.len()
    }
}

/// The place of the first group with the keys.
proof fn lemma_place(gs: Seq<GroupView>, keys: Seq<ValueView>)
    ensures
        group::group_place(gs, keys) <= gs.len(),
        group::group_place(gs, keys) < gs.len() ==> order::same_list(
            gs[group::group_place(gs, keys) as int].keys,
            keys,
        ),
        forall|j: int|
            0 <= j < group::group_place(gs, keys) ==> !order::same_list(
                (#[trigger] gs[j]).keys,
                keys,
            ),
    decreases gs.len(),
{
    if gs.len() > 0 && !order::same_list(gs[0].keys, keys) {
        let rest = gs.drop_first();
        lemma_place(rest, keys);
        assert forall|j: int| 0 <= j < group::group_place(gs, keys) implies !order::same_list(
            (#[trigger] gs[j]).keys,
            keys,
        ) by {
            if j > 0 {
                assert(rest[j - 1] == gs[j]);
            }
        }
    }
}

/// One group holds one row more.
proof fn lemma_held_update(gs: Seq<GroupView>, i: int, rec: Row)
    requires
        0 <= i < gs.len(),
    ensures
        held(
            gs.update(i, GroupView { keys: gs[i].keys, rows: gs[i].rows.push(rec) }),
        ) == held(gs) + 1,
    decreases gs.len(),
{
    let t = gs.update(i, GroupView { keys: gs[i].keys, rows: gs[i].rows.push(rec) });
    if i < gs.len() - 1 {
        lemma_held_update(gs.drop_last(), i, rec);
        assert(t.drop_last() =~= gs.drop_last().update(
            i,
            GroupView { keys: gs[i].keys, rows: gs[i].rows.push(rec) },
        ));
    } else {
        assert(t.drop_last() =~= gs.drop_last());
    }
}

/// Groups part the rows: each row is in a group, the groups hold as many rows as there are, each
/// row of a group has its keys, no group is empty, and no two groups have equal keys.
pub proof fn groups_part_the_rows(rs: Seq<Row>, keys: Seq<ExprView>, m: Model)
    ensures
        ({
            let gs = group::grouped(rs, keys, m);
            &&& held(gs) == rs.len()
            &&& forall|i: int|
                0 <= i < rs.len() ==> exists|g: int|
                    0 <= g < gs.len() && (#[trigger] gs[g]).rows.contains(#[trigger] rs[i])
            &&& forall|g: int| 0 <= g < gs.len() ==> (#[trigger] gs[g]).rows.len() > 0
            &&& forall|g: int, j: int|
                0 <= g < gs.len() && 0 <= j < gs[g].rows.len() ==> has_the_keys(
                    #[trigger] gs[g].rows[j],
                    gs[g],
                    keys,
                    m,
                ) && rs.contains(gs[g].rows[j])
            &&& forall|g: int, h: int|
                0 <= g < h < gs.len() ==> !order::same_list(
                    (#[trigger] gs[g]).keys,
                    (#[trigger] gs[h]).keys,
                )
        }),
    decreases rs.len(),
{
    let gs = group::grouped(rs, keys, m);
    if rs.len() > 0 {
        let t = rs.drop_last();
        groups_part_the_rows(t, keys, m);
        let old_gs = group::grouped(t, keys, m);
        let rec = rs.last();
        let own = group::keys_of(rec, keys, m);
        lemma_place(old_gs, own);
        let at = group::group_place(old_gs, own) as int;
        assert(rs[rs.len() - 1] == rec);
        if at < old_gs.len() {
            lemma_held_update(old_gs, at, rec);
            assert(gs[at].rows[old_gs[at].rows.len() as int] == rec);
        } else {
            assert(gs.drop_last() =~= old_gs);
            assert(gs[at].rows[0] == rec);
        }
        assert(gs[at].rows.contains(rec));
        assert forall|i: int| 0 <= i < rs.len() implies exists|g: int|
            0 <= g < gs.len() && (#[trigger] gs[g]).rows.contains(#[trigger] rs[i]) by {
            if i < t.len() {
                assert(t[i] == rs[i]);
                let g = choose|g: int|
                    0 <= g < old_gs.len() && (#[trigger] old_gs[g]).rows.contains(t[i]);
                let j = choose|j: int| 0 <= j < old_gs[g].rows.len() && old_gs[g].rows[j] == t[i];
                assert(gs[g].rows[j] == rs[i]);
                assert(gs[g].rows.contains(rs[i]));
            }
        }
        assert forall|g: int, j: int|
            0 <= g < gs.len() && 0 <= j < gs[g].rows.len() implies has_the_keys(
            #[trigger] gs[g].rows[j],
            gs[g],
            keys,
            m,
        ) && rs.contains(gs[g].rows[j]) by {
            if g < old_gs.len() && j < old_gs[g].rows.len() {
                assert(gs[g].rows[j] == old_gs[g].rows[j]);
                assert(gs[g].keys == old_gs[g].keys);
                assert(has_the_keys(old_gs[g].rows[j], old_gs[g], keys, m));
                assert(t.contains(old_gs[g].rows[j]));
                let k = choose|k: int| 0 <= k < t.len() && t[k] == old_gs[g].rows[j];
                assert(rs[k] == gs[g].rows[j]);
            } else {
                assert(gs[g].rows[j] == rec);
                assert(g == at);
                if at < old_gs.len() {
                    assert(order::same_list(old_gs[at].keys, own));
                    assert forall|k: int| 0 <= k < keys.len() implies (order::same(
                        #[trigger] gs[g].keys[k],
                        key_on(keys[k], rec, m),
                    ) || gs[g].keys[k] == key_on(keys[k], rec, m)) by {
                        assert(own[k] == key_on(keys[k], rec, m));
                        assert(order::same(old_gs[at].keys[k], own[k]));
                    }
                }
            }
        }
        assert forall|g: int, h: int| 0 <= g < h < gs.len() implies !order::same_list(
            (#[trigger] gs[g]).keys,
            (#[trigger] gs[h]).keys,
        ) by {
            if h < old_gs.len() {
                assert(gs[g].keys == old_gs[g].keys);
                assert(gs[h].keys == old_gs[h].keys);
            } else {
                assert(gs[g].keys == old_gs[g].keys);
            }
        }
    }
}

/// The name is that of a column which an aggregate of the list has.
pub open spec fn aggregate_column(aggs: Seq<AggregateExpr>, inner: bool, m: Model, k: Seq<char>) -> bool {
    exists|i: int| 0 <= i < aggs.len() && group::column_in(#[trigger] aggs[i], inner, m) == k
}

/// A row with aggregates holds the value of each under its column, and all else as before. Of
/// several aggregates with one column the last counts.
pub proof fn aggregates_are_in_the_row(
    base: Row,
    aggs: Seq<AggregateExpr>,
    rs: Seq<Row>,
    inner: bool,
    m: Model,
)
    requires
        group::aggregated_row(base, aggs, rs, inner, m) is Ok,
    ensures
        ({
            let row = group::aggregated_row(base, aggs, rs, inner, m)->Ok_0;
            &&& forall|i: int|
                0 <= i < aggs.len() && (forall|j: int|
                    i < j < aggs.len() ==> group::column_in(#[trigger] aggs[j], inner, m)
                        != group::column_in(aggs[i], inner, m)) ==> (aggregate::aggregate(
                    #[trigger] aggs[i],
                    rs,
                    m,
                ) is Ok && assoc::lookup(row, group::column_in(aggs[i], inner, m)) == Some(
                    aggregate::aggregate(aggs[i], rs, m)->Ok_0,
                ))
            &&& forall|k: Seq<char>|
                !aggregate_column(aggs, inner, m, k) ==> #[trigger] assoc::lookup(row, k)
                    == assoc::lookup(base, k)
        }),
    decreases aggs.len(),
{
    let row = group::aggregated_row(base, aggs, rs, inner, m)->Ok_0;
    if aggs.len() > 0 {
        let t = aggs.drop_last();
        aggregates_are_in_the_row(base, t, rs, inner, m);
        let so_far = group::aggregated_row(base, t, rs, inner, m)->Ok_0;
        let col = group::column_in(aggs.last(), inner, m);
        let v = aggregate::aggregate(aggs.last(), rs, m)->Ok_0;
        let n = aggs.len() - 1;
        assert(aggs[n] == aggs.last());
        assert forall|i: int|
            0 <= i < aggs.len() && (forall|j: int|
                i < j < aggs.len() ==> group::column_in(#[trigger] aggs[j], inner, m)
                    != group::column_in(aggs[i], inner, m)) implies (aggregate::aggregate(
            #[trigger] aggs[i],
            rs,
            m,
        ) is Ok && assoc::lookup(row, group::column_in(aggs[i], inner, m)) == Some(
            aggregate::aggregate(aggs[i], rs, m)->Ok_0,
        )) by {
            assoc::lemma_lookup_put(so_far, col, v, group::column_in(aggs[i], inner, m));
            if i < n {
                assert(group::column_in(aggs[n], inner, m) != group::column_in(aggs[i], inner, m));
                assert(t[i] == aggs[i]);
                assert forall|j: int| i < j < t.len() implies group::column_in(
                    #[trigger] t[j],
                    inner,
                    m,
                ) != group::column_in(t[i], inner, m) by {
                    assert(t[j] == aggs[j]);
                }
            }
        }
        assert forall|k: Seq<char>|
            !aggregate_column(aggs, inner, m, k) implies #[trigger] assoc::lookup(row, k)
            == assoc::lookup(base, k) by {
            assert(group::column_in(aggs[n], inner, m) != k);
            assoc::lemma_lookup_put(so_far, col, v, k);
            assert(!aggregate_column(t, inner, m, k)) by {
                if aggregate_column(t, inner, m, k) {
                    let i = choose|i: int|
                        0 <= i < t.len() && group::column_in(#[trigger] t[i], inner, m) == k;
                    assert(group::column_in(aggs[i], inner, m) == k);
                }
            }
        }
    }
}

/// A column of an aggregate is named by its alias, where it has one.
pub proof fn an_alias_names_the_column(agg: AggregateExpr, inner: bool, m: Model)
    requires
        agg.alias is Some,
    ensures
        group::column_in(agg, inner, m) == agg.alias->0@,
{
}

/// Without group keys there is one row, over all rows; with keys there is one row for each
/// group, in the order of the groups, with the aggregates of the group's rows.
pub proof fn each_group_gives_a_row(
    rs: Seq<Row>,
    keys: Seq<ExprView>,
    aggs: Seq<AggregateExpr>,
    inner: bool,
    m: Model,
)
    requires
        group::aggregated(rs, keys, aggs, inner, m) is Ok,
    ensures
        keys.len() == 0 ==> ({
            let out = group::aggregated(rs, keys, aggs, inner, m)->Ok_0;
            out.len() == 1 && group::aggregated_row(Row::empty(), aggs, rs, inner, m) == Ok::<
                Row,
                ErrorView,
            >(out[0])
        }),
        keys.len() > 0 ==> ({
            let out = group::aggregated(rs, keys, aggs, inner, m)->Ok_0;
            let gs = group::grouped(rs, keys, m);
            out.len() == gs.len() && forall|i: int|
                0 <= i < gs.len() ==> group::aggregated_row(
                    group::key_row(gs[i], keys, keys.len() as int, inner, m),
                    aggs,
                    gs[i].rows,
                    inner,
                    m,
                ) == Ok::<Row, ErrorView>(#[trigger] out[i])
        }),
{
    if keys.len() > 0 {
        let gs = group::grouped(rs, keys, m);
        let f = |g: GroupView| group::group_row(g, keys, aggs, inner, m);
        let h = |g: GroupView|
            group::aggregated_row(
                group::key_row(g, keys, keys.len() as int, inner, m),
                aggs,
                g.rows,
                inner,
                m,
            )->Ok_0;
        assert forall|i: int| 0 <= i < gs.len() implies f(#[trigger] gs[i]) == Ok::<
            Seq<Row>,
            ErrorView,
        >(seq![h(gs[i])]) && group::aggregated_row(
            group::key_row(gs[i], keys, keys.len() as int, inner, m),
            aggs,
            gs[i].rows,
            inner,
            m,
        ) is Ok by {
            flow_laws::nothing_given_is_lost(gs, f, i);
        }
        flow_laws::one_each_is_place_by_place(gs, f, h);
        let out = group::aggregated(rs, keys, aggs, inner, m)->Ok_0;
        assert forall|i: int| 0 <= i < gs.len() implies group::aggregated_row(
            group::key_row(gs[i], keys, keys.len() as int, inner, m),
            aggs,
            gs[i].rows,
            inner,
            m,
        ) == Ok::<Row, ErrorView>(#[trigger] out[i]) by {
            assert(out[i] == h(gs[i]));
            assert(f(gs[i]) == Ok::<Seq<Row>, ErrorView>(seq![h(gs[i])]));
        }
    }
}

/// The row of a group holds each of its keys under the column of the key, where no variable is
/// among the keys and no two keys have one column.
pub proof fn keys_are_in_the_row(
    g: GroupView,
    keys: Seq<ExprView>,
    n: int,
    inner: bool,
    m: Model,
    i: int,
)
    requires
        0 <= i < n <= keys.len(),
        forall|j: int| 0 <= j < n ==> !((#[trigger] keys[j]).kind is Variable),
        forall|j: int|
            i < j < n ==> group::key_column(#[trigger] keys[j], inner, m) != group::key_column(
                keys[i],
                inner,
                m,
            ),
    ensures
        assoc::lookup(
            group::key_row(g, keys, n, inner, m),
            if inner {
                (m.spelled)(keys[i])
            } else {
                (m.column_name)(keys[i])
            },
        ) == Some(g.keys[i]),
    decreases n,
{
    let e = keys[n - 1];
    let so_far = group::key_row(g, keys, n - 1, inner, m);
    assert(!(keys[i].kind is Variable));
    assert(!(keys[n - 1].kind is Variable));
    assoc::lemma_lookup_put(
        so_far,
        group::key_column(e, inner, m),
        g.keys[n - 1],
        group::key_column(keys[i], inner, m),
    );
    if i < n - 1 {
        keys_are_in_the_row(g, keys, n - 1, inner, m, i);
        assert(group::key_column(keys[n - 1], inner, m) != group::key_column(keys[i], inner, m));
    }
}

/// A variable as the only group key keeps its value and the fields of its node or relationship,
/// from the first row of the group.
pub proof fn a_variable_key_keeps_its_fields(
    g: GroupView,
    e: ExprView,
    m: Model,
    name: Seq<char>,
)
    requires
        e.kind is Variable,
        g.keys.len() == 1,
        g.rows.len() > 0,
        assoc::distinct(assoc::keys(g.rows[0])),
        (m.column_name)(e) == e.kind->Variable_0,
    ensures
        ({
            let var = e.kind->Variable_0;
            let row = group::key_row(g, seq![e], 1, false, m);
            &&& assoc::lookup(row, var) == Some(g.keys[0])
            &&& assoc::lookup(g.rows[0], var + "."@ + name) is Some ==> assoc::lookup(
                row,
                var + "."@ + name,
            ) == assoc::lookup(g.rows[0], var + "."@ + name)
        }),
{
    let var = e.kind->Variable_0;
    let keys = seq![e];
    let base = assoc::put(group::key_row(g, keys, 0, false, m), var, g.keys[0]);
    assoc::lemma_lookup_put(group::key_row(g, keys, 0, false, m), var, g.keys[0], var);
    let first = g.rows[0];
    let carried = record::carried(first, var + "."@, var + "."@);
    assert(group::key_row(g, keys, 1, false, m) == record::put_all(base, carried));
    row_laws::carried_fields_keep_their_names(first, var + "."@);
    assert forall|i: int| 0 <= i < carried.len() implies (#[trigger] carried[i]).0 != var by {
        reveal_strlit(".");
        assert(carried[i].0.len() > var.len());
    }
    crate::binding_laws::lemma_put_all_other(base, carried, var);
    let k = var + "."@ + name;
    row_laws::carried_fields_read_alike(first, var + "."@, name);
    row_laws::overlaying_takes_and_keeps(base, carried, k);
}

/// An aggregating operator of a plan groups the rows of its input by its keys, and gives its
/// aggregates.
pub proof fn a_plan_aggregates_as_it_says(op: LogicalOp, ctx: ExecContext, m: Model)
    requires
        op is Aggregate,
        run::rows_of(op, ctx, m) is Ok,
    ensures
        run::rows_of(*op->Aggregate_input, ctx, m) is Ok,
        run::rows_of(op, ctx, m) == group::aggregated(
            run::rows_of(*op->Aggregate_input, ctx, m)->Ok_0,
            Seq::new(op->Aggregate_group_keys@.len(), |i: int| op->Aggregate_group_keys@[i]@),
            op->Aggregate_aggregates@,
            false,
            m,
        ),
{
    assert(run::rows_of(op, ctx, m) == run::applied_to(
        op,
        run::rows_of(*op->Aggregate_input, ctx, m),
        ctx,
        m,
    ));
    assert(ast_model::exprs_view(op->Aggregate_group_keys@) =~= Seq::new(
        op->Aggregate_group_keys@.len(),
        |i: int| op->Aggregate_group_keys@[i]@,
    ));
}

} // verus!
