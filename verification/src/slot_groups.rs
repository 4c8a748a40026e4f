//! Groups and aggregates of rows that are kept by slots.
use crate::assoc;
use crate::ast_model;
use crate::ast_model::{ExprKindView, ExprView};
use crate::binding_laws;
use crate::exec::aggregate;
use crate::exec::flow;
use crate::exec::group;
use crate::exec::group::GroupView;
use crate::iter_slot;
use crate::iter_slot::Names;
use crate::order;
use crate::plan::AggregateExpr;
use crate::record;
use crate::record::Row;
use crate::slot_sight;
use crate::slot_sight::{held, seen};
use crate::source::Model;
use crate::text;
use crate::types::ErrorView;
use crate::value::ValueView;
use vstd::prelude::*;

verus! {

/// What is left of rows when they are kept by slots.
pub open spec fn all_seen(names: Names, rs: Seq<Row>) -> Seq<Row> {
    Seq::new(rs.len(), |i: int| seen(names, rs[i]))
}

/// The slots keep what an expression reads of a row.
pub open spec fn expr_held(names: Names, r: Row, e: ExprView, m: Model) -> bool {
    (m.eval)(e, seen(names, r)) == (m.eval)(e, r)
}

/// The aggregate counts rows and reads nothing of them.
pub open spec fn counts_rows(agg: AggregateExpr) -> bool {
    agg.function is Count && agg.input@.kind == ExprKindView::Star
}

/// The slots keep what an aggregate reads of a row.
pub open spec fn aggregate_held(names: Names, r: Row, agg: AggregateExpr, m: Model) -> bool {
    &&& !counts_rows(agg) ==> expr_held(names, r, agg.input@, m)
    &&& ast_model::opt_expr_view(agg.extra_arg) matches Some(e) ==> expr_held(names, r, e, m)
}

/// A group key takes a field along: the key is a variable, and the field is one of its own.
pub open spec fn takes_along(keys: Seq<ExprView>, k: Seq<char>) -> bool {
    exists|i: int| 0 <= i < keys.len() && #[trigger] takes(keys[i], k)
}

/// A group key takes a field along.
pub open spec fn takes(e: ExprView, k: Seq<char>) -> bool {
    e.kind matches ExprKindView::Variable(v) && text::begins(k, v + "."@)
}

/// The value of a group key on a row.
pub open spec fn key_on(r: Row, e: ExprView, m: Model) -> ValueView {
    match (m.eval)(e, r) {
        Ok(v) => v,
        Err(_) => ValueView::Null,
    }
}

/// The slots keep what group keys read of a row and what they take along. Where a row has nothing
/// in a field that is taken along and has a slot, no key of that name has a value on it.
pub open spec fn keys_held(names: Names, out: Names, r: Row, keys: Seq<ExprView>, m: Model) -> bool {
    &&& forall|i: int| 0 <= i < keys.len() ==> expr_held(names, r, #[trigger] keys[i], m)
    &&& (exists|i: int| 0 <= i < keys.len() && (#[trigger] keys[i]).kind is Variable)
        ==> assoc::distinct(assoc::keys(r))
    &&& forall|k: Seq<char>|
        out.contains(k) && takes_along(keys, k) ==> {
            &&& #[trigger] held(names, r, k)
            &&& names.contains(k) && assoc::lookup(r, k) is None ==> forall|i: int|
                0 <= i < keys.len() && (m.column_name)(#[trigger] keys[i]) == k ==> key_on(
                    r,
                    keys[i],
                    m,
                ) == ValueView::Null
        }
}

/// Each row satisfies a condition.
pub open spec fn all(rs: Seq<Row>, p: spec_fn(Row) -> bool) -> bool {
    forall|i: int| 0 <= i < rs.len() ==> p(#[trigger] rs[i])
}

/// What is seen of the rows but the last.
proof fn lemma_all_seen_front(names: Names, rs: Seq<Row>)
    requires
        rs.len() > 0,
    ensures
        all_seen(names, rs).drop_last() == all_seen(names, rs.drop_last()),
        all_seen(names, rs).last() == seen(names, rs.last()),
{
    assert(all_seen(names, rs).drop_last() =~= all_seen(names, rs.drop_last()));
}

/// Where each row satisfies a condition, so does each but the last.
proof fn lemma_all_front(rs: Seq<Row>, p: spec_fn(Row) -> bool)
    requires
        rs.len() > 0,
        all(rs, p),
    ensures
        all(rs.drop_last(), p),
        p(rs.last()),
{
    let t = rs.drop_last();
    assert forall|i: int| 0 <= i < t.len() implies p(#[trigger] t[i]) by {
        assert(t[i] == rs[i]);
    }
    assert(rs.last() == rs[rs.len() - 1]);
}

/// The values of an expression are the same on what is seen.
proof fn lemma_evaluated(names: Names, rs: Seq<Row>, e: ExprView, m: Model)
    requires
        all(rs, |r: Row| expr_held(names, r, e, m)),
    ensures
        aggregate::evaluated(all_seen(names, rs), e, m) == aggregate::evaluated(rs, e, m),
    decreases rs.len(),
{
    if rs.len() > 0 {
        lemma_all_front(rs, |r: Row| expr_held(names, r, e, m));
        lemma_all_seen_front(names, rs);
        lemma_evaluated(names, rs.drop_last(), e, m);
    }
}

/// As many rows give no null.
proof fn lemma_non_null(names: Names, rs: Seq<Row>, e: ExprView, m: Model)
    requires
        all(rs, |r: Row| expr_held(names, r, e, m)),
    ensures
        aggregate::non_null(all_seen(names, rs), e, m) == aggregate::non_null(rs, e, m),
    decreases rs.len(),
{
    if rs.len() > 0 {
        lemma_all_front(rs, |r: Row| expr_held(names, r, e, m));
        lemma_all_seen_front(names, rs);
        lemma_non_null(names, rs.drop_last(), e, m);
    }
}

/// The first rows for each value are the same.
proof fn lemma_first_of_each(
    names: Names,
    rs: Seq<Row>,
    e: ExprView,
    m: Model,
    p: spec_fn(Row) -> bool,
)
    requires
        all(rs, |r: Row| expr_held(names, r, e, m)),
        all(rs, p),
    ensures
        match aggregate::first_of_each(rs, e, m) {
            Ok((kept, values)) => {
                &&& aggregate::first_of_each(all_seen(names, rs), e, m) == Ok::<
                    (Seq<Row>, Seq<ValueView>),
                    ErrorView,
                >((all_seen(names, kept), values))
                &&& all(kept, p)
            },
            Err(x) => aggregate::first_of_each(all_seen(names, rs), e, m) == Err::<
                (Seq<Row>, Seq<ValueView>),
                ErrorView,
            >(x),
        },
    decreases rs.len(),
{
    if rs.len() > 0 {
        lemma_all_front(rs, |r: Row| expr_held(names, r, e, m));
        lemma_all_front(rs, p);
        lemma_all_seen_front(names, rs);
        lemma_first_of_each(names, rs.drop_last(), e, m, p);
        match aggregate::first_of_each(rs.drop_last(), e, m) {
            Ok((kept, _)) => {
                assert(all_seen(names, kept.push(rs.last())) =~= all_seen(names, kept).push(
                    seen(names, rs.last()),
                ));
                assert(all(kept.push(rs.last()), p));
            },
            Err(_) => {},
        }
    } else {
        assert(all_seen(names, rs) =~= Seq::<Row>::empty());
        assert(all_seen(names, Seq::<Row>::empty()) =~= Seq::<Row>::empty());
    }
}

/// An aggregate has the same value over what is seen of rows.
proof fn lemma_aggregate(names: Names, rs: Seq<Row>, agg: AggregateExpr, m: Model)
    requires
        all(rs, |r: Row| aggregate_held(names, r, agg, m)),
    ensures
        aggregate::aggregate(agg, all_seen(names, rs), m) == aggregate::aggregate(agg, rs, m),
{
    let e = agg.input@;
    let p = |r: Row| aggregate_held(names, r, agg, m);
    let q = |r: Row| expr_held(names, r, e, m);
    if counts_rows(agg) {
        assert(aggregate::effective(rs, e, agg.distinct, m) == Ok::<Seq<Row>, ErrorView>(rs));
    } else {
        assert forall|i: int| 0 <= i < rs.len() implies q(#[trigger] rs[i]) by {
            assert(p(rs[i]));
        }
        if agg.distinct && e.kind != ExprKindView::Star {
            lemma_first_of_each(names, rs, e, m, p);
        }
        match aggregate::effective(rs, e, agg.distinct, m) {
            Ok(kept) => {
                assert(all(kept, p));
                assert forall|i: int| 0 <= i < kept.len() implies q(#[trigger] kept[i]) by {
                    assert(p(kept[i]));
                }
                lemma_evaluated(names, kept, e, m);
                lemma_non_null(names, kept, e, m);
                match ast_model::opt_expr_view(agg.extra_arg) {
                    Some(x) => {
                        if kept.len() > 0 {
                            assert(p(kept[0]));
                            assert(all_seen(names, kept)[0] == seen(names, kept[0]));
                        }
                    },
                    None => {},
                }
            },
            Err(_) => {},
        }
    }
}

/// What is left of a group when its rows are kept by slots.
pub open spec fn group_seen(names: Names, g: GroupView) -> GroupView {
    GroupView { keys: g.keys, rows: all_seen(names, g.rows) }
}

/// What is left of groups.
pub open spec fn groups_seen(names: Names, gs: Seq<GroupView>) -> Seq<GroupView> {
    Seq::new(gs.len(), |i: int| group_seen(names, gs[i]))
}

/// The groups are told apart by their keys alone.
proof fn lemma_group_place(names: Names, gs: Seq<GroupView>, keys: Seq<ValueView>)
    ensures
        group::group_place(groups_seen(names, gs), keys) == group::group_place(gs, keys),
    decreases gs.len(),
{
    let ts = groups_seen(names, gs);
    if gs.len() > 0 && !order::same_list(gs[0].keys, keys) {
        assert(ts.drop_first() =~= groups_seen(names, gs.drop_first()));
        lemma_group_place(names, gs.drop_first(), keys);
    }
}

/// Each group has rows that satisfy a condition, and the keys of its first row.
pub open spec fn sound_groups(
    gs: Seq<GroupView>,
    keys: Seq<ExprView>,
    p: spec_fn(Row) -> bool,
    m: Model,
) -> bool {
    forall|i: int|
        0 <= i < gs.len() ==> {
            &&& (#[trigger] gs[i]).rows.len() > 0
            &&& gs[i].keys == group::keys_of(gs[i].rows[0], keys, m)
            &&& all(gs[i].rows, p)
        }
}

/// The keys of what is seen of a row are those of the row.
proof fn lemma_keys(names: Names, r: Row, keys: Seq<ExprView>, m: Model)
    requires
        forall|i: int| 0 <= i < keys.len() ==> expr_held(names, r, #[trigger] keys[i], m),
    ensures
        group::keys_of(seen(names, r), keys, m) == group::keys_of(r, keys, m),
{
    assert forall|i: int| 0 <= i < keys.len() implies #[trigger] group::keys_of(
        seen(names, r),
        keys,
        m,
    )[i] == group::keys_of(r, keys, m)[i] by {
        assert(expr_held(names, r, keys[i], m));
    }
    assert(group::keys_of(seen(names, r), keys, m) =~= group::keys_of(r, keys, m));
}

/// The groups of what is seen of rows are what is seen of the groups.
proof fn lemma_grouped(
    names: Names,
    rs: Seq<Row>,
    keys: Seq<ExprView>,
    m: Model,
    p: spec_fn(Row) -> bool,
)
    requires
        all(rs, p),
        forall|r: Row, i: int|
            p(r) && 0 <= i < keys.len() ==> #[trigger] expr_held(names, r, keys[i], m),
    ensures
        group::grouped(all_seen(names, rs), keys, m) == groups_seen(
            names,
            group::grouped(rs, keys, m),
        ),
        sound_groups(group::grouped(rs, keys, m), keys, p, m),
    decreases rs.len(),
{
    if rs.len() > 0 {
        lemma_all_front(rs, p);
        lemma_all_seen_front(names, rs);
        lemma_grouped(names, rs.drop_last(), keys, m, p);
        let gs = group::grouped(rs.drop_last(), keys, m);
        let r = rs.last();
        lemma_keys(names, r, keys, m);
        let ks = group::keys_of(r, keys, m);
        lemma_group_place(names, gs, ks);
        let i = group::group_place(gs, ks) as int;
        let now = group::joined(gs, ks, r);
        if i < gs.len() {
            let rows = gs[i].rows.push(r);
            assert(all_seen(names, rows) =~= all_seen(names, gs[i].rows).push(seen(names, r)));
            assert(all(rows, p));
            assert(rows[0] == gs[i].rows[0]);
        } else {
            assert(all_seen(names, seq![r]) =~= seq![seen(names, r)]);
            assert(all(seq![r], p));
        }
        assert(group::joined(groups_seen(names, gs), ks, seen(names, r)) =~= groups_seen(
            names,
            now,
        ));
        assert(sound_groups(now, keys, p, m)) by {
            assert forall|j: int| 0 <= j < now.len() implies {
                &&& (#[trigger] now[j]).rows.len() > 0
                &&& now[j].keys == group::keys_of(now[j].rows[0], keys, m)
                &&& all(now[j].rows, p)
            } by {
                if j < gs.len() && j != i {
                    assert(now[j] == gs[j]);
                }
            }
        }
    } else {
        assert(groups_seen(names, Seq::<GroupView>::empty()) =~= Seq::<GroupView>::empty());
    }
}

/// What is bound under a name once the fields of a variable are taken along: what the row has
/// there, where it has something.
proof fn lemma_carried(base: Row, r: Row, start: Seq<char>, k: Seq<char>)
    requires
        assoc::distinct(assoc::keys(r)),
    ensures
        assoc::lookup(record::put_all(base, record::carried(r, start, start)), k) == (
        if text::begins(k, start) && assoc::lookup(r, k) is Some {
            assoc::lookup(r, k)
        } else {
            assoc::lookup(base, k)
        }),
    decreases r.len(),
{
    if r.len() > 0 {
        let t = r.drop_last();
        let last = r.last();
        let ks = assoc::keys(r);
        let ts = assoc::keys(t);
        assert(assoc::distinct(ts)) by {
            assert forall|i: int, j: int| 0 <= i < j < ts.len() implies #[trigger] ts[i]
                != #[trigger] ts[j] by {
                assert(ks[i] != ks[j]);
            }
        }
        lemma_carried(base, t, start, k);
        assert forall|j: int| 0 <= j < ts.len() implies #[trigger] ts[j] != last.0 by {
            assert(ks[j] != ks[r.len() - 1]);
        }
        assoc::lemma_place_is(ts, last.0, ts.len() as int);
        assert(r =~= assoc::put(t, last.0, last.1));
        assoc::lemma_lookup_put(t, last.0, last.1, k);
        let so_far = record::carried(t, start, start);
        match text::after(last.0, start) {
            Some(rest) => {
                assert(start + rest =~= last.0);
                let all = so_far.push((last.0, last.1));
                assert(all.drop_last() =~= so_far);
                assoc::lemma_lookup_put(record::put_all(base, so_far), last.0, last.1, k);
            },
            None => {},
        }
    } else {
        assert(assoc::keys(r).len() == 0);
    }
}

/// The keys of a group are the same by slots.
proof fn lemma_key_row(
    names: Names,
    out: Names,
    g: GroupView,
    keys: Seq<ExprView>,
    n: int,
    m: Model,
)
    requires
        assoc::distinct(names),
        0 <= n <= keys.len(),
        g.rows.len() > 0,
        g.keys == group::keys_of(g.rows[0], keys, m),
        keys_held(names, out, g.rows[0], keys, m),
    ensures
        slot_sight::alike(
            slot_sight::named_in(out),
            group::key_row(g, keys, n, false, m),
            group::key_row(group_seen(names, g), keys, n, false, m),
        ),
        forall|k: Seq<char>|
            out.contains(k) && takes_along(keys, k) && names.contains(k) && assoc::lookup(
                g.rows[0],
                k,
            ) is None ==> #[trigger] binding_laws::value_at(
                group::key_row(g, keys, n, false, m),
                k,
            ) == ValueView::Null,
    decreases n,
{
    let among = slot_sight::named_in(out);
    let r = g.rows[0];
    let gs = group_seen(names, g);
    assert(gs.rows[0] == seen(names, r));
    if n > 0 {
        lemma_key_row(names, out, g, keys, n - 1, m);
        let e = keys[n - 1];
        let c = (m.column_name)(e);
        let v = g.keys[n - 1];
        assert(v == key_on(r, e, m));
        let (a, b) = (
            group::key_row(g, keys, n - 1, false, m),
            group::key_row(gs, keys, n - 1, false, m),
        );
        let (a1, b1) = (assoc::put(a, c, v), assoc::put(b, c, v));
        slot_sight::lemma_alike_put(among, a, b, c, v);
        assert forall|k: Seq<char>|
            out.contains(k) && takes_along(keys, k) && names.contains(k) && assoc::lookup(
                r,
                k,
            ) is None implies #[trigger] binding_laws::value_at(a1, k) == ValueView::Null by {
            assoc::lemma_lookup_put(a, c, v, k);
            assert(held(names, r, k));
            assert(binding_laws::value_at(a, k) == ValueView::Null);
        }
        match e.kind {
            ExprKindView::Variable(x) => {
                assert(keys[n - 1].kind is Variable);
                let start = x + "."@;
                let s = seen(names, r);
                assert(assoc::keys(s) =~= names);
                let a2 = record::put_all(a1, record::carried(r, start, start));
                let b2 = record::put_all(b1, record::carried(s, start, start));
                assert forall|k: Seq<char>| among(k) implies #[trigger] binding_laws::value_at(
                    a2,
                    k,
                ) == binding_laws::value_at(b2, k) by {
                    lemma_carried(a1, r, start, k);
                    lemma_carried(b1, s, start, k);
                    slot_sight::lemma_seen(names, r, k);
                    assert(binding_laws::value_at(a1, k) == binding_laws::value_at(b1, k));
                    if text::begins(k, start) {
                        assert(takes(keys[n - 1], k));
                        assert(takes_along(keys, k));
                        assert(held(names, r, k));
                    }
                }
                assert forall|k: Seq<char>|
                    out.contains(k) && takes_along(keys, k) && names.contains(k) && assoc::lookup(
                        r,
                        k,
                    ) is None implies #[trigger] binding_laws::value_at(a2, k)
                    == ValueView::Null by {
                    lemma_carried(a1, r, start, k);
                    assert(binding_laws::value_at(a1, k) == ValueView::Null);
                }
            },
            _ => {},
        }
    } else {
        assert(assoc::keys(Row::empty()).len() == 0);
    }
}

/// Aggregates are the same by slots.
proof fn lemma_aggregated_row(
    names: Names,
    out: Names,
    a: Row,
    b: Row,
    aggs: Seq<AggregateExpr>,
    rs: Seq<Row>,
    m: Model,
)
    requires
        slot_sight::alike(slot_sight::named_in(out), a, b),
        forall|i: int|
            0 <= i < aggs.len() ==> all(
                rs,
                |r: Row| aggregate_held(names, r, #[trigger] aggs[i], m),
            ),
        group::aggregated_row(a, aggs, rs, false, m) is Ok,
    ensures
        group::aggregated_row(b, aggs, all_seen(names, rs), false, m) matches Ok(q)
            && slot_sight::alike(
            slot_sight::named_in(out),
            group::aggregated_row(a, aggs, rs, false, m)->Ok_0,
            q,
        ),
    decreases aggs.len(),
{
    if aggs.len() > 0 {
        let front = aggs.drop_last();
        assert forall|i: int| 0 <= i < front.len() implies all(
            rs,
            |r: Row| aggregate_held(names, r, #[trigger] front[i], m),
        ) by {
            assert(front[i] == aggs[i]);
            assert(all(rs, |r: Row| aggregate_held(names, r, aggs[i], m)));
        }
        lemma_aggregated_row(names, out, a, b, front, rs, m);
        let agg = aggs[aggs.len() - 1];
        assert(agg == aggs.last());
        assert(all(rs, |r: Row| aggregate_held(names, r, agg, m)));
        lemma_aggregate(names, rs, agg, m);
        slot_sight::lemma_alike_put(
            slot_sight::named_in(out),
            group::aggregated_row(a, front, rs, false, m)->Ok_0,
            group::aggregated_row(b, front, all_seen(names, rs), false, m)->Ok_0,
            group::column_in(agg, false, m),
            aggregate::aggregate(agg, rs, m)->Ok_0,
        );
    }
}

/// The slots keep what a grouping reads of a row and what it passes on.
pub open spec fn grouping_held(
    names: Names,
    out: Names,
    r: Row,
    keys: Seq<ExprView>,
    aggs: Seq<AggregateExpr>,
    m: Model,
) -> bool {
    &&& keys_held(names, out, r, keys, m)
    &&& forall|i: int| 0 <= i < aggs.len() ==> aggregate_held(names, r, #[trigger] aggs[i], m)
}

/// Taking items through a function is taking what stands for them through another.
proof fn lemma_each_same<T, U, V>(
    s: Seq<T>,
    t: Seq<U>,
    f: spec_fn(T) -> Result<Seq<V>, ErrorView>,
    g: spec_fn(U) -> Result<Seq<V>, ErrorView>,
)
    requires
        s.len() == t.len(),
        forall|i: int| 0 <= i < s.len() ==> f(#[trigger] s[i]) == g(t[i]),
    ensures
        flow::each(s, f) == flow::each(t, g),
    decreases s.len(),
{
    if s.len() > 0 {
        let (x, y) = (s.drop_last(), t.drop_last());
        assert forall|i: int| 0 <= i < x.len() implies f(#[trigger] x[i]) == g(y[i]) by {
            assert(x[i] == s[i]);
        }
        lemma_each_same(x, y, f, g);
        assert(f(s[s.len() - 1]) == g(t[s.len() - 1]));
    }
}

/// A grouping gives the same slots on rows and on what is seen of them.
pub proof fn lemma_grouping_seen(
    names: Names,
    out: Names,
    rs: Seq<Row>,
    keys: Seq<ExprView>,
    aggs: Seq<AggregateExpr>,
    m: Model,
)
    requires
        assoc::distinct(names),
        all(rs, |r: Row| grouping_held(names, out, r, keys, aggs, m)),
    ensures
        slot_sight::same_slots(
            group::aggregated(rs, keys, aggs, false, m),
            group::aggregated(all_seen(names, rs), keys, aggs, false, m),
            out,
        ),
{
    let p = |r: Row| grouping_held(names, out, r, keys, aggs, m);
    if group::aggregated(rs, keys, aggs, false, m) is Ok {
        if keys.len() == 0 {
            lemma_aggs_held(names, out, rs, keys, aggs, m);
            lemma_aggregated_row(names, out, Row::empty(), Row::empty(), aggs, rs, m);
            let x = group::aggregated_row(Row::empty(), aggs, rs, false, m)->Ok_0;
            let y = group::aggregated_row(
                Row::empty(),
                aggs,
                all_seen(names, rs),
                false,
                m,
            )->Ok_0;
            slot_sight::lemma_alike_slots(out, x, y);
            assert(iter_slot::laid_out(out, seq![x]) =~= iter_slot::laid_out(out, seq![y]));
        } else {
            assert forall|r: Row, i: int| p(r) && 0 <= i < keys.len() implies #[trigger] expr_held(
                names,
                r,
                keys[i],
                m,
            ) by {
                assert(keys_held(names, out, r, keys, m));
            }
            lemma_grouped(names, rs, keys, m, p);
            let gs = group::grouped(rs, keys, m);
            let ts = groups_seen(names, gs);
            let f = |g: GroupView| group::group_row(g, keys, aggs, false, m);
            let h = |g: GroupView| group::group_row(group_seen(names, g), keys, aggs, false, m);
            assert forall|i: int| 0 <= i < gs.len() implies slot_sight::same_slots(
                f(#[trigger] gs[i]),
                h(gs[i]),
                out,
            ) by {
                lemma_group_row(names, out, gs[i], keys, aggs, m);
            }
            slot_sight::lemma_each_alike(gs, f, h, out);
            assert forall|i: int| 0 <= i < ts.len() implies f(#[trigger] ts[i]) == h(gs[i]) by {}
            lemma_each_same(ts, gs, f, h);
        }
    }
}

/// Where the slots keep what a grouping reads, they keep what its aggregates read.
proof fn lemma_aggs_held(
    names: Names,
    out: Names,
    rs: Seq<Row>,
    keys: Seq<ExprView>,
    aggs: Seq<AggregateExpr>,
    m: Model,
)
    requires
        all(rs, |r: Row| grouping_held(names, out, r, keys, aggs, m)),
    ensures
        forall|i: int|
            0 <= i < aggs.len() ==> all(
                rs,
                |r: Row| aggregate_held(names, r, #[trigger] aggs[i], m),
            ),
{
    let p = |r: Row| grouping_held(names, out, r, keys, aggs, m);
    assert forall|i: int| 0 <= i < aggs.len() implies all(
        rs,
        |r: Row| aggregate_held(names, r, #[trigger] aggs[i], m),
    ) by {
        let q = |r: Row| aggregate_held(names, r, aggs[i], m);
        assert forall|j: int| 0 <= j < rs.len() implies q(#[trigger] rs[j]) by {
            assert(p(rs[j]));
        }
    }
}

/// The row of a group is the same by slots.
proof fn lemma_group_row(
    names: Names,
    out: Names,
    g: GroupView,
    keys: Seq<ExprView>,
    aggs: Seq<AggregateExpr>,
    m: Model,
)
    requires
        assoc::distinct(names),
        g.rows.len() > 0,
        g.keys == group::keys_of(g.rows[0], keys, m),
        all(g.rows, |r: Row| grouping_held(names, out, r, keys, aggs, m)),
    ensures
        slot_sight::same_slots(
            group::group_row(g, keys, aggs, false, m),
            group::group_row(group_seen(names, g), keys, aggs, false, m),
            out,
        ),
{
    let p = |r: Row| grouping_held(names, out, r, keys, aggs, m);
    assert(p(g.rows[0]));
    lemma_key_row(names, out, g, keys, keys.len() as int, m);
    lemma_aggs_held(names, out, g.rows, keys, aggs, m);
    if group::group_row(g, keys, aggs, false, m) is Ok {
        let n = keys.len() as int;
        let (a, b) = (
            group::key_row(g, keys, n, false, m),
            group::key_row(group_seen(names, g), keys, n, false, m),
        );
        lemma_aggregated_row(names, out, a, b, aggs, g.rows, m);
        let x = group::aggregated_row(a, aggs, g.rows, false, m)->Ok_0;
        let y = group::aggregated_row(b, aggs, all_seen(names, g.rows), false, m)->Ok_0;
        slot_sight::lemma_alike_slots(out, x, y);
        assert(iter_slot::laid_out(out, seq![x]) =~= iter_slot::laid_out(out, seq![y]));
    }
}

} // verus!
