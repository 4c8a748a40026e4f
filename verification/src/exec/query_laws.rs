//! What tests over rows answer, what whole values are read from rows, and what a star gives.
use super::join_laws;
use super::merge_run;
use super::merge_run::Todo;
use super::project;
use super::query;
use super::query::Answer;
use crate::assoc;
use crate::binding;
use crate::plan;
use crate::plan::AggregateFunction;
use crate::record::Row;
use crate::row_laws;
use crate::text;
use crate::types::{ErrorView, NodeId};
use crate::value::ValueView;
use vstd::prelude::*;

verus! {

/// Whether one of the items passes: yes where one does and all before it could be tested and did
/// not; no where none does.
pub proof fn one_that_passes_is_enough<T>(s: Seq<T>, f: spec_fn(T) -> Answer)
    ensures
        query::first(s, f) == Ok::<bool, ErrorView>(true) <==> exists|i: int|
            0 <= i < s.len() && f(#[trigger] s[i]) == Ok::<bool, ErrorView>(true) && forall|j: int|
                0 <= j < i ==> f(#[trigger] s[j]) == Ok::<bool, ErrorView>(false),
        query::first(s, f) == Ok::<bool, ErrorView>(false) <==> forall|i: int|
            0 <= i < s.len() ==> f(#[trigger] s[i]) == Ok::<bool, ErrorView>(false),
    decreases s.len(),
{
    let yes = Ok::<bool, ErrorView>(true);
    let no = Ok::<bool, ErrorView>(false);
    if s.len() > 0 {
        let t = s.drop_first();
        one_that_passes_is_enough(t, f);
        if f(s[0]) == no {
            if query::first(t, f) == yes {
                let i = choose|i: int|
                    0 <= i < t.len() && f(#[trigger] t[i]) == yes && forall|j: int|
                        0 <= j < i ==> f(#[trigger] t[j]) == no;
                assert(s[i + 1] == t[i]);
                assert forall|j: int| 0 <= j < i + 1 implies f(#[trigger] s[j]) == no by {
                    if j > 0 {
                        assert(t[j - 1] == s[j]);
                    }
                }
            }
            if exists|i: int|
                0 <= i < s.len() && f(#[trigger] s[i]) == yes && forall|j: int|
                    0 <= j < i ==> f(#[trigger] s[j]) == no {
                let i = choose|i: int|
                    0 <= i < s.len() && f(#[trigger] s[i]) == yes && forall|j: int|
                        0 <= j < i ==> f(#[trigger] s[j]) == no;
                assert(t[i - 1] == s[i]);
                assert forall|j: int| 0 <= j < i - 1 implies f(#[trigger] t[j]) == no by {
                    assert(s[j + 1] == t[j]);
                }
            }
            if query::first(t, f) == no {
                assert forall|i: int| 0 <= i < s.len() implies f(#[trigger] s[i]) == no by {
                    if i > 0 {
                        assert(t[i - 1] == s[i]);
                    }
                }
            }
            if forall|i: int| 0 <= i < s.len() ==> f(#[trigger] s[i]) == no {
                assert forall|i: int| 0 <= i < t.len() implies f(#[trigger] t[i]) == no by {
                    assert(s[i + 1] == t[i]);
                }
            }
        } else {
            assert(f(s[0]) != no);
        }
    }
}

/// The name of each aggregate function is known to be one, in whatever case it is written.
pub proof fn aggregates_are_known_by_name(f: AggregateFunction)
    ensures
        plan::names_aggregate(plan::function_name(f)),
{
    reveal_strlit("count");
    reveal_strlit("sum");
    reveal_strlit("avg");
    reveal_strlit("min");
    reveal_strlit("max");
    reveal_strlit("collect");
    reveal_strlit("percentileDisc");
    reveal_strlit("percentileCont");
    reveal_strlit("stDev");
    reveal_strlit("stDevP");
    reveal_strlit("percentiledisc");
    reveal_strlit("percentilecont");
    reveal_strlit("stdev");
    reveal_strlit("stdevp");
    let n = text::lower_text(plan::function_name(f));
    match f {
        AggregateFunction::Count => assert(n =~= "count"@),
        AggregateFunction::Sum => assert(n =~= "sum"@),
        AggregateFunction::Avg => assert(n =~= "avg"@),
        AggregateFunction::Min => assert(n =~= "min"@),
        AggregateFunction::Max => assert(n =~= "max"@),
        AggregateFunction::Collect => assert(n =~= "collect"@),
        AggregateFunction::PercentileDisc => assert(n =~= "percentiledisc"@),
        AggregateFunction::PercentileCont => assert(n =~= "percentilecont"@),
        AggregateFunction::StDev => assert(n =~= "stdev"@),
        AggregateFunction::StDevP => assert(n =~= "stdevp"@),
    }
}

/// The properties of a variable are its fields, but for those that are internal.
pub proof fn own_properties_are_the_fields(s: Row, start: Seq<char>, name: Seq<char>)
    requires
        assoc::distinct(assoc::keys(s)),
    ensures
        assoc::lookup(binding::own_props(s, start), name) == (if text::begins(name, "__"@) {
            None
        } else {
            assoc::lookup(s, start + name)
        }),
    decreases s.len(),
{
    let out = binding::own_props(s, start);
    if s.len() > 0 {
        let t = s.drop_last();
        let e = s.last();
        assert(assoc::distinct(assoc::keys(t))) by {
            assert forall|i: int, j: int| 0 <= i < j < t.len() implies #[trigger] assoc::keys(t)[i]
                != #[trigger] assoc::keys(t)[j] by {
                assert(assoc::keys(s)[i] != assoc::keys(s)[j]);
            }
        }
        own_properties_are_the_fields(t, start, name);
        assert(t.push(e) =~= s);
        row_laws::lemma_lookup_push(t, e, start + name);
        match text::after(e.0, start) {
            Some(rest) => {
                assert(start + rest =~= e.0);
                if !text::begins(rest, "__"@) {
                    assoc::lemma_lookup_put(binding::own_props(t, start), rest, e.1, name);
                    if rest == name {
                        row_laws::only_bound_names_read(t, start + name);
                        assert(row_laws::free_of(t, start + name)) by {
                            assert forall|j: int| 0 <= j < t.len() implies (#[trigger] t[j]).0
                                != start + name by {
                                assert(assoc::keys(s)[j] != assoc::keys(s)[s.len() - 1]);
                            }
                        }
                    }
                }
                if e.0 == start + name {
                    assert((start + rest).skip(start.len() as int) =~= rest);
                    assert((start + name).skip(start.len() as int) =~= name);
                }
            },
            None => {
                if e.0 == start + name {
                    assert((start + name).take(start.len() as int) =~= start);
                }
            },
        }
    } else {
        row_laws::only_bound_names_read(s, start + name);
        row_laws::only_bound_names_read(out, name);
    }
}

/// A variable that is bound to a relationship reads as that relationship, with its fields for
/// properties.
pub proof fn a_bound_relationship_reads_back(
    rec: Row,
    var: Seq<char>,
    s: i64,
    d: i64,
    t: Seq<char>,
    n: u64,
    name: Seq<char>,
)
    requires
        assoc::distinct(assoc::keys(rec)),
        join_laws::names_relationship(rec, var, s, d, t, n),
        !(assoc::lookup(rec, var) matches Some(ValueView::List(_))),
        !(assoc::lookup(rec, var) matches Some(ValueView::Path(_))),
    ensures
        binding::compound(rec, var) matches Some(ValueView::Edge(e)) && e.src == NodeId(s as u64)
            && e.dst == NodeId(d as u64) && e.label == t && assoc::lookup(e.properties, name) == (
        if text::begins(name, "__"@) {
            None
        } else {
            assoc::lookup(rec, var + "."@ + name)
        }),
{
    own_properties_are_the_fields(rec, var + "."@, name);
    assert(var + "."@ + name == (var + "."@) + name);
}

/// A star inside a query hands every field on.
pub proof fn a_star_hands_everything_on(
    p: Row,
    rec: Row,
    item: crate::ast_model::ReturnItemView,
    m: crate::source::Model,
    k: Seq<char>,
)
    requires
        item.expr.kind is Star,
        assoc::distinct(assoc::keys(rec)),
        assoc::lookup(rec, k) is Some,
    ensures
        project::put_item(p, rec, item, false, m) matches Ok(row) && assoc::lookup(row, k)
            == assoc::lookup(rec, k),
{
    row_laws::overlaying_takes_and_keeps(p, rec, k);
}

/// The whole values of variables that are put in a row are there.
proof fn lemma_compounds_are_there(p: Row, rec: Row, vars: Seq<Seq<char>>, i: int)
    requires
        0 <= i < vars.len(),
        binding::compound(rec, vars[i]) is Some,
    ensures
        assoc::lookup(project::put_compounds(p, rec, vars), vars[i]) == binding::compound(
            rec,
            vars[i],
        ),
    decreases vars.len(),
{
    let t = vars.drop_last();
    let so_far = project::put_compounds(p, rec, t);
    if let Some(v) = binding::compound(rec, vars.last()) {
        assoc::lemma_lookup_put(so_far, vars.last(), v, vars[i]);
    }
    if i < t.len() {
        assert(t[i] == vars[i]);
        lemma_compounds_are_there(p, rec, t, i);
    }
}

/// Fields that stand for themselves leave the columns of variables alone.
proof fn lemma_scalars_leave(p: Row, rec: Row, vars: Seq<Seq<char>>, n: int, k: Seq<char>)
    requires
        0 <= n <= rec.len(),
        !project::stands_alone(rec, vars, k),
    ensures
        assoc::lookup(project::put_scalars(p, rec, vars, n), k) == assoc::lookup(p, k),
    decreases n,
{
    if n > 0 {
        lemma_scalars_leave(p, rec, vars, n - 1, k);
        assoc::lemma_lookup_put(
            project::put_scalars(p, rec, vars, n - 1),
            rec[n - 1].0,
            rec[n - 1].1,
            k,
        );
    }
}

/// A star at the end of a query gives each variable that is bound to a node or a relationship as
/// a whole.
pub proof fn a_star_gives_whole_values(p: Row, rec: Row, i: int)
    requires
        0 <= i < binding::bound_vars(rec).len(),
        text::parted(binding::bound_vars(rec)[i], '.') is None,
        binding::compound(rec, binding::bound_vars(rec)[i]) is Some,
    ensures
        assoc::lookup(project::put_star(p, rec), binding::bound_vars(rec)[i]) == binding::compound(
            rec,
            binding::bound_vars(rec)[i],
        ),
{
    let vars = binding::bound_vars(rec);
    lemma_compounds_are_there(p, rec, vars, i);
    assert(vars.contains(vars[i]));
    lemma_scalars_leave(
        project::put_compounds(p, rec, vars),
        rec,
        vars,
        rec.len() as int,
        vars[i],
    );
}

/// A star at the end of a query gives each field that stands for itself as it is.
pub proof fn a_star_gives_plain_fields(p: Row, rec: Row, vars: Seq<Seq<char>>, n: int, i: int)
    requires
        0 <= i < n <= rec.len(),
        assoc::distinct(assoc::keys(rec)),
        project::stands_alone(rec, vars, rec[i].0),
    ensures
        assoc::lookup(project::put_scalars(p, rec, vars, n), rec[i].0) == Some(rec[i].1),
    decreases n,
{
    let so_far = project::put_scalars(p, rec, vars, n - 1);
    assoc::lemma_lookup_put(so_far, rec[n - 1].0, rec[n - 1].1, rec[i].0);
    if i < n - 1 {
        a_star_gives_plain_fields(p, rec, vars, n - 1, i);
        assert(assoc::keys(rec)[i] != assoc::keys(rec)[n - 1]);
    }
}

/// A name is put into a sorted list of names, and nothing is lost from it.
proof fn lemma_inserted_has(s: Seq<Seq<char>>, x: Seq<char>, y: Seq<char>)
    ensures
        binding::inserted(s, x).contains(y) <==> s.contains(y) || y == x,
{
    let i = binding::spot(s, x) as int;
    lemma_spot_within(s, x);
    let t = binding::inserted(s, x);
    if i < s.len() && s[i] == x {
    } else {
        assert(t[i] == x);
        if s.contains(y) {
            let j = choose|j: int| 0 <= j < s.len() && s[j] == y;
            if j < i {
                assert(t[j] == y);
            } else {
                assert(t[j + 1] == y);
            }
        }
        if t.contains(y) && y != x {
            let j = choose|j: int| 0 <= j < t.len() && t[j] == y;
            if j < i {
                assert(s[j] == y);
            } else {
                assert(s[j - 1] == y);
            }
        }
    }
}

/// The place for a name is within the list or at its end.
proof fn lemma_spot_within(s: Seq<Seq<char>>, x: Seq<char>)
    ensures
        binding::spot(s, x) <= s.len(),
    decreases s.len(),
{
    if s.len() > 0 {
        lemma_spot_within(s.drop_first(), x);
    }
}

/// The bound variables of a row are those for which it notes a node or a relationship.
pub proof fn bound_variables_are_those_noted(s: Row, var: Seq<char>)
    ensures
        binding::bound_vars(s).contains(var) <==> exists|i: int|
            0 <= i < s.len() && (text::parted((#[trigger] s[i]).0, '.') == Some((var, "__id"@))
                || text::parted(s[i].0, '.') == Some((var, "__src"@))),
    decreases s.len(),
{
    if s.len() > 0 {
        let t = s.drop_last();
        let n = s.len() - 1;
        bound_variables_are_those_noted(t, var);
        assert(s[n] == s.last());
        if let Some((v, name)) = text::parted(s.last().0, '.') {
            lemma_inserted_has(binding::bound_vars(t), v, var);
        }
        if exists|i: int|
            0 <= i < t.len() && (text::parted((#[trigger] t[i]).0, '.') == Some((var, "__id"@))
                || text::parted(t[i].0, '.') == Some((var, "__src"@))) {
            let i = choose|i: int|
                0 <= i < t.len() && (text::parted((#[trigger] t[i]).0, '.') == Some((var, "__id"@))
                    || text::parted(t[i].0, '.') == Some((var, "__src"@)));
            assert(s[i] == t[i]);
        }
        if exists|i: int|
            0 <= i < s.len() && (text::parted((#[trigger] s[i]).0, '.') == Some((var, "__id"@))
                || text::parted(s[i].0, '.') == Some((var, "__src"@))) {
            let i = choose|i: int|
                0 <= i < s.len() && (text::parted((#[trigger] s[i]).0, '.') == Some((var, "__id"@))
                    || text::parted(s[i].0, '.') == Some((var, "__src"@)));
            if i < n {
                assert(t[i] == s[i]);
            }
        }
    }
}

/// The text before and after the first dot are what was joined, where there is no dot before.
pub proof fn a_field_parts_at_its_dot(var: Seq<char>, name: Seq<char>)
    requires
        !var.contains('.'),
    ensures
        text::parted(var + "."@ + name, '.') == Some((var, name)),
{
    reveal_strlit(".");
    let s = var + "."@ + name;
    text::lemma_first_place(s, '.');
    let i = text::first_place(s, '.');
    assert(s[var.len() as int] == '.');
    if i < var.len() {
        assert(s[i] == var[i]);
        assert(var.contains(var[i]));
    }
    assert(i == var.len());
    assert(s.take(i) =~= var);
    assert(s.skip(i + 1) =~= name);
}

/// For each node that MERGE found or made, each of its items is applied, and then its row is
/// made.
pub proof fn each_node_gets_its_items_and_its_row(owners: nat, items: nat, o: int, k: int)
    requires
        0 <= o < owners,
        owners <= usize::MAX,
        items <= usize::MAX,
    ensures
        ({
            let todo = merge_run::node_todo(owners, items);
            &&& todo.len() == owners * (items + 1)
            &&& todo.contains(Todo::Bind { owner: o as usize })
            &&& 0 <= k < items ==> todo.contains(
                Todo::Item { owner: o as usize, item: k as usize },
            )
        }),
    decreases owners,
{
    let n = (owners - 1) as nat;
    let before = merge_run::node_todo(n, items);
    let own = merge_run::items_for(owners - 1, items);
    let todo = merge_run::node_todo(owners, items);
    assert(todo == (before + own).push(Todo::Bind { owner: (owners - 1) as usize }));
    lemma_node_todo_len(n, items);
    assert(n * (items + 1) + items + 1 == owners * (items + 1)) by (nonlinear_arith)
        requires
            n == owners - 1,
    ;
    if o < n {
        each_node_gets_its_items_and_its_row(n, items, o, k);
        let b = Todo::Bind { owner: o as usize };
        let i = choose|i: int| 0 <= i < before.len() && before[i] == b;
        assert(todo[i] == b);
        if 0 <= k < items {
            let x = Todo::Item { owner: o as usize, item: k as usize };
            let j = choose|j: int| 0 <= j < before.len() && before[j] == x;
            assert(todo[j] == x);
        }
    } else {
        assert(todo[todo.len() - 1] == (Todo::Bind { owner: o as usize }));
        if 0 <= k < items {
            assert(todo[before.len() + k] == (Todo::Item { owner: o as usize, item: k as usize }));
        }
    }
}

/// How much there is to do.
proof fn lemma_node_todo_len(owners: nat, items: nat)
    ensures
        merge_run::node_todo(owners, items).len() == owners * (items + 1),
    decreases owners,
{
    if owners > 0 {
        let n = (owners - 1) as nat;
        lemma_node_todo_len(n, items);
        assert(n * (items + 1) + items + 1 == owners * (items + 1)) by (nonlinear_arith)
            requires
                n == owners - 1,
        ;
    } else {
        assert(0 * (items + 1) == 0);
    }
}

/// For relationships too, each item is applied to each of them, and each has its row.
pub proof fn each_relationship_gets_its_items_and_its_row(owners: nat, items: nat, o: int, k: int)
    requires
        0 <= o < owners,
        owners <= usize::MAX,
        items <= usize::MAX,
    ensures
        ({
            let todo = merge_run::edge_todo(owners, items);
            &&& todo.contains(Todo::Bind { owner: o as usize })
            &&& 0 <= k < items ==> todo.contains(
                Todo::Item { owner: o as usize, item: k as usize },
            )
        }),
{
    let all = merge_run::all_items(owners, items);
    let todo = merge_run::edge_todo(owners, items);
    assert(todo[all.len() + o] == (Todo::Bind { owner: o as usize }));
    if 0 <= k < items {
        lemma_items_of_each(owners, items, o, k);
        let x = Todo::Item { owner: o as usize, item: k as usize };
        let j = choose|j: int| 0 <= j < all.len() && all[j] == x;
        assert(todo[j] == x);
    }
}

/// Each item of each is there.
proof fn lemma_items_of_each(owners: nat, items: nat, o: int, k: int)
    requires
        0 <= o < owners,
        0 <= k < items,
    ensures
        merge_run::all_items(owners, items).contains(
            Todo::Item { owner: o as usize, item: k as usize },
        ),
    decreases owners,
{
    let n = (owners - 1) as nat;
    let before = merge_run::all_items(n, items);
    let all = merge_run::all_items(owners, items);
    let x = Todo::Item { owner: o as usize, item: k as usize };
    if o < n {
        lemma_items_of_each(n, items, o, k);
        let j = choose|j: int| 0 <= j < before.len() && before[j] == x;
        assert(all[j] == x);
    } else {
        assert(all[before.len() + k] == x);
    }
}

/// The items of ON CREATE are for what was made, those of ON MATCH for what was found.
pub proof fn items_go_with_what_happened(c: merge_run::Clause, fresh: bool)
    ensures
        c.items(true) == c.on_create@,
        c.items(false) == c.on_match@,
{
}

} // verus!
