//! What holds of the bindings in a row.
use crate::assoc;
use crate::binding;
use crate::order;
use crate::record;
use crate::record::Row;
use crate::text;
use crate::types::NodeId;
use crate::value::{EdgeView, NodeView, PathValueView, ValueView};
use vstd::prelude::*;

verus! {

/// What a row has under a name; nothing where the name is not bound.
pub open spec fn value_at(row: Row, k: Seq<char>) -> ValueView {
    match assoc::lookup(row, k) {
        Some(v) => v,
        None => ValueView::Null,
    }
}

/// Binding entries on top of rows that have the same under a name leaves it the same.
pub proof fn lemma_put_all_same(a: Row, b: Row, s: Row, k: Seq<char>)
    requires
        assoc::lookup(a, k) == assoc::lookup(b, k),
    ensures
        assoc::lookup(record::put_all(a, s), k) == assoc::lookup(record::put_all(b, s), k),
    decreases s.len(),
{
    if s.len() > 0 {
        lemma_put_all_same(a, b, s.drop_last(), k);
        assoc::lemma_lookup_put(record::put_all(a, s.drop_last()), s.last().0, s.last().1, k);
        assoc::lemma_lookup_put(record::put_all(b, s.drop_last()), s.last().0, s.last().1, k);
    }
}

/// Binding other names leaves a name as it was.
pub proof fn lemma_put_all_other(a: Row, s: Row, k: Seq<char>)
    requires
        forall|i: int| 0 <= i < s.len() ==> (#[trigger] s[i]).0 != k,
    ensures
        assoc::lookup(record::put_all(a, s), k) == assoc::lookup(a, k),
    decreases s.len(),
{
    if s.len() > 0 {
        let t = s.drop_last();
        assert forall|i: int| 0 <= i < t.len() implies (#[trigger] t[i]).0 != k by {
            assert(t[i] == s[i]);
        }
        lemma_put_all_other(a, t, k);
        assert(s[s.len() - 1].0 != k);
        assoc::lemma_lookup_put(record::put_all(a, t), s.last().0, s.last().1, k);
    }
}

/// Setting the slot of a name is binding the name.
pub proof fn lemma_slot_bound(names: Seq<Seq<char>>, row: Row, k: Seq<char>, v: ValueView)
    requires
        assoc::distinct(names),
    ensures
        binding::slot_bound(names, record::slotted(names, row), k, v) == record::slotted(
            names,
            assoc::put(row, k, v),
        ),
{
    let s = record::slotted(names, row);
    let at = assoc::place(names, k) as int;
    let r = binding::slot_bound(names, s, k, v);
    assoc::lemma_place(names, k);
    assert forall|j: int| 0 <= j < names.len() implies #[trigger] r[j] == value_at(
        assoc::put(row, k, v),
        names[j],
    ) by {
        assoc::lemma_lookup_put(row, k, v, names[j]);
        if at < names.len() {
            if j == at {
                assert(names[j] == k);
            } else {
                assert(names[j] != names[at]);
            }
        } else {
            assert(names[j] != k);
        }
    }
    assert(r =~= record::slotted(names, assoc::put(row, k, v)));
}

/// Setting the slots of entries is binding the entries.
pub proof fn lemma_slots_bound(names: Seq<Seq<char>>, row: Row, s: Row)
    requires
        assoc::distinct(names),
    ensures
        binding::slots_bound(names, record::slotted(names, row), s) == record::slotted(
            names,
            record::put_all(row, s),
        ),
    decreases s.len(),
{
    if s.len() > 0 {
        lemma_slots_bound(names, row, s.drop_last());
        lemma_slot_bound(
            names,
            record::put_all(row, s.drop_last()),
            s.last().0,
            s.last().1,
        );
    }
}

/// No key begins with two underscores, as those of the fields do that the engine adds.
pub open spec fn plain_keys(s: Row) -> bool {
    forall|i: int| 0 <= i < s.len() ==> !text::begins((#[trigger] s[i]).0, "__"@)
}

/// Fields of a variable are told apart by their names.
pub proof fn lemma_dotted(var: Seq<char>, a: Seq<char>, b: Seq<char>)
    ensures
        text::dotted(var, a) == text::dotted(var, b) <==> a == b,
        text::dotted(var, a) != var,
        text::after(text::dotted(var, a), var + "."@) == Some(a),
        text::after(var, var + "."@) is None,
{
    reveal_strlit(".");
    let x = text::dotted(var, a);
    let y = text::dotted(var, b);
    let n = var.len() + 1;
    assert(x.skip(n as int) =~= a);
    assert(y.skip(n as int) =~= b);
    assert(x.len() == n + a.len());
    assert((var + "."@).len() == n);
    assert(x.take(n as int) =~= var + "."@);
}

/// The field of a property is none of those that the engine adds.
pub proof fn lemma_plain_field(var: Seq<char>, s: Row, name: Seq<char>)
    requires
        plain_keys(s),
        text::begins(name, "__"@),
    ensures
        forall|i: int|
            0 <= i < s.len() ==> (#[trigger] record::fields_of(var, s)[i]).0 != text::dotted(
                var,
                name,
            ),
{
    let fs = record::fields_of(var, s);
    assert forall|i: int| 0 <= i < s.len() implies (#[trigger] fs[i]).0 != text::dotted(var, name) by {
        lemma_dotted(var, s[i].0, name);
        assert(!text::begins(s[i].0, "__"@));
    }
}

/// The names of the fields that the engine adds to a node begin with two underscores.
proof fn lemma_node_names()
    ensures
        text::begins("__id"@, "__"@),
        text::begins("__label"@, "__"@),
        text::begins("__labels"@, "__"@),
        text::begins("__src"@, "__"@),
        "__id"@ != "__label"@,
        "__id"@ != "__labels"@,
        "__label"@ != "__labels"@,
{
    reveal_strlit("__");
    reveal_strlit("__id");
    reveal_strlit("__label");
    reveal_strlit("__labels");
    reveal_strlit("__src");
    assert("__id"@.take(2) =~= "__"@);
    assert("__label"@.take(2) =~= "__"@);
    assert("__labels"@.take(2) =~= "__"@);
    assert("__src"@.take(2) =~= "__"@);
    assert("__id"@[2] == 'i');
    assert("__label"@[2] == 'l');
    assert("__labels"@[2] == 'l');
}

/// The slots of a node hold, name by name, what the row of the node holds, and nothing for a name
/// that the row does not bind. No property has the name of a field that the engine adds.
pub proof fn node_slots_hold_the_row(names: Seq<Seq<char>>, n: NodeView, alias: Seq<char>)
    requires
        assoc::distinct(names),
        plain_keys(n.properties),
    ensures
        binding::node_slots(names, n, alias) == record::slotted(
            names,
            binding::node_row(Row::empty(), n, alias),
        ),
{
    lemma_node_names();
    let id = text::dotted(alias, "__id"@);
    let label = text::dotted(alias, "__label"@);
    let labels = text::dotted(alias, "__labels"@);
    let joined = ValueView::String(text::joined(n.labels, ':'));
    let listed = ValueView::List(binding::label_list(n.labels));
    let fields = record::fields_of(alias, n.properties);
    lemma_dotted(alias, "__id"@, "__label"@);
    lemma_dotted(alias, "__id"@, "__labels"@);
    lemma_dotted(alias, "__label"@, "__labels"@);
    lemma_plain_field(alias, n.properties, "__id"@);
    lemma_plain_field(alias, n.properties, "__label"@);
    lemma_plain_field(alias, n.properties, "__labels"@);
    let r0 = Row::empty();
    let r1 = assoc::put(r0, alias, binding::id_view(n.id));
    let r2 = assoc::put(r1, id, binding::id_view(n.id));
    let r3 = assoc::put(r2, label, joined);
    let r4 = assoc::put(r3, labels, listed);
    assert(record::blank(names.len() as int) =~= record::slotted(names, r0)) by {
        assert forall|j: int| 0 <= j < names.len() implies value_at(r0, #[trigger] names[j])
            == ValueView::Null by {
            assert(assoc::keys(r0).len() == 0);
        }
    }
    lemma_slot_bound(names, r0, alias, binding::id_view(n.id));
    lemma_slot_bound(names, r1, id, binding::id_view(n.id));
    lemma_slot_bound(names, r2, label, joined);
    lemma_slot_bound(names, r3, labels, listed);
    lemma_slots_bound(names, r4, fields);
    let by_slots = record::put_all(r4, fields);
    let q2 = record::put_all(r1, fields);
    let q3 = assoc::put(q2, label, joined);
    let q4 = assoc::put(q3, labels, listed);
    let by_names = assoc::put(q4, id, binding::id_view(n.id));
    assert(by_names == binding::node_row(r0, n, alias));
    assert forall|k: Seq<char>| #[trigger]
        assoc::lookup(by_slots, k) == assoc::lookup(by_names, k) by {
        assoc::lemma_lookup_put(r1, id, binding::id_view(n.id), k);
        assoc::lemma_lookup_put(r2, label, joined, k);
        assoc::lemma_lookup_put(r3, labels, listed, k);
        assoc::lemma_lookup_put(q2, label, joined, k);
        assoc::lemma_lookup_put(q3, labels, listed, k);
        assoc::lemma_lookup_put(q4, id, binding::id_view(n.id), k);
        if k == id || k == label || k == labels {
            lemma_put_all_other(r4, fields, k);
        } else {
            lemma_put_all_same(r4, r1, fields, k);
        }
    }
    assert(record::slotted(names, by_slots) =~= record::slotted(names, by_names)) by {
        assert forall|j: int| 0 <= j < names.len() implies #[trigger] record::slotted(
            names,
            by_slots,
        )[j] == record::slotted(names, by_names)[j] by {
            assert(assoc::lookup(by_slots, names[j]) == assoc::lookup(by_names, names[j]));
        }
    }
}

/// The first piece of a text that begins with a text without the mark.
proof fn lemma_pieces_first(a: Seq<char>, rest: Seq<char>, c: char)
    requires
        !a.contains(c),
    ensures
        text::pieces(a + seq![c] + rest, c) == seq![a] + text::pieces(rest, c),
{
    let s = a + seq![c] + rest;
    text::lemma_first_place(s, c);
    let i = text::first_place(s, c);
    assert(s[a.len() as int] == c);
    if i < a.len() {
        assert(a[i] == c);
    }
    assert(i == a.len());
    assert(s.take(i) =~= a);
    assert(s.skip(i + 1) =~= rest);
    reveal_with_fuel(text::pieces, 2);
}

/// Joined texts, seen from the first.
proof fn lemma_joined_first(v: Seq<Seq<char>>, c: char)
    requires
        v.len() > 1,
    ensures
        text::joined(v, c) == v[0] + seq![c] + text::joined(v.drop_first(), c),
    decreases v.len(),
{
    let t = v.drop_last();
    if t.len() > 1 {
        lemma_joined_first(t, c);
        assert(v.drop_first().drop_last() =~= t.drop_first());
        assert(text::joined(v, c) =~= v[0] + seq![c] + text::joined(v.drop_first(), c));
    } else {
        assert(v.drop_first() =~= seq![v[1]]);
        assert(text::joined(t, c) == t[0]);
        assert(text::joined(v, c) =~= v[0] + seq![c] + v[1]);
    }
}

/// Splitting joined texts gives them back.
proof fn lemma_pieces_joined(v: Seq<Seq<char>>, c: char)
    requires
        v.len() > 0,
        forall|i: int| 0 <= i < v.len() ==> !(#[trigger] v[i]).contains(c),
    ensures
        text::pieces(text::joined(v, c), c) == v,
    decreases v.len(),
{
    if v.len() == 1 {
        let s = v[0];
        text::lemma_first_place(s, c);
        if text::first_place(s, c) < s.len() {
            assert(s.contains(c));
        }
        reveal_with_fuel(text::pieces, 2);
        assert(seq![s] =~= v);
    } else {
        let t = v.drop_first();
        assert forall|i: int| 0 <= i < t.len() implies !(#[trigger] t[i]).contains(c) by {
            assert(t[i] == v[i + 1]);
        }
        lemma_joined_first(v, c);
        lemma_pieces_joined(t, c);
        lemma_pieces_first(v[0], text::joined(t, c), c);
        assert(seq![v[0]] + t =~= v);
    }
}

/// Joined labels are some text, as none of them is empty.
proof fn lemma_joined_some(v: Seq<Seq<char>>, c: char)
    requires
        v.len() > 0,
        v[0].len() > 0,
    ensures
        text::joined(v, c).len() > 0,
    decreases v.len(),
{
    if v.len() > 1 {
        lemma_joined_some(v.drop_last(), c);
    }
}

/// Binding the fields of properties appends them.
proof fn lemma_fields_appended(base: Row, var: Seq<char>, s: Row)
    requires
        base.len() == 1,
        base[0].0 == var,
        assoc::distinct(assoc::keys(s)),
    ensures
        record::put_all(base, record::fields_of(var, s)) == base + record::fields_of(var, s),
    decreases s.len(),
{
    let fs = record::fields_of(var, s);
    if s.len() > 0 {
        let t = s.drop_last();
        assert(assoc::distinct(assoc::keys(t))) by {
            assert forall|i: int, j: int| 0 <= i < j < t.len() implies #[trigger] assoc::keys(t)[i]
                != #[trigger] assoc::keys(t)[j] by {
                assert(assoc::keys(s)[i] != assoc::keys(s)[j]);
            }
        }
        lemma_fields_appended(base, var, t);
        assert(fs.drop_last() =~= record::fields_of(var, t));
        let so_far = base + record::fields_of(var, t);
        let k = fs.last().0;
        let ks = assoc::keys(so_far);
        assert forall|j: int| 0 <= j < ks.len() implies #[trigger] ks[j] != k by {
            if j == 0 {
                lemma_dotted(var, s.last().0, s.last().0);
            } else {
                lemma_dotted(var, t[j - 1].0, s.last().0);
                assert(assoc::keys(s)[j - 1] != assoc::keys(s)[s.len() - 1]);
            }
        }
        assoc::lemma_place_is(ks, k, ks.len() as int);
        assert(so_far.push(fs.last()) =~= base + fs);
    } else {
        assert(base + fs =~= base);
    }
}

/// The properties of a variable, read from its own field and those of its properties.
proof fn lemma_own_props(base: Row, var: Seq<char>, s: Row)
    requires
        base.len() == 1,
        base[0].0 == var,
        plain_keys(s),
        assoc::distinct(assoc::keys(s)),
    ensures
        binding::own_props(base + record::fields_of(var, s), var + "."@) == s,
    decreases s.len(),
{
    let fs = record::fields_of(var, s);
    let all = base + fs;
    if s.len() > 0 {
        let t = s.drop_last();
        assert(plain_keys(t)) by {
            assert forall|i: int| 0 <= i < t.len() implies !text::begins(
                (#[trigger] t[i]).0,
                "__"@,
            ) by {
                assert(t[i] == s[i]);
            }
        }
        assert(assoc::distinct(assoc::keys(t))) by {
            assert forall|i: int, j: int| 0 <= i < j < t.len() implies #[trigger] assoc::keys(t)[i]
                != #[trigger] assoc::keys(t)[j] by {
                assert(assoc::keys(s)[i] != assoc::keys(s)[j]);
            }
        }
        lemma_own_props(base, var, t);
        assert(all.drop_last() =~= base + record::fields_of(var, t));
        let name = s.last().0;
        lemma_dotted(var, name, name);
        assert(all.last() == (text::dotted(var, name), s.last().1));
        assert(!text::begins(s[s.len() - 1].0, "__"@));
        let ks = assoc::keys(t);
        assert forall|j: int| 0 <= j < ks.len() implies #[trigger] ks[j] != name by {
            assert(assoc::keys(s)[j] != assoc::keys(s)[s.len() - 1]);
        }
        assoc::lemma_place_is(ks, name, ks.len() as int);
        assert(t.push(s.last()) =~= s);
    } else {
        assert(all =~= base);
        assert(all.drop_last() =~= Row::empty());
        lemma_dotted(var, var, var);
        reveal_with_fuel(binding::own_props, 2);
        assert(s =~= Row::empty());
    }
}

/// A name that no entry has is not bound.
proof fn lemma_unbound(row: Row, k: Seq<char>)
    requires
        forall|j: int| 0 <= j < row.len() ==> (#[trigger] row[j]).0 != k,
    ensures
        assoc::lookup(row, k) is None,
{
    let ks = assoc::keys(row);
    assert forall|j: int| 0 <= j < ks.len() implies #[trigger] ks[j] != k by {
        assert(row[j].0 != k);
    }
    assoc::lemma_place_is(ks, k, ks.len() as int);
}

/// A node that can be bound and read back: its id is in the range of integers, its labels are
/// told apart when joined, and its properties have names of their own.
pub open spec fn bindable(n: NodeView) -> bool {
    &&& n.id.0 <= i64::MAX
    &&& forall|i: int|
        0 <= i < n.labels.len() ==> (#[trigger] n.labels[i]).len() > 0 && !n.labels[i].contains(':')
    &&& plain_keys(n.properties)
    &&& assoc::distinct(assoc::keys(n.properties))
}

/// Binding a node to a variable and reading the variable as a whole gives the node back.
pub proof fn bound_node_reads_back(n: NodeView, var: Seq<char>)
    requires
        bindable(n),
    ensures
        binding::compound(binding::node_row(Row::empty(), n, var), var) == Some(
            ValueView::Node(n),
        ),
{
    lemma_node_names();
    let id = text::dotted(var, "__id"@);
    let label = text::dotted(var, "__label"@);
    let labels = text::dotted(var, "__labels"@);
    let src = text::dotted(var, "__src"@);
    let joined = ValueView::String(text::joined(n.labels, ':'));
    let listed = ValueView::List(binding::label_list(n.labels));
    let fields = record::fields_of(var, n.properties);
    lemma_dotted(var, "__id"@, "__label"@);
    lemma_dotted(var, "__id"@, "__labels"@);
    lemma_dotted(var, "__label"@, "__labels"@);
    lemma_dotted(var, "__labels"@, "__src"@);
    lemma_dotted(var, "__src"@, "__label"@);
    lemma_dotted(var, "__src"@, "__id"@);
    assert("__src"@ != "__id"@ && "__src"@ != "__label"@ && "__src"@ != "__labels"@) by {
        reveal_strlit("__id");
        reveal_strlit("__label");
        reveal_strlit("__labels");
        reveal_strlit("__src");
        assert("__src"@[2] == 's');
        assert("__id"@[2] == 'i');
        assert("__label"@[2] == 'l');
        assert("__labels"@[2] == 'l');
    }
    lemma_plain_field(var, n.properties, "__id"@);
    lemma_plain_field(var, n.properties, "__label"@);
    lemma_plain_field(var, n.properties, "__labels"@);
    lemma_plain_field(var, n.properties, "__src"@);
    let r1 = assoc::put(Row::empty(), var, binding::id_view(n.id));
    assert(assoc::keys(Row::empty()).len() == 0);
    assert(r1 =~= seq![(var, binding::id_view(n.id))]);
    lemma_fields_appended(r1, var, n.properties);
    let r2 = r1 + fields;
    assert forall|j: int| 0 <= j < r2.len() implies ({
        let k = (#[trigger] r2[j]).0;
        k != id && k != label && k != labels && k != src
    }) by {
        if j > 0 {
            assert(r2[j] == fields[j - 1]);
        }
    }
    lemma_unbound(r2, label);
    assert(assoc::put(r2, label, joined) =~= r2.push((label, joined)));
    let r3 = r2.push((label, joined));
    lemma_unbound(r3, labels);
    let r4 = r3.push((labels, listed));
    lemma_unbound(r4, id);
    let row = r4.push((id, binding::id_view(n.id)));
    assert(row == binding::node_row(Row::empty(), n, var));
    lemma_unbound(row, src);
    assoc::lemma_lookup_put(r4, id, binding::id_view(n.id), label);
    assoc::lemma_lookup_put(r3, labels, listed, label);
    assoc::lemma_lookup_put(r2, label, joined, label);
    let ks = assoc::keys(row);
    assert(ks[0] == var);
    assoc::lemma_place_is(ks, var, 0);
    assert(row[0] == r1[0]);
    // The fields that the engine adds are no properties.
    lemma_own_props(r1, var, n.properties);
    let start = var + "."@;
    assert(row.drop_last() =~= r4);
    assert(r4.drop_last() =~= r3);
    assert(r3.drop_last() =~= r2);
    assert(binding::own_props(r3, start) == n.properties);
    assert(binding::own_props(r4, start) == n.properties);
    assert(binding::own_props(row, start) == n.properties);
    assert(((n.id.0 as i64) as u64) == n.id.0);
    assert(NodeId((n.id.0 as i64) as u64) == n.id);
    if n.labels.len() > 0 {
        lemma_joined_some(n.labels, ':');
        lemma_pieces_joined(n.labels, ':');
    } else {
        assert(binding::labels_in(text::joined(n.labels, ':')) =~= n.labels);
    }
}

/// The fields of a row but for full-text scores.
pub open spec fn stripped(s: Row) -> Row
    decreases s.len(),
{
    if s.len() == 0 {
        s
    } else if binding::is_score(s.last().0) {
        stripped(s.drop_last())
    } else {
        stripped(s.drop_last()).push(s.last())
    }
}

/// Both are bound, to equal values, or neither is.
pub open spec fn bound_alike(a: Option<ValueView>, b: Option<ValueView>) -> bool {
    match (a, b) {
        (Some(v), Some(w)) => order::same(w, v),
        (None, None) => true,
        _ => false,
    }
}

/// Keys that are distinct are so without the last one.
proof fn lemma_distinct_front<T>(s: Seq<(Seq<char>, T)>)
    requires
        s.len() > 0,
        assoc::distinct(assoc::keys(s)),
    ensures
        assoc::distinct(assoc::keys(s.drop_last())),
        forall|j: int| 0 <= j < s.len() - 1 ==> (#[trigger] s.drop_last()[j]).0 != s.last().0,
{
    let t = s.drop_last();
    assert forall|i: int, j: int| 0 <= i < j < t.len() implies #[trigger] assoc::keys(t)[i]
        != #[trigger] assoc::keys(t)[j] by {
        assert(assoc::keys(s)[i] != assoc::keys(s)[j]);
    }
    assert forall|j: int| 0 <= j < s.len() - 1 implies (#[trigger] t[j]).0 != s.last().0 by {
        assert(assoc::keys(s)[j] != assoc::keys(s)[s.len() - 1]);
    }
}

/// Where keys are distinct, a key reads as the entry that has it.
proof fn lemma_lookup_entry<T>(s: Seq<(Seq<char>, T)>, i: int)
    requires
        assoc::distinct(assoc::keys(s)),
        0 <= i < s.len(),
    ensures
        assoc::lookup(s, s[i].0) == Some(s[i].1),
{
    let ks = assoc::keys(s);
    assert(ks[i] == s[i].0);
    assoc::lemma_place_is(ks, s[i].0, i);
}

/// What is bound stands in an entry.
proof fn lemma_entry_of<T>(s: Seq<(Seq<char>, T)>, k: Seq<char>)
    ensures
        assoc::lookup(s, k) matches Some(v) ==> s.contains((k, v)),
{
    assoc::lemma_place(assoc::keys(s), k);
    let i = assoc::place(assoc::keys(s), k) as int;
    if i < s.len() {
        assert(assoc::keys(s)[i] == s[i].0);
        assert(s[i] == (k, s[i].1));
    }
}

/// What is left without scores.
proof fn lemma_stripped(s: Row)
    requires
        assoc::distinct(assoc::keys(s)),
    ensures
        stripped(s).len() == binding::unscored(s),
        assoc::distinct(assoc::keys(stripped(s))),
        forall|x: (Seq<char>, ValueView)| #[trigger]
            stripped(s).contains(x) <==> s.contains(x) && !binding::is_score(x.0),
    decreases s.len(),
{
    if s.len() > 0 {
        let t = s.drop_last();
        let u = stripped(t);
        lemma_distinct_front(s);
        lemma_stripped(t);
        let r = stripped(s);
        assert forall|x: (Seq<char>, ValueView)| #[trigger]
            r.contains(x) <==> s.contains(x) && !binding::is_score(x.0) by {
            if s.contains(x) {
                let i = choose|i: int| 0 <= i < s.len() && s[i] == x;
                if i < t.len() {
                    assert(t[i] == x);
                    assert(t.contains(x));
                }
            }
            if t.contains(x) {
                let i = choose|i: int| 0 <= i < t.len() && t[i] == x;
                assert(s[i] == x);
            }
            assert(s[s.len() - 1] == s.last());
            if !binding::is_score(s.last().0) {
                assert(r[r.len() - 1] == s.last());
                if u.contains(x) {
                    let i = choose|i: int| 0 <= i < u.len() && u[i] == x;
                    assert(r[i] == x);
                }
                if r.contains(x) {
                    let i = choose|i: int| 0 <= i < r.len() && r[i] == x;
                    if i < u.len() {
                        assert(u[i] == x);
                    }
                }
            }
        }
        if !binding::is_score(s.last().0) {
            assert forall|i: int, j: int| 0 <= i < j < r.len() implies #[trigger] assoc::keys(r)[i]
                != #[trigger] assoc::keys(r)[j] by {
                if j < u.len() {
                    assert(assoc::keys(u)[i] != assoc::keys(u)[j]);
                } else {
                    assert(u.contains(u[i]));
                    let k = choose|k: int| 0 <= k < t.len() && t[k] == u[i];
                    assert(t[k].0 != s.last().0);
                }
            }
        }
    }
}

/// Without scores, a key that is none reads as before.
proof fn lemma_stripped_lookup(s: Row, k: Seq<char>)
    requires
        assoc::distinct(assoc::keys(s)),
    ensures
        assoc::lookup(stripped(s), k) == (if binding::is_score(k) {
            None
        } else {
            assoc::lookup(s, k)
        }),
{
    lemma_stripped(s);
    let t = stripped(s);
    lemma_entry_of(s, k);
    lemma_entry_of(t, k);
    match assoc::lookup(t, k) {
        Some(v) => {
            assert(s.contains((k, v)));
            let i = choose|i: int| 0 <= i < s.len() && s[i] == (k, v);
            lemma_lookup_entry(s, i);
        },
        None => {
            if !binding::is_score(k) {
                match assoc::lookup(s, k) {
                    Some(v) => {
                        assert(t.contains((k, v)));
                        let i = choose|i: int| 0 <= i < t.len() && t[i] == (k, v);
                        lemma_lookup_entry(t, i);
                    },
                    None => {},
                }
            }
        },
    }
}

/// As many distinct keys, all among the others, are all of the others.
proof fn lemma_all_keys(a: Seq<Seq<char>>, b: Seq<Seq<char>>)
    requires
        assoc::distinct(a),
        assoc::distinct(b),
        a.len() == b.len(),
        forall|i: int| 0 <= i < a.len() ==> b.contains(#[trigger] a[i]),
    ensures
        forall|j: int| 0 <= j < b.len() ==> a.contains(#[trigger] b[j]),
{
    assert(a.no_duplicates());
    assert(b.no_duplicates());
    a.unique_seq_to_set();
    b.unique_seq_to_set();
    let (x, y) = (a.to_set(), b.to_set());
    assert(x.subset_of(y));
    vstd::set_lib::lemma_subset_equality(x, y);
    assert forall|j: int| 0 <= j < b.len() implies a.contains(#[trigger] b[j]) by {
        assert(y.contains(b[j]));
        assert(x.contains(b[j]));
    }
}

/// Rows are equal but for scores where, without scores, each name is bound to equal values by both
/// or bound by neither. The order of the fields does not count.
pub proof fn unscored_rows_are_equal_name_by_name(a: Row, b: Row)
    requires
        assoc::distinct(assoc::keys(a)),
        assoc::distinct(assoc::keys(b)),
    ensures
        binding::same_unscored(a, b) <==> (forall|k: Seq<char>|
            bound_alike(
                #[trigger] assoc::lookup(stripped(a), k),
                assoc::lookup(stripped(b), k),
            )),
{
    let (x, y) = (stripped(a), stripped(b));
    lemma_stripped(a);
    lemma_stripped(b);
    if binding::same_unscored(a, b) {
        let (xs, ys) = (assoc::keys(x), assoc::keys(y));
        assert forall|i: int| 0 <= i < xs.len() implies ys.contains(#[trigger] xs[i]) by {
            assert(x.contains(x[i]));
            let k = choose|k: int| 0 <= k < a.len() && a[k] == x[i];
            lemma_stripped_lookup(b, a[k].0);
            assoc::lemma_place(ys, xs[i]);
            assert(ys[assoc::place(ys, xs[i]) as int] == xs[i]);
        }
        lemma_all_keys(xs, ys);
        assert forall|k: Seq<char>| bound_alike(
            #[trigger] assoc::lookup(x, k),
            assoc::lookup(y, k),
        ) by {
            lemma_stripped_lookup(a, k);
            lemma_stripped_lookup(b, k);
            lemma_entry_of(a, k);
            lemma_entry_of(y, k);
            match assoc::lookup(x, k) {
                Some(v) => {
                    let i = choose|i: int| 0 <= i < a.len() && a[i] == (k, v);
                    assert(!binding::is_score(a[i].0));
                },
                None => match assoc::lookup(y, k) {
                    Some(w) => {
                        let j = choose|j: int| 0 <= j < y.len() && y[j] == (k, w);
                        assert(ys[j] == k);
                        assert(xs.contains(k));
                        let i = choose|i: int| 0 <= i < xs.len() && xs[i] == k;
                        lemma_lookup_entry(x, i);
                    },
                    None => {},
                },
            }
        }
    }
    if forall|k: Seq<char>|
        bound_alike(#[trigger] assoc::lookup(x, k), assoc::lookup(y, k)) {
        assert forall|i: int| 0 <= i < a.len() && !binding::is_score(
            (#[trigger] a[i]).0,
        ) implies (match assoc::lookup(b, a[i].0) {
            Some(v) => order::same(v, a[i].1),
            None => false,
        }) by {
            lemma_stripped_lookup(a, a[i].0);
            lemma_stripped_lookup(b, a[i].0);
            lemma_lookup_entry(a, i);
            assert(bound_alike(assoc::lookup(x, a[i].0), assoc::lookup(y, a[i].0)));
        }
        lemma_no_longer(x, y);
        lemma_no_longer(y, x);
    }
}

/// Distinct keys that are all bound by another row are no more than its fields.
proof fn lemma_no_longer(x: Row, y: Row)
    requires
        assoc::distinct(assoc::keys(x)),
        assoc::distinct(assoc::keys(y)),
        forall|k: Seq<char>|
            (#[trigger] assoc::lookup(x, k)) is Some ==> assoc::lookup(y, k) is Some,
    ensures
        x.len() <= y.len(),
{
    let (xs, ys) = (assoc::keys(x), assoc::keys(y));
    assert(xs.no_duplicates());
    assert(ys.no_duplicates());
    xs.unique_seq_to_set();
    ys.unique_seq_to_set();
    assert forall|k: Seq<char>| xs.to_set().contains(k) implies ys.to_set().contains(k) by {
        let i = choose|i: int| 0 <= i < xs.len() && xs[i] == k;
        lemma_lookup_entry(x, i);
        assert(assoc::lookup(x, k) is Some);
        assoc::lemma_place(ys, k);
        assert(ys[assoc::place(ys, k) as int] == k);
    }
    vstd::set_lib::lemma_len_subset(xs.to_set(), ys.to_set());
}

/// The maps in a value have distinct keys.
pub open spec fn tidy(v: ValueView) -> bool
    decreases v,
{
    match v {
        ValueView::List(s) => forall|i: int| 0 <= i < s.len() ==> tidy(#[trigger] s[i]),
        ValueView::MapValue(s) => tidy_entries(s),
        ValueView::Node(n) => tidy_node(n),
        ValueView::Edge(e) => tidy_edge(e),
        ValueView::Path(p) => tidy_path(p),
        _ => true,
    }
}

/// The keys are distinct, and so are those in the values.
pub open spec fn tidy_entries(s: Row) -> bool
    decreases s,
{
    assoc::distinct(assoc::keys(s)) && forall|i: int|
        0 <= i < s.len() ==> tidy((#[trigger] s[i]).1)
}

/// The maps in a node have distinct keys.
pub open spec fn tidy_node(n: NodeView) -> bool
    decreases n,
{
    tidy_entries(n.properties)
}

/// The maps in a relationship have distinct keys.
pub open spec fn tidy_edge(e: EdgeView) -> bool
    decreases e,
{
    tidy_entries(e.properties)
}

/// The maps in a path have distinct keys.
pub open spec fn tidy_path(p: PathValueView) -> bool
    decreases p,
{
    &&& forall|i: int| 0 <= i < p.nodes.len() ==> tidy_node(#[trigger] p.nodes[i])
    &&& forall|i: int| 0 <= i < p.edges.len() ==> tidy_edge(#[trigger] p.edges[i])
}

/// Equality of values goes both ways.
pub proof fn equality_goes_both_ways(a: ValueView, b: ValueView)
    requires
        tidy(a),
        tidy(b),
        order::same(a, b),
    ensures
        order::same(b, a),
    decreases a,
{
    match (a, b) {
        (ValueView::List(x), ValueView::List(y)) => {
            assert forall|i: int| 0 <= i < y.len() implies order::same(#[trigger] y[i], x[i]) by {
                assert(order::same(x[i], y[i]));
                equality_goes_both_ways(x[i], y[i]);
            }
        },
        (ValueView::MapValue(x), ValueView::MapValue(y)) => {
            lemma_entries_both_ways(x, y);
        },
        (ValueView::Node(x), ValueView::Node(y)) => {
            assert(tidy_node(x) && tidy_node(y) && order::same_node(x, y));
            lemma_entries_both_ways(x.properties, y.properties);
        },
        (ValueView::Edge(x), ValueView::Edge(y)) => {
            assert(tidy_edge(x) && tidy_edge(y) && order::same_edge(x, y));
            lemma_entries_both_ways(x.properties, y.properties);
        },
        (ValueView::Path(x), ValueView::Path(y)) => {
            assert(tidy_path(x) && tidy_path(y) && order::same_path(x, y));
            assert forall|i: int| 0 <= i < y.nodes.len() implies order::same_node(
                #[trigger] y.nodes[i],
                x.nodes[i],
            ) by {
                assert(order::same_node(x.nodes[i], y.nodes[i]));
                assert(tidy_node(x.nodes[i]) && tidy_node(y.nodes[i]));
                lemma_entries_both_ways(x.nodes[i].properties, y.nodes[i].properties);
            }
            assert forall|i: int| 0 <= i < y.edges.len() implies order::same_edge(
                #[trigger] y.edges[i],
                x.edges[i],
            ) by {
                assert(order::same_edge(x.edges[i], y.edges[i]));
                assert(tidy_edge(x.edges[i]) && tidy_edge(y.edges[i]));
                lemma_entries_both_ways(x.edges[i].properties, y.edges[i].properties);
            }
        },
        _ => {},
    }
}

/// Equality of maps goes both ways.
proof fn lemma_entries_both_ways(x: Row, y: Row)
    requires
        tidy_entries(x),
        tidy_entries(y),
        order::same_entries(x, y),
    ensures
        order::same_entries(y, x),
    decreases x,
{
    let (xs, ys) = (assoc::keys(x), assoc::keys(y));
    assert forall|i: int| 0 <= i < xs.len() implies ys.contains(#[trigger] xs[i]) by {
        assert(xs[i] == x[i].0);
        assoc::lemma_place(ys, xs[i]);
        assert(ys[assoc::place(ys, xs[i]) as int] == xs[i]);
    }
    lemma_all_keys(xs, ys);
    assert forall|j: int| 0 <= j < y.len() implies (match assoc::lookup(x, (#[trigger] y[j]).0) {
        Some(v) => order::same(y[j].1, v),
        None => false,
    }) by {
        assert(ys[j] == y[j].0);
        assert(xs.contains(ys[j]));
        let i = choose|i: int| 0 <= i < xs.len() && xs[i] == ys[j];
        assert(x[i].0 == y[j].0);
        lemma_lookup_entry(x, i);
        lemma_lookup_entry(y, j);
        assert(order::same(x[i].1, y[j].1));
        assert(tidy(x[i].1) && tidy(y[j].1));
        equality_goes_both_ways(x[i].1, y[j].1);
    }
}

/// Equality of rows but for scores goes both ways.
pub proof fn unscored_equality_goes_both_ways(a: Row, b: Row)
    requires
        tidy_entries(a),
        tidy_entries(b),
        binding::same_unscored(a, b),
    ensures
        binding::same_unscored(b, a),
{
    unscored_rows_are_equal_name_by_name(a, b);
    unscored_rows_are_equal_name_by_name(b, a);
    let (x, y) = (stripped(a), stripped(b));
    assert forall|k: Seq<char>| bound_alike(
        #[trigger] assoc::lookup(y, k),
        assoc::lookup(x, k),
    ) by {
        assert(bound_alike(assoc::lookup(x, k), assoc::lookup(y, k)));
        lemma_stripped_lookup(a, k);
        lemma_stripped_lookup(b, k);
        lemma_entry_of(a, k);
        lemma_entry_of(b, k);
        match (assoc::lookup(x, k), assoc::lookup(y, k)) {
            (Some(v), Some(w)) => {
                let i = choose|i: int| 0 <= i < a.len() && a[i] == (k, v);
                let j = choose|j: int| 0 <= j < b.len() && b[j] == (k, w);
                assert(tidy(a[i].1) && tidy(b[j].1));
                equality_goes_both_ways(w, v);
            },
            _ => {},
        }
    }
}

} // verus!
