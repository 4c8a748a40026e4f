//! What rows hold after fields, nodes and relationships were bound in them.
use crate::assoc;
use crate::binding;
use crate::binding_laws;
use crate::record;
use crate::record::Row;
use crate::text;
use crate::types::NodeId;
use crate::value::{NodeView, ValueView};
use vstd::prelude::*;

verus! {

/// The row binds no field of that name.
pub open spec fn free_of(row: Row, k: Seq<char>) -> bool {
    forall|i: int| 0 <= i < row.len() ==> (#[trigger] row[i]).0 != k
}

/// A name that no entry has reads as nothing, and one that an entry has reads as something.
pub proof fn only_bound_names_read(row: Row, k: Seq<char>)
    ensures
        free_of(row, k) <==> assoc::lookup(row, k) is None,
        assoc::lookup(row, k) matches Some(v) ==> row.contains((k, v)),
{
    let ks = assoc::keys(row);
    assoc::lemma_place(ks, k);
    let i = assoc::place(ks, k) as int;
    if i < row.len() {
        assert(ks[i] == row[i].0);
        assert(row[i] == (k, row[i].1));
    } else {
        assert forall|j: int| 0 <= j < row.len() implies (#[trigger] row[j]).0 != k by {
            assert(ks[j] == row[j].0);
        }
    }
}

/// A name reads as the first entry that has it.
pub proof fn the_first_entry_of_a_name_is_read(row: Row, i: int)
    requires
        0 <= i < row.len(),
        forall|j: int| 0 <= j < i ==> (#[trigger] row[j]).0 != row[i].0,
    ensures
        assoc::lookup(row, row[i].0) == Some(row[i].1),
{
    let ks = assoc::keys(row);
    assert forall|j: int| 0 <= j < i implies #[trigger] ks[j] != row[i].0 by {
        assert(row[j].0 != row[i].0);
    }
    assoc::lemma_place_is(ks, row[i].0, i);
}

/// A row that is filled up from another keeps what it has, and takes from the other what it
/// lacks.
pub proof fn filling_keeps_and_adds(l: Row, r: Row, k: Seq<char>)
    ensures
        assoc::lookup(record::filled(l, r), k) == (if assoc::lookup(l, k) is Some {
            assoc::lookup(l, k)
        } else {
            assoc::lookup(r, k)
        }),
    decreases r.len(),
{
    only_bound_names_read(r, k);
    if r.len() > 0 {
        let t = r.drop_last();
        filling_keeps_and_adds(l, t, k);
        filling_keeps_and_adds(l, t, r.last().0);
        only_bound_names_read(t, k);
        let so_far = record::filled(l, t);
        assoc::lemma_lookup_put(so_far, r.last().0, r.last().1, k);
        lemma_lookup_push(t, r.last(), k);
        assert(t.push(r.last()) =~= r);
    }
}

/// Reading behind one more entry.
pub proof fn lemma_lookup_push(s: Row, e: (Seq<char>, ValueView), k: Seq<char>)
    ensures
        assoc::lookup(s.push(e), k) == (if assoc::lookup(s, k) is Some {
            assoc::lookup(s, k)
        } else if e.0 == k {
            Some(e.1)
        } else {
            None
        }),
{
    let t = s.push(e);
    let ks = assoc::keys(s);
    let kt = assoc::keys(t);
    assoc::lemma_place(ks, k);
    let i = assoc::place(ks, k) as int;
    assert forall|j: int| 0 <= j < i implies #[trigger] kt[j] != k by {
        assert(ks[j] != k);
    }
    if i < s.len() {
        assert(kt[i] == ks[i]);
        assoc::lemma_place_is(kt, k, i);
    } else if e.0 == k {
        assert(kt[i] == k);
        assoc::lemma_place_is(kt, k, i);
    } else {
        assert forall|j: int| 0 <= j < kt.len() implies #[trigger] kt[j] != k by {
            if j < s.len() {
                assert(ks[j] != k);
            }
        }
        assoc::lemma_place_is(kt, k, t.len() as int);
    }
}

/// A row that another is laid over takes what the other has, and keeps what it alone has. No
/// name occurs twice in the other.
pub proof fn overlaying_takes_and_keeps(l: Row, r: Row, k: Seq<char>)
    requires
        assoc::distinct(assoc::keys(r)),
    ensures
        assoc::lookup(record::put_all(l, r), k) == (if assoc::lookup(r, k) is Some {
            assoc::lookup(r, k)
        } else {
            assoc::lookup(l, k)
        }),
    decreases r.len(),
{
    only_bound_names_read(r, k);
    if r.len() > 0 {
        let t = r.drop_last();
        assert(assoc::distinct(assoc::keys(t))) by {
            assert forall|i: int, j: int| 0 <= i < j < t.len() implies #[trigger] assoc::keys(t)[i]
                != #[trigger] assoc::keys(t)[j] by {
                assert(assoc::keys(r)[i] != assoc::keys(r)[j]);
            }
        }
        overlaying_takes_and_keeps(l, t, k);
        assoc::lemma_lookup_put(record::put_all(l, t), r.last().0, r.last().1, k);
        lemma_lookup_push(t, r.last(), k);
        assert(t.push(r.last()) =~= r);
        if r.last().0 == k {
            assert(free_of(t, k)) by {
                assert forall|j: int| 0 <= j < t.len() implies (#[trigger] t[j]).0 != k by {
                    assert(assoc::keys(r)[j] != assoc::keys(r)[r.len() - 1]);
                }
            }
            only_bound_names_read(t, k);
        }
    }
}

/// The name is that of a variable, or of one of its fields.
pub open spec fn belongs_to(k: Seq<char>, var: Seq<char>) -> bool {
    k == var || (k.len() > var.len() && k.take(var.len() as int) == var && k[var.len() as int]
        == '.')
}

/// A field of a variable belongs to it.
proof fn lemma_field_belongs(var: Seq<char>, name: Seq<char>)
    ensures
        belongs_to(text::dotted(var, name), var),
{
    reveal_strlit(".");
    let k = text::dotted(var, name);
    assert(k.take(var.len() as int) =~= var);
    assert(k[var.len() as int] == '.');
}

/// The fields of properties belong to the variable.
proof fn lemma_fields_belong(var: Seq<char>, s: Row, k: Seq<char>)
    requires
        !belongs_to(k, var),
    ensures
        forall|i: int| 0 <= i < s.len() ==> (#[trigger] record::fields_of(var, s)[i]).0 != k,
{
    assert forall|i: int| 0 <= i < s.len() implies (#[trigger] record::fields_of(var, s)[i]).0
        != k by {
        lemma_field_belongs(var, s[i].0);
    }
}

/// A property reads as the field that it was bound to.
proof fn lemma_field_of(base: Row, var: Seq<char>, s: Row, name: Seq<char>)
    requires
        assoc::distinct(assoc::keys(s)),
        assoc::lookup(s, name) is Some,
    ensures
        assoc::lookup(
            record::put_all(base, record::fields_of(var, s)),
            text::dotted(var, name),
        ) == assoc::lookup(s, name),
{
    let fs = record::fields_of(var, s);
    let ks = assoc::keys(s);
    assert(assoc::distinct(assoc::keys(fs))) by {
        assert forall|i: int, j: int| 0 <= i < j < fs.len() implies #[trigger] assoc::keys(fs)[i]
            != #[trigger] assoc::keys(fs)[j] by {
            assert(ks[i] != ks[j]);
            binding_laws::lemma_dotted(var, s[i].0, s[j].0);
        }
    }
    assoc::lemma_place(ks, name);
    let i = assoc::place(ks, name) as int;
    assert(ks[i] == s[i].0);
    assert forall|j: int| 0 <= j < i implies (#[trigger] fs[j]).0 != fs[i].0 by {
        assert(ks[j] != name);
        binding_laws::lemma_dotted(var, s[j].0, s[i].0);
    }
    the_first_entry_of_a_name_is_read(fs, i);
    overlaying_takes_and_keeps(base, fs, text::dotted(var, name));
}

/// A row in which a node was bound to a variable holds the node's id under the variable and
/// under its `__id`, the labels under `__labels`, and each property under its name; all that
/// does not belong to the variable is as before.
pub proof fn a_bound_node_is_in_the_row(
    rec: Row,
    n: NodeView,
    var: Seq<char>,
    name: Seq<char>,
    k: Seq<char>,
)
    requires
        binding_laws::plain_keys(n.properties),
        assoc::distinct(assoc::keys(n.properties)),
    ensures
        ({
            let row = binding::node_row(rec, n, var);
            &&& assoc::lookup(row, var) == Some(ValueView::I64(n.id.0 as i64))
            &&& assoc::lookup(row, var + "."@ + "__id"@) == Some(ValueView::I64(n.id.0 as i64))
            &&& assoc::lookup(row, var + "."@ + "__labels"@) matches Some(ValueView::List(ls))
                && ls.len() == n.labels.len() && forall|i: int|
                0 <= i < ls.len() ==> #[trigger] ls[i] == ValueView::String(n.labels[i])
            &&& assoc::lookup(n.properties, name) is Some ==> assoc::lookup(row, var + "."@ + name)
                == assoc::lookup(n.properties, name)
            &&& !belongs_to(k, var) ==> assoc::lookup(row, k) == assoc::lookup(rec, k)
        }),
{
    reveal_strlit("__");
    reveal_strlit("__id");
    reveal_strlit("__label");
    reveal_strlit("__labels");
    assert("__id"@[2] == 'i');
    assert("__label"@[2] == 'l');
    assert("__labels"@[2] == 'l');
    assert("__id"@.take(2) =~= "__"@);
    assert("__label"@.take(2) =~= "__"@);
    assert("__labels"@.take(2) =~= "__"@);
    let id = text::dotted(var, "__id"@);
    let label = text::dotted(var, "__label"@);
    let labels = text::dotted(var, "__labels"@);
    assert(id == var + "."@ + "__id"@);
    assert(labels == var + "."@ + "__labels"@);
    assert(text::dotted(var, name) == var + "."@ + name);
    let fs = record::fields_of(var, n.properties);
    let joined = ValueView::String(text::joined(n.labels, ':'));
    let listed = ValueView::List(binding::label_list(n.labels));
    let r1 = assoc::put(rec, var, binding::id_view(n.id));
    let r2 = record::put_all(r1, fs);
    let r3 = assoc::put(r2, label, joined);
    let r4 = assoc::put(r3, labels, listed);
    let r5 = assoc::put(r4, id, binding::id_view(n.id));
    assert(r5 == binding::node_row(rec, n, var));
    binding_laws::lemma_dotted(var, "__id"@, "__label"@);
    binding_laws::lemma_dotted(var, "__id"@, "__labels"@);
    binding_laws::lemma_dotted(var, "__label"@, "__labels"@);
    // The variable itself.
    assert forall|i: int| 0 <= i < fs.len() implies (#[trigger] fs[i]).0 != var by {
        binding_laws::lemma_dotted(var, n.properties[i].0, n.properties[i].0);
    }
    assoc::lemma_lookup_put(rec, var, binding::id_view(n.id), var);
    binding_laws::lemma_put_all_other(r1, fs, var);
    assoc::lemma_lookup_put(r2, label, joined, var);
    assoc::lemma_lookup_put(r3, labels, listed, var);
    assoc::lemma_lookup_put(r4, id, binding::id_view(n.id), var);
    // The fields that are added.
    assoc::lemma_lookup_put(r3, labels, listed, labels);
    assoc::lemma_lookup_put(r4, id, binding::id_view(n.id), labels);
    assoc::lemma_lookup_put(r4, id, binding::id_view(n.id), id);
    // A property.
    if assoc::lookup(n.properties, name) is Some {
        let f = text::dotted(var, name);
        only_bound_names_read(n.properties, name);
        let e = (name, assoc::lookup(n.properties, name)->0);
        let i = choose|i: int| 0 <= i < n.properties.len() && n.properties[i] == e;
        assert(!text::begins(n.properties[i].0, "__"@));
        assert(name != "__id"@ && name != "__label"@ && name != "__labels"@);
        binding_laws::lemma_dotted(var, name, "__id"@);
        binding_laws::lemma_dotted(var, name, "__label"@);
        binding_laws::lemma_dotted(var, name, "__labels"@);
        lemma_field_of(r1, var, n.properties, name);
        assoc::lemma_lookup_put(r2, label, joined, f);
        assoc::lemma_lookup_put(r3, labels, listed, f);
        assoc::lemma_lookup_put(r4, id, binding::id_view(n.id), f);
    }
    // All else.
    if !belongs_to(k, var) {
        lemma_field_belongs(var, "__id"@);
        lemma_field_belongs(var, "__label"@);
        lemma_field_belongs(var, "__labels"@);
        lemma_fields_belong(var, n.properties, k);
        assoc::lemma_lookup_put(rec, var, binding::id_view(n.id), k);
        binding_laws::lemma_put_all_other(r1, fs, k);
        assoc::lemma_lookup_put(r2, label, joined, k);
        assoc::lemma_lookup_put(r3, labels, listed, k);
        assoc::lemma_lookup_put(r4, id, binding::id_view(n.id), k);
    }
}

/// A row in which a relationship was bound to a variable holds its type under the variable and
/// under `__type`, its ends under `__src` and `__dst`, its number under `__edge_seq`, and each
/// property under its name; all that does not belong to the variable is as before.
pub proof fn a_bound_relationship_is_in_the_row(
    rec: Row,
    var: Seq<char>,
    src: NodeId,
    dst: NodeId,
    label: Seq<char>,
    number: u64,
    props: Row,
    name: Seq<char>,
    k: Seq<char>,
)
    requires
        binding_laws::plain_keys(props),
        assoc::distinct(assoc::keys(props)),
    ensures
        ({
            let row = binding::edge_row(rec, var, src, dst, label, Some(number), props);
            &&& assoc::lookup(row, var) == Some(ValueView::String(label))
            &&& assoc::lookup(row, var + "."@ + "__src"@) == Some(ValueView::I64(src.0 as i64))
            &&& assoc::lookup(row, var + "."@ + "__dst"@) == Some(ValueView::I64(dst.0 as i64))
            &&& assoc::lookup(row, var + "."@ + "__type"@) == Some(ValueView::String(label))
            &&& assoc::lookup(row, var + "."@ + "__edge_seq"@) == Some(
                ValueView::I64(number as i64),
            )
            &&& assoc::lookup(props, name) is Some ==> assoc::lookup(row, var + "."@ + name)
                == assoc::lookup(props, name)
            &&& !belongs_to(k, var) ==> assoc::lookup(row, k) == assoc::lookup(rec, k)
        }),
{
    reveal_strlit("__");
    reveal_strlit("__src");
    reveal_strlit("__dst");
    reveal_strlit("__type");
    reveal_strlit("__edge_seq");
    assert("__src"@[2] == 's');
    assert("__dst"@[2] == 'd');
    assert("__type"@[2] == 't');
    assert("__edge_seq"@[2] == 'e');
    assert("__src"@.take(2) =~= "__"@);
    assert("__dst"@.take(2) =~= "__"@);
    assert("__type"@.take(2) =~= "__"@);
    assert("__edge_seq"@.take(2) =~= "__"@);
    let from = text::dotted(var, "__src"@);
    let to = text::dotted(var, "__dst"@);
    let typed = text::dotted(var, "__type"@);
    let numbered = text::dotted(var, "__edge_seq"@);
    assert(from == var + "."@ + "__src"@);
    assert(to == var + "."@ + "__dst"@);
    assert(typed == var + "."@ + "__type"@);
    assert(numbered == var + "."@ + "__edge_seq"@);
    assert(text::dotted(var, name) == var + "."@ + name);
    let fs = record::fields_of(var, props);
    let l = ValueView::String(label);
    let n = ValueView::I64(number as i64);
    let r1 = assoc::put(rec, var, l);
    let r2 = assoc::put(r1, from, binding::id_view(src));
    let r3 = assoc::put(r2, to, binding::id_view(dst));
    let r4 = assoc::put(r3, typed, l);
    let r5 = assoc::put(r4, numbered, n);
    assert(record::put_all(r5, fs) == binding::edge_row(
        rec,
        var,
        src,
        dst,
        label,
        Some(number),
        props,
    ));
    binding_laws::lemma_dotted(var, "__src"@, "__dst"@);
    binding_laws::lemma_dotted(var, "__src"@, "__type"@);
    binding_laws::lemma_dotted(var, "__src"@, "__edge_seq"@);
    binding_laws::lemma_dotted(var, "__dst"@, "__type"@);
    binding_laws::lemma_dotted(var, "__dst"@, "__edge_seq"@);
    binding_laws::lemma_dotted(var, "__type"@, "__edge_seq"@);
    assert forall|i: int| 0 <= i < fs.len() implies (#[trigger] fs[i]).0 != var by {
        binding_laws::lemma_dotted(var, props[i].0, props[i].0);
    }
    lemma_put_five(rec, r2, r3, r4, r5, (var, l), (from, binding::id_view(src)), (
        to,
        binding::id_view(dst),
    ), (typed, l), (numbered, n), var);
    binding_laws::lemma_put_all_other(r5, fs, var);
    lemma_put_five(rec, r2, r3, r4, r5, (var, l), (from, binding::id_view(src)), (
        to,
        binding::id_view(dst),
    ), (typed, l), (numbered, n), from);
    binding_laws::lemma_plain_field(var, props, "__src"@);
    binding_laws::lemma_put_all_other(r5, fs, from);
    lemma_put_five(rec, r2, r3, r4, r5, (var, l), (from, binding::id_view(src)), (
        to,
        binding::id_view(dst),
    ), (typed, l), (numbered, n), to);
    binding_laws::lemma_plain_field(var, props, "__dst"@);
    binding_laws::lemma_put_all_other(r5, fs, to);
    lemma_put_five(rec, r2, r3, r4, r5, (var, l), (from, binding::id_view(src)), (
        to,
        binding::id_view(dst),
    ), (typed, l), (numbered, n), typed);
    binding_laws::lemma_plain_field(var, props, "__type"@);
    binding_laws::lemma_put_all_other(r5, fs, typed);
    lemma_put_five(rec, r2, r3, r4, r5, (var, l), (from, binding::id_view(src)), (
        to,
        binding::id_view(dst),
    ), (typed, l), (numbered, n), numbered);
    binding_laws::lemma_plain_field(var, props, "__edge_seq"@);
    binding_laws::lemma_put_all_other(r5, fs, numbered);
    if assoc::lookup(props, name) is Some {
        lemma_field_of(r5, var, props, name);
    }
    if !belongs_to(k, var) {
        lemma_field_belongs(var, "__src"@);
        lemma_field_belongs(var, "__dst"@);
        lemma_field_belongs(var, "__type"@);
        lemma_field_belongs(var, "__edge_seq"@);
        lemma_fields_belong(var, props, k);
        lemma_put_five(rec, r2, r3, r4, r5, (var, l), (from, binding::id_view(src)), (
            to,
            binding::id_view(dst),
        ), (typed, l), (numbered, n), k);
        binding_laws::lemma_put_all_other(r5, fs, k);
    }
}

/// Reading behind five entries that were bound one after the other.
proof fn lemma_put_five(
    rec: Row,
    r2: Row,
    r3: Row,
    r4: Row,
    r5: Row,
    a: (Seq<char>, ValueView),
    b: (Seq<char>, ValueView),
    c: (Seq<char>, ValueView),
    d: (Seq<char>, ValueView),
    e: (Seq<char>, ValueView),
    k: Seq<char>,
)
    requires
        r2 == assoc::put(assoc::put(rec, a.0, a.1), b.0, b.1),
        r3 == assoc::put(r2, c.0, c.1),
        r4 == assoc::put(r3, d.0, d.1),
        r5 == assoc::put(r4, e.0, e.1),
    ensures
        assoc::lookup(r5, k) == (if k == e.0 {
            Some(e.1)
        } else if k == d.0 {
            Some(d.1)
        } else if k == c.0 {
            Some(c.1)
        } else if k == b.0 {
            Some(b.1)
        } else if k == a.0 {
            Some(a.1)
        } else {
            assoc::lookup(rec, k)
        }),
{
    assoc::lemma_lookup_put(rec, a.0, a.1, k);
    assoc::lemma_lookup_put(assoc::put(rec, a.0, a.1), b.0, b.1, k);
    assoc::lemma_lookup_put(r2, c.0, c.1, k);
    assoc::lemma_lookup_put(r3, d.0, d.1, k);
    assoc::lemma_lookup_put(r4, e.0, e.1, k);
}

/// Fields that are carried over under their own beginning keep their names, in their order.
pub proof fn carried_fields_keep_their_names(s: Row, start: Seq<char>)
    ensures
        forall|i: int|
            0 <= i < record::carried(s, start, start).len() ==> {
                let e = #[trigger] record::carried(s, start, start)[i];
                s.contains(e) && e.0.len() >= start.len() && e.0.take(start.len() as int) == start
            },
        assoc::distinct(assoc::keys(s)) ==> assoc::distinct(
            assoc::keys(record::carried(s, start, start)),
        ),
    decreases s.len(),
{
    let c = record::carried(s, start, start);
    if s.len() > 0 {
        let t = s.drop_last();
        carried_fields_keep_their_names(t, start);
        let so_far = record::carried(t, start, start);
        let e = s.last();
        assert forall|i: int| 0 <= i < c.len() implies ({
            let e = #[trigger] c[i];
            s.contains(e) && e.0.len() >= start.len() && e.0.take(start.len() as int) == start
        }) by {
            if i < so_far.len() {
                assert(c[i] == so_far[i]);
                assert(t.contains(so_far[i]));
                let k = choose|k: int| 0 <= k < t.len() && t[k] == so_far[i];
                assert(s[k] == c[i]);
            } else {
                let rest = text::after(e.0, start)->0;
                assert(start + rest =~= e.0);
                assert(s[s.len() - 1] == c[i]);
                assert(c[i].0.take(start.len() as int) =~= start);
            }
        }
        if assoc::distinct(assoc::keys(s)) {
            assert(assoc::distinct(assoc::keys(t))) by {
                assert forall|i: int, j: int|
                    0 <= i < j < t.len() implies #[trigger] assoc::keys(t)[i]
                    != #[trigger] assoc::keys(t)[j] by {
                    assert(assoc::keys(s)[i] != assoc::keys(s)[j]);
                }
            }
            assert forall|i: int, j: int| 0 <= i < j < c.len() implies #[trigger] assoc::keys(c)[i]
                != #[trigger] assoc::keys(c)[j] by {
                if j < so_far.len() {
                    assert(assoc::keys(so_far)[i] != assoc::keys(so_far)[j]);
                } else {
                    assert(c[i] == so_far[i]);
                    assert(t.contains(so_far[i]));
                    let k = choose|k: int| 0 <= k < t.len() && t[k] == so_far[i];
                    assert(assoc::keys(s)[k] != assoc::keys(s)[s.len() - 1]);
                    let rest = text::after(e.0, start)->0;
                    assert(start + rest =~= e.0);
                }
            }
        }
    }
}

/// A field that begins so is carried over, and reads as before.
pub proof fn carried_fields_read_alike(s: Row, start: Seq<char>, name: Seq<char>)
    requires
        assoc::distinct(assoc::keys(s)),
    ensures
        assoc::distinct(assoc::keys(record::carried(s, start, start))),
        assoc::lookup(record::carried(s, start, start), start + name) == assoc::lookup(
            s,
            start + name,
        ),
    decreases s.len(),
{
    carried_fields_keep_their_names(s, start);
    let k = start + name;
    if s.len() > 0 {
        let t = s.drop_last();
        assert(assoc::distinct(assoc::keys(t))) by {
            assert forall|i: int, j: int| 0 <= i < j < t.len() implies #[trigger] assoc::keys(t)[i]
                != #[trigger] assoc::keys(t)[j] by {
                assert(assoc::keys(s)[i] != assoc::keys(s)[j]);
            }
        }
        carried_fields_read_alike(t, start, name);
        let e = s.last();
        assert(t.push(e) =~= s);
        lemma_lookup_push(t, e, k);
        match text::after(e.0, start) {
            Some(rest) => {
                assert(start + rest =~= e.0);
                lemma_lookup_push(record::carried(t, start, start), (start + rest, e.1), k);
            },
            None => {
                if e.0 == k {
                    assert(k.take(start.len() as int) =~= start);
                }
            },
        }
    } else {
        only_bound_names_read(s, k);
        only_bound_names_read(record::carried(s, start, start), k);
    }
}

} // verus!
