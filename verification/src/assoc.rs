//! Association lists keyed by text: the maps of the query language.
//!
//! Keys are distinct and keep the order in which they first came in.
use vstd::prelude::*;

verus! {

/// A map from text to values, in insertion order.
#[derive(Debug, PartialEq)]
pub struct AssocList<V> {
    pub entries: Vec<(String, V)>,
}

/// The keys of a list of entries.
pub open spec fn keys_of<V>(s: Seq<(String, V)>) -> Seq<Seq<char>> {
    Seq::new(s.len(), |i: int| s[i].0@)
}

/// The keys of a list of entries.
pub open spec fn keys<T>(s: Seq<(Seq<char>, T)>) -> Seq<Seq<char>> {
    Seq::new(s.len(), |i: int| s[i].0)
}

/// The first place of a key among `keys`; the number of keys where it does not occur.
pub open spec fn place(ks: Seq<Seq<char>>, k: Seq<char>) -> nat
    decreases ks.len(),
{
    if ks.len() == 0 || ks[0] == k {
        0
    } else {
        1 + place(ks.drop_first(), k)
    }
}

/// The entries with `k` bound to `v`: in place where `k` is bound already, at the end where
/// it is not.
pub open spec fn put<T>(s: Seq<(Seq<char>, T)>, k: Seq<char>, v: T) -> Seq<(Seq<char>, T)> {
    let i = place(keys(s), k);
    if i < s.len() {
        s.update(i as int, (k, v))
    } else {
        s.push((k, v))
    }
}

/// The value bound to `k`.
pub open spec fn lookup<T>(s: Seq<(Seq<char>, T)>, k: Seq<char>) -> Option<T> {
    let i = place(keys(s), k);
    if i < s.len() {
        Some(s[i as int].1)
    } else {
        None
    }
}

/// The entries without `k`; the last entry takes its place.
pub open spec fn swapped_out<T>(s: Seq<(Seq<char>, T)>, k: Seq<char>) -> Seq<(Seq<char>, T)> {
    let i = place(keys(s), k);
    if i < s.len() {
        s.update(i as int, s.last()).drop_last()
    } else {
        s
    }
}

/// No key occurs twice.
pub open spec fn distinct(ks: Seq<Seq<char>>) -> bool {
    forall|i: int, j: int| 0 <= i < j < ks.len() ==> #[trigger] ks[i] != #[trigger] ks[j]
}

/// The first place of a key holds it, and no place before does.
pub proof fn lemma_place(ks: Seq<Seq<char>>, k: Seq<char>)
    ensures
        place(ks, k) <= ks.len(),
        place(ks, k) < ks.len() ==> ks[place(ks, k) as int] == k,
        forall|j: int| 0 <= j < place(ks, k) ==> #[trigger] ks[j] != k,
    decreases ks.len(),
{
    if ks.len() > 0 && ks[0] != k {
        let rest = ks.drop_first();
        lemma_place(rest, k);
        assert forall|j: int| 0 <= j < place(ks, k) implies #[trigger] ks[j] != k by {
            if j > 0 {
                assert(rest[j - 1] == ks[j]);
            }
        }
    }
}

/// A place that holds the key, with no such place before it, is the first place of the key.
pub proof fn lemma_place_is(ks: Seq<Seq<char>>, k: Seq<char>, at: int)
    requires
        0 <= at <= ks.len(),
        at < ks.len() ==> ks[at] == k,
        forall|j: int| 0 <= j < at ==> #[trigger] ks[j] != k,
    ensures
        place(ks, k) == at,
{
    lemma_place(ks, k);
    if place(ks, k) < at {
        assert(ks[place(ks, k) as int] != k);
    } else if at < place(ks, k) {
        assert(ks[at] != k);
    }
}

/// Reading back what was bound gives it; every other key reads as before.
pub proof fn lemma_lookup_put<T>(s: Seq<(Seq<char>, T)>, k: Seq<char>, v: T, other: Seq<char>)
    ensures
        lookup(put(s, k, v), k) == Some(v),
        other != k ==> lookup(put(s, k, v), other) == lookup(s, other),
{
    lemma_place(keys(s), k);
    let t = put(s, k, v);
    let i = place(keys(s), k) as int;
    assert forall|j: int| 0 <= j < i implies #[trigger] keys(t)[j] != k by {
        assert(keys(s)[j] != k);
    }
    lemma_place_is(keys(t), k, i);
    if other != k {
        lemma_place(keys(s), other);
        let o = place(keys(s), other) as int;
        assert forall|j: int| 0 <= j < o implies #[trigger] keys(t)[j] != other by {
            assert(keys(s)[j] != other);
        }
        if i < s.len() {
            if o < s.len() {
                assert(keys(s)[o] == other);
                assert(keys(t)[o] == other);
            }
            lemma_place_is(keys(t), other, o);
        } else if o < s.len() {
            assert(keys(s)[o] == other);
            assert(keys(t)[o] == other);
            lemma_place_is(keys(t), other, o);
        } else {
            assert(keys(t)[s.len() as int] == k);
            assert forall|j: int| 0 <= j < t.len() implies #[trigger] keys(t)[j] != other by {
                if j < s.len() {
                    assert(keys(s)[j] != other);
                }
            }
            lemma_place_is(keys(t), other, t.len() as int);
        }
    }
}

/// Binding a key, new or already bound, leaves every key bound once.
pub proof fn binding_keeps_keys_distinct<T>(s: Seq<(Seq<char>, T)>, k: Seq<char>, v: T)
    requires
        distinct(keys(s)),
    ensures
        distinct(keys(put(s, k, v))),
{
    lemma_place(keys(s), k);
    let t = put(s, k, v);
    assert forall|i: int, j: int| 0 <= i < j < keys(t).len() implies #[trigger] keys(t)[i]
        != #[trigger] keys(t)[j] by {
        if j < s.len() {
            assert(keys(s)[i] != keys(s)[j]);
            assert(keys(t)[i] == keys(s)[i]);
            assert(keys(t)[j] == keys(s)[j]);
        } else {
            assert(keys(s)[i] != k);
        }
    }
}

/// A list of entries and a list of views hold the same keys.
pub open spec fn same_keys<V, T>(s: Seq<(String, V)>, t: Seq<(Seq<char>, T)>) -> bool {
    s.len() == t.len() && forall|i: int| 0 <= i < s.len() ==> (#[trigger] s[i]).0@ == t[i].0
}

/// Equal keys have equal places.
pub proof fn lemma_same_keys<V, T>(s: Seq<(String, V)>, t: Seq<(Seq<char>, T)>)
    requires
        same_keys(s, t),
    ensures
        keys_of(s) == keys(t),
{
    assert(keys_of(s) =~= keys(t));
}

impl<V> AssocList<V> {
    /// A list without entries.
    pub fn new() -> (r: AssocList<V>)
        ensures
            r.entries@ == Seq::<(String, V)>::empty(),
    {
        AssocList { entries: Vec::new() }
    }

    /// How many keys are bound.
    pub fn len(&self) -> (r: usize)
        ensures
            r == self.entries@.len(),
    {
        self.entries.len()
    }

    /// True when no key is bound.
    pub fn is_empty(&self) -> (r: bool)
        ensures
            r == (self.entries@.len() == 0),
    {
        self.entries.len() == 0
    }

    /// The first place of a key; the number of entries where it is not bound.
    pub fn find(&self, key: &str) -> (r: usize)
        ensures
            r == place(keys_of(self.entries@), key@),
            r <= self.entries@.len(),
            r < self.entries@.len() ==> self.entries@[r as int].0@ == key@,
    {
        let k = key.to_owned();
        let mut i: usize = 0;
        let ghost ks = keys_of(self.entries@);
        while i < self.entries.len()
            invariant
                i <= self.entries.len(),
                k@ == key@,
                ks == keys_of(self.entries@),
                forall|j: int| 0 <= j < i ==> #[trigger] ks[j] != key@,
            decreases self.entries.len() - i,
        {
            if self.entries[i].0 == k {
                proof {
                    lemma_place_is(ks, key@, i as int);
                }
                return i;
            }
            i = i + 1;
        }
        proof {
            lemma_place_is(ks, key@, i as int);
        }
        i
    }

    /// The value bound to a key.
    pub fn get(&self, key: &str) -> (r: Option<&V>)
        ensures
            match r {
                Some(v) => place(keys_of(self.entries@), key@) < self.entries@.len() && *v
                    == self.entries@[place(keys_of(self.entries@), key@) as int].1,
                None => place(keys_of(self.entries@), key@) >= self.entries@.len(),
            },
    {
        let i = self.find(key);
        if i < self.entries.len() {
            Some(&self.entries[i].1)
        } else {
            None
        }
    }

    /// True when the key is bound.
    pub fn contains_key(&self, key: &str) -> (r: bool)
        ensures
            r == (place(keys_of(self.entries@), key@) < self.entries@.len()),
    {
        self.find(key) < self.entries.len()
    }

    /// Binds a key: in place where it is bound already, at the end where it is not.
    pub fn insert(&mut self, key: String, value: V)
        ensures
            ({
                let i = place(keys_of(old(self).entries@), key@);
                if i < old(self).entries@.len() {
                    final(self).entries@ == old(self).entries@.update(
                        i as int,
                        (old(self).entries@[i as int].0, value),
                    )
                } else {
                    final(self).entries@ == old(self).entries@.push((key, value))
                }
            }),
    {
        let i = self.find(key.as_str());
        if i < self.entries.len() {
            let old_key = self.entries[i].0.clone();
            self.entries.set(i, (old_key, value));
        } else {
            self.entries.push((key, value));
        }
    }

    /// Unbinds a key; the last entry takes its place.
    pub fn swap_remove(&mut self, key: &str)
        ensures
            ({
                let i = place(keys_of(old(self).entries@), key@);
                if i < old(self).entries@.len() {
                    final(self).entries@ == old(self).entries@.update(
                        i as int,
                        old(self).entries@.last(),
                    ).drop_last()
                } else {
                    final(self).entries@ == old(self).entries@
                }
            }),
    {
        let i = self.find(key);
        if i < self.entries.len() {
            self.entries.swap_remove(i);
        }
    }
}

} // verus!
