//! A bounded cache of parsed queries.
//!
//! Applications issue the same query text again and again; the cache spares them the parser.
//! Only the syntax tree is kept: it depends neither on indexes nor on parameters. When the
//! cache is full, the entry that came in first makes room.
use crate::assoc;
use crate::assoc::AssocList;
use crate::ast::Statement;
use crate::ast_model::StatementView;
use crate::parser;
use crate::text;
use crate::types;
use crate::types::{ErrorView, GraphError};
use vstd::prelude::*;

verus! {

/// How many queries a cache keeps unless told otherwise.
pub const DEFAULT_CAPACITY: usize = 128;

/// Parsed queries by their text, in the order in which they came in.
pub struct ParseCache {
    entries: AssocList<Statement>,
    capacity: usize,
}

/// What the entries of a cache say.
pub open spec fn entries_view(s: Seq<(String, Statement)>) -> Seq<(Seq<char>, StatementView)> {
    Seq::new(s.len(), |i: int| (s[i].0@, s[i].1@))
}

/// Every entry is the parse of its own text.
pub open spec fn faithful(s: Seq<(Seq<char>, StatementView)>) -> bool {
    forall|i: int|
        0 <= i < s.len() ==> parser::parsed((#[trigger] s[i]).0) == Ok::<StatementView, ErrorView>(
            s[i].1,
        )
}

/// How many queries fit: the newest one is always kept.
pub open spec fn room(capacity: nat) -> nat {
    if capacity == 0 {
        1
    } else {
        capacity
    }
}

/// The entries behind a query that was parsed: a full cache loses its oldest entry.
pub open spec fn admitted(
    s: Seq<(Seq<char>, StatementView)>,
    capacity: nat,
    q: Seq<char>,
    x: StatementView,
) -> Seq<(Seq<char>, StatementView)> {
    let kept = if s.len() >= capacity && s.len() > 0 {
        s.drop_first()
    } else {
        s
    };
    kept.push((q, x))
}

/// The entries behind a query: only a query that parses and is not there yet changes them.
pub open spec fn after(s: Seq<(Seq<char>, StatementView)>, capacity: nat, q: Seq<char>) -> Seq<
    (Seq<char>, StatementView),
> {
    if assoc::lookup(s, q) is Some {
        s
    } else {
        match parser::parsed(q) {
            Err(_) => s,
            Ok(x) => admitted(s, capacity, q, x),
        }
    }
}

impl View for ParseCache {
    type V = Seq<(Seq<char>, StatementView)>;

    closed spec fn view(&self) -> Seq<(Seq<char>, StatementView)> {
        entries_view(self.entries.entries@)
    }
}

impl ParseCache {
    /// How many queries the cache was made for.
    pub closed spec fn limit(&self) -> nat {
        self.capacity as nat
    }

    /// Entries are faithful, distinct and no more than fit.
    pub open spec fn wf(&self) -> bool {
        &&& faithful(self@)
        &&& assoc::distinct(assoc::keys(self@))
        &&& self@.len() <= room(self.limit())
    }

    /// An empty cache of the usual size.
    pub fn new() -> (r: ParseCache)
        ensures
            r.wf(),
            r@ == Seq::<(Seq<char>, StatementView)>::empty(),
            r.limit() == DEFAULT_CAPACITY,
    {
        Self::with_capacity(DEFAULT_CAPACITY)
    }

    /// An empty cache for the given number of queries.
    pub fn with_capacity(capacity: usize) -> (r: ParseCache)
        ensures
            r.wf(),
            r@ == Seq::<(Seq<char>, StatementView)>::empty(),
            r.limit() == capacity,
    {
        let r = ParseCache { entries: AssocList::new(), capacity };
        assert(r@ =~= Seq::<(Seq<char>, StatementView)>::empty());
        r
    }

    /// Parses a query, or hands out a copy of what an earlier call parsed.
    pub fn get_or_parse(&mut self, cypher: &str) -> (r: Result<Statement, GraphError>)
        requires
            old(self).wf(),
        ensures
            final(self).wf(),
            final(self).limit() == old(self).limit(),
            types::outcome(r) == parser::parsed(cypher@),
            final(self)@ == after(old(self)@, old(self).limit(), cypher@),
    {
        let ghost was = self@;
        let i = self.entries.find(cypher);
        proof {
            assoc::lemma_same_keys(self.entries.entries@, was);
        }
        if i < self.entries.entries.len() {
            assert(was[i as int].0 == cypher@);
            return Ok(self.entries.entries[i].1.dup());
        }
        match parser::parse(cypher) {
            Err(e) => Err(e),
            Ok(stmt) => {
                if self.entries.entries.len() >= self.capacity && self.entries.entries.len() > 0 {
                    self.entries.entries.remove(0);
                    assert(self@ =~= was.drop_first());
                }
                let ghost kept = self@;
                let copy = stmt.dup();
                self.entries.entries.push((text::owned(cypher), copy));
                assert(self@ =~= kept.push((cypher@, stmt@)));
                assert(self@ == admitted(was, self.limit(), cypher@, stmt@));
                proof {
                    lemma_admitted(was, self.limit(), cypher@, stmt@);
                }
                Ok(stmt)
            },
        }
    }

    /// How many queries the cache holds.
    pub fn len(&self) -> (r: usize)
        ensures
            r == self@.len(),
    {
        self.entries.len()
    }
}

impl Default for ParseCache {
    fn default() -> (r: ParseCache)
        ensures
            r.wf(),
            r@ == Seq::<(Seq<char>, StatementView)>::empty(),
            r.limit() == DEFAULT_CAPACITY,
    {
        ParseCache::new()
    }
}

/// Admitting a new query that parses keeps entries faithful, distinct and no more than fit.
proof fn lemma_admitted(
    s: Seq<(Seq<char>, StatementView)>,
    capacity: nat,
    q: Seq<char>,
    x: StatementView,
)
    requires
        faithful(s),
        assoc::distinct(assoc::keys(s)),
        s.len() <= room(capacity),
        assoc::lookup(s, q) is None,
        parser::parsed(q) == Ok::<StatementView, ErrorView>(x),
    ensures
        faithful(admitted(s, capacity, q, x)),
        assoc::distinct(assoc::keys(admitted(s, capacity, q, x))),
        admitted(s, capacity, q, x).len() <= room(capacity),
{
    let t = admitted(s, capacity, q, x);
    let shift: int = if s.len() >= capacity && s.len() > 0 {
        1
    } else {
        0
    };
    assoc::lemma_place(assoc::keys(s), q);
    assert forall|i: int| 0 <= i < t.len() - 1 implies #[trigger] t[i] == s[i + shift] by {}
    assert forall|i: int, j: int| 0 <= i < j < t.len() implies #[trigger] assoc::keys(t)[i]
        != #[trigger] assoc::keys(t)[j] by {
        assert(assoc::keys(t)[i] == assoc::keys(s)[i + shift]);
        if j < t.len() - 1 {
            assert(assoc::keys(t)[j] == assoc::keys(s)[j + shift]);
        }
    }
}

/// The entries behind a sequence of queries.
pub open spec fn after_all(
    s: Seq<(Seq<char>, StatementView)>,
    capacity: nat,
    qs: Seq<Seq<char>>,
) -> Seq<(Seq<char>, StatementView)>
    decreases qs.len(),
{
    if qs.len() == 0 {
        s
    } else {
        after(after_all(s, capacity, qs.drop_last()), capacity, qs.last())
    }
}

/// However many queries come in, a cache never holds more than fit, no text twice, and only
/// the parse of each text.
pub proof fn cache_stays_bounded(
    s: Seq<(Seq<char>, StatementView)>,
    capacity: nat,
    qs: Seq<Seq<char>>,
)
    requires
        faithful(s),
        assoc::distinct(assoc::keys(s)),
        s.len() <= room(capacity),
    ensures
        faithful(after_all(s, capacity, qs)),
        assoc::distinct(assoc::keys(after_all(s, capacity, qs))),
        after_all(s, capacity, qs).len() <= room(capacity),
    decreases qs.len(),
{
    if qs.len() > 0 {
        let t = after_all(s, capacity, qs.drop_last());
        cache_stays_bounded(s, capacity, qs.drop_last());
        if assoc::lookup(t, qs.last()) is None {
            if let Ok(x) = parser::parsed(qs.last()) {
                lemma_admitted(t, capacity, qs.last(), x);
            }
        }
    }
}

/// A query that was just answered is there: asking again changes nothing.
pub proof fn second_request_hits(
    s: Seq<(Seq<char>, StatementView)>,
    capacity: nat,
    q: Seq<char>,
)
    ensures
        after(after(s, capacity, q), capacity, q) == after(s, capacity, q),
        parser::parsed(q) is Ok ==> assoc::lookup(after(s, capacity, q), q) is Some,
{
    let t = after(s, capacity, q);
    if assoc::lookup(s, q) is None {
        if let Ok(x) = parser::parsed(q) {
            let n = t.len() - 1;
            assert(assoc::keys(t)[n] == q);
            assoc::lemma_place(assoc::keys(t), q);
        }
    }
}

/// A query that does not parse leaves the cache as it was.
pub proof fn errors_are_not_cached(
    s: Seq<(Seq<char>, StatementView)>,
    capacity: nat,
    q: Seq<char>,
)
    requires
        parser::parsed(q) is Err,
    ensures
        after(s, capacity, q) == s,
{
}

/// A full cache that takes in a new query gives up the entry that came in first, and no other.
pub proof fn oldest_makes_room(
    s: Seq<(Seq<char>, StatementView)>,
    capacity: nat,
    q: Seq<char>,
)
    requires
        s.len() >= capacity,
        s.len() > 0,
        assoc::lookup(s, q) is None,
        parser::parsed(q) is Ok,
    ensures
        after(s, capacity, q).len() == s.len(),
        after(s, capacity, q).drop_last() == s.drop_first(),
{
    assert(after(s, capacity, q).drop_last() =~= s.drop_first());
}

} // verus!
