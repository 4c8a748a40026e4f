//! Rows made from lists, item by item.
use crate::record;
use crate::record::{NamedRecord, Row};
use crate::types::{ErrorView, GraphError};
use vstd::prelude::*;

verus! {

/// Rows, or why there are none.
pub type Rows = Result<Seq<Row>, ErrorView>;

/// The outcome of an operator.
pub type Outcome = Result<Vec<NamedRecord>, GraphError>;

/// What the outcome of an operator says.
pub open spec fn rows_told(r: Outcome) -> Rows {
    match r {
        Ok(v) => Ok(record::rows(v@)),
        Err(e) => Err(e@),
    }
}

/// What the items give, one after the other, up to the first that fails.
pub open spec fn each<T, U>(s: Seq<T>, f: spec_fn(T) -> Result<Seq<U>, ErrorView>) -> Result<
    Seq<U>,
    ErrorView,
>
    decreases s.len(),
{
    if s.len() == 0 {
        Ok(Seq::empty())
    } else {
        match each(s.drop_last(), f) {
            Ok(done) => match f(s.last()) {
                Ok(more) => Ok(done + more),
                Err(e) => Err(e),
            },
            Err(e) => Err(e),
        }
    }
}

/// The first item that fails decides.
pub proof fn lemma_each_stops<T, U>(
    s: Seq<T>,
    f: spec_fn(T) -> Result<Seq<U>, ErrorView>,
    i: int,
)
    requires
        0 <= i <= s.len(),
        each(s.take(i), f) is Err,
    ensures
        each(s, f) == each(s.take(i), f),
    decreases s.len(),
{
    if i < s.len() {
        assert(s.drop_last().take(i) =~= s.take(i));
        lemma_each_stops(s.drop_last(), f, i);
    } else {
        assert(s.take(i) =~= s);
    }
}

/// One more item.
pub proof fn lemma_each_step<T, U>(s: Seq<T>, f: spec_fn(T) -> Result<Seq<U>, ErrorView>, i: int)
    requires
        0 <= i < s.len(),
    ensures
        each(s.take(i + 1), f) == (match each(s.take(i), f) {
            Ok(done) => match f(s[i]) {
                Ok(more) => Ok(done + more),
                Err(e) => Err(e),
            },
            Err(e) => Err(e),
        }),
{
    assert(s.take(i + 1).drop_last() =~= s.take(i));
    assert(s.take(i + 1).last() == s[i]);
}

/// Appends rows to rows.
pub fn append_rows(out: &mut Vec<NamedRecord>, more: Vec<NamedRecord>)
    ensures
        record::rows(final(out)@) == record::rows(old(out)@) + record::rows(more@),
{
    let ghost before = out@;
    let mut more = more;
    let ghost added = more@;
    out.append(&mut more);
    assert(out@ =~= before + added);
    assert(record::rows(out@) =~= record::rows(before) + record::rows(added));
}

/// What a list says, item by item.
pub open spec fn viewed<T: View>(s: Seq<T>) -> Seq<T::V> {
    Seq::new(s.len(), |i: int| s[i]@)
}

/// What the items give, one after the other, up to the first that fails. `g` says what an item
/// gives, provided that `on` holds.
pub fn gather<T: View, F: Fn(&T) -> Outcome>(
    v: &Vec<T>,
    f: F,
    Ghost(g): Ghost<spec_fn(T::V) -> Rows>,
    Ghost(on): Ghost<bool>,
) -> (r: Outcome)
    requires
        forall|x: &T| #[trigger] call_requires(f, (x,)),
        forall|x: &T, o: Outcome| #[trigger]
            call_ensures(f, (x,), o) && on ==> rows_told(o) == g(x@),
    ensures
        on ==> rows_told(r) == each(viewed(v@), g),
{
    let ghost s = viewed(v@);
    let mut out: Vec<NamedRecord> = Vec::new();
    let mut i: usize = 0;
    assert(s.take(0) =~= Seq::<T::V>::empty());
    assert(record::rows(out@) =~= Seq::<Row>::empty());
    while i < v.len()
        invariant
            i <= v.len(),
            s == viewed(v@),
            forall|x: &T| #[trigger] call_requires(f, (x,)),
            forall|x: &T, o: Outcome| #[trigger]
                call_ensures(f, (x,), o) && on ==> rows_told(o) == g(x@),
            on ==> each(s.take(i as int), g) == Ok::<Seq<Row>, ErrorView>(record::rows(out@)),
        decreases v.len() - i,
    {
        proof {
            lemma_each_step(s, g, i as int);
        }
        match f(&v[i]) {
            Ok(more) => {
                append_rows(&mut out, more);
            },
            Err(e) => {
                proof {
                    if on {
                        lemma_each_stops(s, g, i + 1);
                    }
                }
                return Err(e);
            },
        }
        i = i + 1;
    }
    assert(s.take(s.len() as int) =~= s);
    Ok(out)
}

} // verus!
