//! What is gathered item by item holds what each item gives, and nothing else.
use super::flow;
use crate::types::ErrorView;
use vstd::prelude::*;

verus! {

/// Where gathering succeeds, each item succeeds, and what it gives is among what is gathered.
pub proof fn nothing_given_is_lost<T, U>(
    s: Seq<T>,
    f: spec_fn(T) -> Result<Seq<U>, ErrorView>,
    i: int,
)
    requires
        flow::each(s, f) is Ok,
        0 <= i < s.len(),
    ensures
        f(s[i]) is Ok,
        forall|x: U| #[trigger]
            f(s[i])->Ok_0.contains(x) ==> flow::each(s, f)->Ok_0.contains(x),
    decreases s.len(),
{
    let t = s.drop_last();
    let a = flow::each(t, f)->Ok_0;
    let b = f(s.last())->Ok_0;
    let all = flow::each(s, f)->Ok_0;
    assert(all == a + b);
    if i < t.len() {
        nothing_given_is_lost(t, f, i);
        assert(t[i] == s[i]);
        assert forall|x: U| #[trigger] f(s[i])->Ok_0.contains(x) implies all.contains(x) by {
            assert(a.contains(x));
            let k = choose|k: int| 0 <= k < a.len() && a[k] == x;
            assert(all[k] == x);
        }
    } else {
        assert(s[i] == s.last());
        assert forall|x: U| #[trigger] f(s[i])->Ok_0.contains(x) implies all.contains(x) by {
            let k = choose|k: int| 0 <= k < b.len() && b[k] == x;
            assert(all[a.len() + k] == x);
        }
    }
}

/// What is gathered was given by some item.
pub proof fn nothing_is_made_up<T, U>(
    s: Seq<T>,
    f: spec_fn(T) -> Result<Seq<U>, ErrorView>,
    x: U,
)
    requires
        flow::each(s, f) is Ok,
        flow::each(s, f)->Ok_0.contains(x),
    ensures
        exists|i: int| 0 <= i < s.len() && f(#[trigger] s[i]) is Ok && f(s[i])->Ok_0.contains(x),
    decreases s.len(),
{
    if s.len() > 0 {
        let t = s.drop_last();
        let a = flow::each(t, f)->Ok_0;
        let b = f(s.last())->Ok_0;
        let all = flow::each(s, f)->Ok_0;
        assert(all == a + b);
        let k = choose|k: int| 0 <= k < all.len() && all[k] == x;
        if k < a.len() {
            assert(a[k] == x);
            nothing_is_made_up(t, f, x);
            let i = choose|i: int|
                0 <= i < t.len() && f(#[trigger] t[i]) is Ok && f(t[i])->Ok_0.contains(x);
            assert(t[i] == s[i]);
        } else {
            assert(b[k - a.len()] == x);
            assert(s[s.len() - 1] == s.last());
        }
    }
}

/// What two lists give together is what the one gives and then what the other gives.
pub proof fn lists_are_gathered_in_turn<T, U>(
    s: Seq<T>,
    t: Seq<T>,
    f: spec_fn(T) -> Result<Seq<U>, ErrorView>,
)
    ensures
        flow::each(s + t, f) == (match flow::each(s, f) {
            Ok(a) => match flow::each(t, f) {
                Ok(b) => Ok(a + b),
                Err(e) => Err(e),
            },
            Err(e) => Err(e),
        }),
    decreases t.len(),
{
    if t.len() == 0 {
        assert(s + t =~= s);
        match flow::each(s, f) {
            Ok(a) => {
                assert(a + Seq::<U>::empty() =~= a);
            },
            Err(_) => {},
        }
    } else {
        let u = t.drop_last();
        lists_are_gathered_in_turn(s, u, f);
        assert((s + t).drop_last() =~= s + u);
        assert((s + t).last() == t.last());
        match (flow::each(s, f), flow::each(u, f), f(t.last())) {
            (Ok(a), Ok(b), Ok(c)) => {
                assert(a + b + c =~= a + (b + c));
            },
            _ => {},
        }
    }
}

/// Items of which each gives one thing are gathered to as many things, place by place.
pub proof fn one_each_is_place_by_place<T, U>(
    s: Seq<T>,
    f: spec_fn(T) -> Result<Seq<U>, ErrorView>,
    g: spec_fn(T) -> U,
)
    requires
        forall|i: int| 0 <= i < s.len() ==> f(#[trigger] s[i]) == Ok::<Seq<U>, ErrorView>(
            seq![g(s[i])],
        ),
    ensures
        flow::each(s, f) is Ok,
        flow::each(s, f)->Ok_0.len() == s.len(),
        forall|i: int| 0 <= i < s.len() ==> #[trigger] flow::each(s, f)->Ok_0[i] == g(s[i]),
    decreases s.len(),
{
    if s.len() > 0 {
        let t = s.drop_last();
        assert forall|i: int| 0 <= i < t.len() implies f(#[trigger] t[i]) == Ok::<
            Seq<U>,
            ErrorView,
        >(seq![g(t[i])]) by {
            assert(t[i] == s[i]);
        }
        one_each_is_place_by_place(t, f, g);
        assert(s[s.len() - 1] == s.last());
        assert(f(s.last()) == Ok::<Seq<U>, ErrorView>(seq![g(s.last())]));
        let all = flow::each(s, f)->Ok_0;
        assert forall|i: int| 0 <= i < s.len() implies #[trigger] all[i] == g(s[i]) by {
            if i < t.len() {
                assert(all[i] == flow::each(t, f)->Ok_0[i]);
                assert(t[i] == s[i]);
            }
        }
    }
}

/// Items that give one thing or nothing are gathered to the things of those that do.
pub proof fn one_or_none_is_a_selection<T, U>(
    s: Seq<T>,
    f: spec_fn(T) -> Result<Seq<U>, ErrorView>,
    p: spec_fn(T) -> bool,
    g: spec_fn(T) -> U,
)
    requires
        forall|i: int|
            0 <= i < s.len() ==> f(#[trigger] s[i]) == Ok::<Seq<U>, ErrorView>(
                if p(s[i]) {
                    seq![g(s[i])]
                } else {
                    Seq::empty()
                },
            ),
    ensures
        flow::each(s, f) == Ok::<Seq<U>, ErrorView>(s.filter(p).map_values(g)),
    decreases s.len(),
{
    reveal(Seq::filter);
    if s.len() > 0 {
        let t = s.drop_last();
        assert forall|i: int| 0 <= i < t.len() implies f(#[trigger] t[i]) == Ok::<
            Seq<U>,
            ErrorView,
        >(
            if p(t[i]) {
                seq![g(t[i])]
            } else {
                Seq::empty()
            },
        ) by {
            assert(t[i] == s[i]);
        }
        one_or_none_is_a_selection(t, f, p, g);
        assert(s[s.len() - 1] == s.last());
        let a = t.filter(p);
        if p(s.last()) {
            assert(a.push(s.last()).map_values(g) =~= a.map_values(g) + seq![g(s.last())]);
        } else {
            assert(a.map_values(g) + Seq::<U>::empty() =~= a.map_values(g));
        }
    } else {
        assert(s.filter(p).map_values(g) =~= Seq::<U>::empty());
    }
}

} // verus!
