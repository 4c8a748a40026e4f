//! A queue that is filled once and taken from the front.
use crate::exec::flow;
use vstd::prelude::*;

verus! {

/// Items that are taken one by one.
pub struct Queue<T> {
    /// The items, the next one last.
    items: Vec<T>,
}

impl<T: View> View for Queue<T> {
    type V = Seq<T::V>;

    closed spec fn view(&self) -> Seq<T::V> {
        flow::viewed(self.items@).reverse()
    }
}

impl<T: View> Queue<T> {
    /// A queue of the items, in order.
    pub fn new(items: Vec<T>) -> (r: Queue<T>)
        ensures
            r@ == flow::viewed(items@),
    {
        let ghost s = flow::viewed(items@);
        let mut from = items;
        let mut out: Vec<T> = Vec::new();
        assert(flow::viewed(out@) =~= s.skip(s.len() as int).reverse());
        assert(s.take(s.len() as int) =~= s);
        loop
            invariant
                s == flow::viewed(items@),
                from@.len() <= s.len(),
                flow::viewed(from@) == s.take(from@.len() as int),
                flow::viewed(out@) == s.skip(from@.len() as int).reverse(),
            decreases from@.len(),
        {
            let ghost n = from@.len();
            let ghost held = flow::viewed(out@);
            match from.pop() {
                Some(x) => {
                    assert(x@ == s[n - 1]) by {
                        assert(s.take(n as int)[n - 1] == s[n - 1]);
                    }
                    out.push(x);
                    assert(flow::viewed(from@) =~= s.take(n - 1));
                    assert(flow::viewed(out@) =~= held.push(x@));
                    assert(s.skip(n - 1).reverse() =~= held.push(x@));
                },
                None => {
                    assert(s.skip(0) =~= s);
                    assert(s.reverse().reverse() =~= s);
                    return Queue { items: out };
                },
            }
        }
    }

    /// A queue without items.
    pub fn empty() -> (r: Queue<T>)
        ensures
            r@ == Seq::<T::V>::empty(),
    {
        let r = Queue { items: Vec::new() };
        assert(r@ =~= Seq::<T::V>::empty());
        r
    }

    /// Takes the first item.
    pub fn pop(&mut self) -> (r: Option<T>)
        ensures
            match r {
                Some(x) => {
                    &&& old(self)@.len() > 0
                    &&& x@ == old(self)@[0]
                    &&& final(self)@ == old(self)@.drop_first()
                },
                None => old(self)@.len() == 0 && final(self)@ == old(self)@,
            },
    {
        let ghost s = flow::viewed(self.items@);
        let r = self.items.pop();
        proof {
            if r is Some {
                assert(s.reverse()[0] == s[s.len() - 1]);
                assert(flow::viewed(self.items@) =~= s.drop_last());
                assert(s.drop_last().reverse() =~= s.reverse().drop_first());
            }
        }
        r
    }
}

} // verus!
