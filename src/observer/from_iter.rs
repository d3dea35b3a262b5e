use vstd::prelude::*;

use super::{Observer, Subscribable, feed, lemma_feed_stays_stopped};

verus! {

/// A source that pushes the values of a vector, in order.
pub struct TestSequence<T> {
    pub it: Vec<T>,
}

/// The subscription of a `TestSequence`: delivery is over once it exists.
pub struct Sub;

/// Pushes `items` into `o` in order, stopping as soon as `o` stops.
///
/// Returns the sink's state after the last value, or `None` when it stopped.
pub fn push_all<Q: Observer>(o: Q, items: Vec<Q::Item>) -> (r: Option<Q>)
    requires
        o.ready(),
    ensures
        r == feed(o, items@),
        r matches Some(p) ==> p.ready(),
{
    let ghost xs = items@;
    assert(xs.len() == items.len());
    let mut rest = items;
    let mut rev: Vec<Q::Item> = Vec::new();
    while rest.len() > 0
        invariant
            xs.len() == rest@.len() + rev@.len(),
            xs.len() <= usize::MAX,
            xs == items@,
            forall|i: int| 0 <= i < rest@.len() ==> rest@[i] == xs[i],
            forall|j: int|
                0 <= j < rev@.len() ==> #[trigger] rev@[j] == xs[xs.len() - 1 - j],
        decreases rest.len(),
    {
        let x = rest.pop().unwrap();
        rev.push(x);
    }
    let mut cur = o;
    let mut n: usize = 0;
    while rev.len() > 0
        invariant
            xs.len() == n + rev@.len(),
            xs.len() <= usize::MAX,
            xs == items@,
            forall|j: int|
                0 <= j < rev@.len() ==> #[trigger] rev@[j] == xs[xs.len() - 1 - j],
            feed(o, xs.take(n as int)) == Some(cur),
            cur.ready(),
        decreases rev.len(),
    {
        let x = rev.pop().unwrap();
        proof {
            assert(xs.take(n + 1).drop_last() =~= xs.take(n as int));
            assert(xs.take(n + 1).last() == x);
            assert(feed(o, xs.take(n + 1)) == cur.after(x));
        }
        match cur.on_next(x) {
            Some(next) => {
                cur = next;
                n = n + 1;
            },
            None => {
                proof {
                    lemma_feed_stays_stopped(o, xs, n + 1);

                }
                return None;
            },
        }
    }
    proof {
        assert(xs.take(n as int) =~= xs);
    }
    Some(cur)
}

impl<T> Subscribable for TestSequence<T> {
    type Item = T;

    type Subscription = Sub;

    open spec fn ready(&self) -> bool {
        true
    }

    fn subscribe<Q: Observer<Item = T>>(self, o: Q) -> Sub {
        if let Some(last) = push_all(o, self.it) {
            last.on_completed();
        }
        Sub
    }
}

/// A source over the given values.
pub fn from_iter<T>(it: Vec<T>) -> (r: TestSequence<T>)
    ensures
        r.it@ == it@,
{
    TestSequence { it }
}

} // verus!
