use vstd::prelude::*;

use super::{Observer, Subscribable, feed};

verus! {

/// A source that drops its first `count` values and passes on the rest.
pub struct Skip<O: Subscribable> {
    pub inner: O,
    pub count: u64,
}

impl<O: Subscribable> Subscribable for Skip<O> {
    type Item = O::Item;

    type Subscription = O::Subscription;

    open spec fn ready(&self) -> bool {
        self.inner.ready()
    }

    fn subscribe<Q: Observer<Item = Self::Item>>(self, observer: Q) -> Self::Subscription {
        self.inner.subscribe(SkipObserver { inner: observer, count: self.count })
    }
}

/// The sink that `Skip` hands to the source it wraps.
pub struct SkipObserver<Q: Observer> {
    pub inner: Q,
    pub count: u64,
}

impl<Q: Observer> Observer for SkipObserver<Q> {
    type Item = Q::Item;

    open spec fn ready(&self) -> bool {
        self.inner.ready()
    }

    open spec fn after(self, value: Q::Item) -> Option<Self> {
        if self.count == 0 {
            match self.inner.after(value) {
                Some(q) => Some(SkipObserver { inner: q, count: 0 }),
                None => None,
            }
        } else {
            Some(SkipObserver { inner: self.inner, count: (self.count - 1) as u64 })
        }
    }

    fn on_next(self, val: Q::Item) -> (r: Option<Self>) {
        if self.count == 0 {
            match self.inner.on_next(val) {
                Some(next) => Some(SkipObserver { inner: next, count: 0 }),
                None => None,
            }
        } else {
            Some(SkipObserver { inner: self.inner, count: self.count - 1 })
        }
    }

    fn on_completed(self) {
        self.inner.on_completed();
    }
}

/// A source over `inner` without its first `count` values.
pub fn new<O: Subscribable>(inner: O, count: u64) -> (r: Skip<O>)
    ensures
        r.inner == inner,
        r.count == count,
{
    Skip { inner, count }
}

/// Pushing `xs` through a skip stage of `n` leaves the sink it wraps
/// untouched for the first `n` values and pushes the rest into it.
pub proof fn lemma_skip_delivers<Q: Observer>(q: Q, n: u64, xs: Seq<Q::Item>)
    ensures
        xs.len() <= n ==> feed(SkipObserver { inner: q, count: n }, xs) == Some(
            SkipObserver { inner: q, count: (n - xs.len()) as u64 },
        ),
        xs.len() > n ==> feed(SkipObserver { inner: q, count: n }, xs) == match feed(
            q,
            xs.skip(n as int),
        ) {
            Some(p) => Some(SkipObserver { inner: p, count: 0 }),
            None => None,
        },
    decreases xs.len(),
{
    if xs.len() > 0 {
        lemma_skip_delivers(q, n, xs.drop_last());
        if xs.len() > n {
            assert(xs.skip(n as int).drop_last() =~= xs.drop_last().skip(n as int));
            if xs.len() == n + 1 {
                assert(xs.drop_last().skip(n as int) =~= Seq::<Q::Item>::empty());
            }
        }
    }
}

} // verus!
