use vstd::prelude::*;

use std::marker::PhantomData;

use super::{Observer, Subscribable, feed};

verus! {

/// A source that passes on at most `count` values, then completes.
pub struct Take<O: Subscribable> {
    pub inner: O,
    pub count: u64,
}

/// The sink that `Take` hands to the source it wraps while values remain.
pub struct TakeObserver<Q: Observer> {
    pub inner: Q,
    pub count: u64,
}

/// A sink that takes no value at all.
pub struct Closed<T> {
    pub _t: PhantomData<T>,
}

impl<T> Observer for Closed<T> {
    type Item = T;

    open spec fn ready(&self) -> bool {
        true
    }

    open spec fn after(self, value: T) -> Option<Self> {
        None
    }

    fn on_next(self, value: T) -> (r: Option<Self>) {
        None
    }

    fn on_completed(self) {
    }
}

impl<Q: Observer> Observer for TakeObserver<Q> {
    type Item = Q::Item;

    open spec fn ready(&self) -> bool {
        self.inner.ready() && self.count > 0
    }

    open spec fn after(self, value: Q::Item) -> Option<Self> {
        match self.inner.after(value) {
            Some(q) => if self.count > 1 {
                Some(TakeObserver { inner: q, count: (self.count - 1) as u64 })
            } else {
                None
            },
            None => None,
        }
    }

    fn on_next(self, val: Q::Item) -> (r: Option<Self>) {
        match self.inner.on_next(val) {
            Some(o) => {
                if self.count == 1 {
                    o.on_completed();
                    None
                } else {
                    Some(TakeObserver { inner: o, count: self.count - 1 })
                }
            },
            None => None,
        }
    }

    fn on_completed(self) {
        self.inner.on_completed();
    }
}

impl<O: Subscribable> Subscribable for Take<O> {
    type Item = O::Item;

    type Subscription = O::Subscription;

    open spec fn ready(&self) -> bool {
        self.inner.ready()
    }

    /// With a count of zero the sink completes at once, and the source is
    /// stopped on its first value.
    fn subscribe<Q: Observer<Item = Self::Item>>(self, observer: Q) -> Self::Subscription {
        if self.count == 0 {
            observer.on_completed();
            self.inner.subscribe(Closed { _t: PhantomData })
        } else {
            self.inner.subscribe(TakeObserver { inner: observer, count: self.count })
        }
    }
}

/// A source over `inner` that ends after `count` values.
pub fn new<O: Subscribable>(inner: O, count: u64) -> (r: Take<O>)
    ensures
        r.inner == inner,
        r.count == count,
{
    Take { inner, count }
}

/// Pushing `xs` through a take stage of `n` pushes the same values into the
/// sink it wraps while fewer than `n` have passed, and stops the stage on the
/// `n`-th.
pub proof fn lemma_take_delivers<Q: Observer>(q: Q, n: u64, xs: Seq<Q::Item>)
    requires
        n > 0,
    ensures
        xs.len() < n ==> feed(TakeObserver { inner: q, count: n }, xs) == match feed(q, xs) {
            Some(p) => Some(TakeObserver { inner: p, count: (n - xs.len()) as u64 }),
            None => None,
        },
        xs.len() >= n ==> feed(TakeObserver { inner: q, count: n }, xs) is None,
        xs.len() >= n ==> feed(TakeObserver { inner: q, count: n }, xs.take(n - 1)) == match feed(
            q,
            xs.take(n - 1),
        ) {
            Some(p) => Some(TakeObserver { inner: p, count: 1 }),
            None => None,
        },
    decreases xs.len(),
{
    if xs.len() > 0 {
        lemma_take_delivers(q, n, xs.drop_last());
    }
    if xs.len() >= n {
        lemma_take_delivers(q, n, xs.take(n - 1));
    }
}

} // verus!
