use vstd::prelude::*;

use super::{Observer, Subscribable, decides, feed, lemma_verdict, verdict};

verus! {

/// A source that passes on values up to and including the first one its
/// predicate accepts, then completes.
pub struct TakeUntil<O: Subscribable, F: Fn(&O::Item) -> bool> {
    pub inner: O,
    pub f: F,
}

/// The sink that `TakeUntil` hands to the source it wraps.
pub struct TakeUntilObserver<Q: Observer, F: Fn(&Q::Item) -> bool> {
    pub inner: Q,
    pub f: F,
}

impl<Q: Observer, F: Fn(&Q::Item) -> bool> Observer for TakeUntilObserver<Q, F> {
    type Item = Q::Item;

    open spec fn ready(&self) -> bool {
        self.inner.ready() && decides(self.f)
    }

    open spec fn after(self, value: Q::Item) -> Option<Self> {
        match self.inner.after(value) {
            Some(q) => if verdict(self.f, value) {
                None
            } else {
                Some(TakeUntilObserver { inner: q, f: self.f })
            },
            None => None,
        }
    }

    fn on_next(self, val: Q::Item) -> (r: Option<Self>) {
        let is_end = (self.f)(&val);
        proof {
            lemma_verdict(self.f, val, is_end);
        }
        let f = self.f;
        match self.inner.on_next(val) {
            Some(o) => {
                if is_end {
                    o.on_completed();
                    None
                } else {
                    Some(TakeUntilObserver { inner: o, f })
                }
            },
            None => None,
        }
    }

    fn on_completed(self) {
        self.inner.on_completed();
    }
}

impl<O: Subscribable, F: Fn(&O::Item) -> bool> Subscribable for TakeUntil<O, F> {
    type Item = O::Item;

    type Subscription = O::Subscription;

    open spec fn ready(&self) -> bool {
        self.inner.ready() && decides(self.f)
    }

    fn subscribe<Q: Observer<Item = Self::Item>>(self, observer: Q) -> Self::Subscription {
        self.inner.subscribe(TakeUntilObserver { inner: observer, f: self.f })
    }
}

/// A source over `inner` that ends after the first value `f` accepts.
pub fn new<O: Subscribable, F: Fn(&O::Item) -> bool>(inner: O, f: F) -> (r: TakeUntil<O, F>)
    ensures
        r.inner == inner,
        r.f == f,
{
    TakeUntil { inner, f }
}

/// Pushing values that the predicate rejects through a take-until stage
/// pushes them unchanged into the sink it wraps; the first value it accepts
/// still reaches that sink, and then the stage stops.
pub proof fn lemma_take_until_delivers<Q: Observer, F: Fn(&Q::Item) -> bool>(
    q: Q,
    f: F,
    xs: Seq<Q::Item>,
    x: Q::Item,
)
    requires
        forall|i: int| 0 <= i < xs.len() ==> !verdict(f, #[trigger] xs[i]),
    ensures
        feed(TakeUntilObserver { inner: q, f }, xs) == match feed(q, xs) {
            Some(p) => Some(TakeUntilObserver { inner: p, f }),
            None => None,
        },
        verdict(f, x) ==> feed(TakeUntilObserver { inner: q, f }, xs.push(x)) is None,
    decreases xs.len(),
{
    if xs.len() > 0 {
        lemma_take_until_delivers(q, f, xs.drop_last(), x);
    }
    assert(xs.push(x).drop_last() =~= xs);
}

} // verus!
