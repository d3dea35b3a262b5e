use vstd::prelude::*;

use super::{Observer, Subscribable, decides, feed, lemma_verdict, verdict};

verus! {

/// A source that passes on values while its predicate accepts them, and
/// completes on the first one it rejects.
pub struct TakeWhile<O: Subscribable, F: Fn(&O::Item) -> bool> {
    pub inner: O,
    pub f: F,
}

/// The sink that `TakeWhile` hands to the source it wraps.
pub struct TakeWhileObserver<Q: Observer, F: Fn(&Q::Item) -> bool> {
    pub inner: Q,
    pub f: F,
}

impl<Q: Observer, F: Fn(&Q::Item) -> bool> Observer for TakeWhileObserver<Q, F> {
    type Item = Q::Item;

    open spec fn ready(&self) -> bool {
        self.inner.ready() && decides(self.f)
    }

    open spec fn after(self, value: Q::Item) -> Option<Self> {
        if verdict(self.f, value) {
            match self.inner.after(value) {
                Some(q) => Some(TakeWhileObserver { inner: q, f: self.f }),
                None => None,
            }
        } else {
            None
        }
    }

    fn on_next(self, val: Q::Item) -> (r: Option<Self>) {
        let pass = (self.f)(&val);
        proof {
            lemma_verdict(self.f, val, pass);
        }
        if pass {
            let f = self.f;
            match self.inner.on_next(val) {
                Some(o) => Some(TakeWhileObserver { inner: o, f }),
                None => None,
            }
        } else {
            self.inner.on_completed();
            None
        }
    }

    fn on_completed(self) {
        self.inner.on_completed();
    }
}

impl<O: Subscribable, F: Fn(&O::Item) -> bool> Subscribable for TakeWhile<O, F> {
    type Item = O::Item;

    type Subscription = O::Subscription;

    open spec fn ready(&self) -> bool {
        self.inner.ready() && decides(self.f)
    }

    fn subscribe<Q: Observer<Item = Self::Item>>(self, observer: Q) -> Self::Subscription {
        self.inner.subscribe(TakeWhileObserver { inner: observer, f: self.f })
    }
}

/// A source over `o` that ends before the first value `f` rejects.
pub fn new<O: Subscribable, F: Fn(&O::Item) -> bool>(o: O, f: F) -> (r: TakeWhile<O, F>)
    ensures
        r.inner == o,
        r.f == f,
{
    TakeWhile { inner: o, f }
}

/// Pushing values that the predicate accepts through a take-while stage
/// pushes them unchanged into the sink it wraps; the first value it rejects
/// stops the stage without reaching that sink.
pub proof fn lemma_take_while_delivers<Q: Observer, F: Fn(&Q::Item) -> bool>(
    q: Q,
    f: F,
    xs: Seq<Q::Item>,
    x: Q::Item,
)
    requires
        forall|i: int| 0 <= i < xs.len() ==> verdict(f, #[trigger] xs[i]),
    ensures
        feed(TakeWhileObserver { inner: q, f }, xs) == match feed(q, xs) {
            Some(p) => Some(TakeWhileObserver { inner: p, f }),
            None => None,
        },
        !verdict(f, x) ==> feed(TakeWhileObserver { inner: q, f }, xs.push(x)) is None,
    decreases xs.len(),
{
    if xs.len() > 0 {
        lemma_take_while_delivers(q, f, xs.drop_last(), x);
    }
    assert(xs.push(x).drop_last() =~= xs);
}

} // verus!
