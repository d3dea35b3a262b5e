use vstd::prelude::*;

use super::{Observer, Subscribable, decides, feed, lemma_verdict, verdict};

verus! {

/// A source that passes on only the values its predicate accepts.
pub struct Filter<O: Subscribable, F: Fn(&O::Item) -> bool> {
    pub f: F,
    pub inner: O,
}

/// The sink that `Filter` hands to the source it wraps.
pub struct FilterObserver<Q: Observer, F: Fn(&Q::Item) -> bool> {
    pub f: F,
    pub inner: Q,
}

impl<O: Subscribable, F: Fn(&O::Item) -> bool> Subscribable for Filter<O, F> {
    type Item = O::Item;

    type Subscription = O::Subscription;

    open spec fn ready(&self) -> bool {
        self.inner.ready() && decides(self.f)
    }

    fn subscribe<Q: Observer<Item = Self::Item>>(self, o: Q) -> Self::Subscription {
        let observer = FilterObserver { f: self.f, inner: o };
        self.inner.subscribe(observer)
    }
}

impl<Q: Observer, F: Fn(&Q::Item) -> bool> Observer for FilterObserver<Q, F> {
    type Item = Q::Item;

    open spec fn ready(&self) -> bool {
        self.inner.ready() && decides(self.f)
    }

    open spec fn after(self, value: Q::Item) -> Option<Self> {
        if verdict(self.f, value) {
            match self.inner.after(value) {
                Some(q) => Some(FilterObserver { f: self.f, inner: q }),
                None => None,
            }
        } else {
            Some(self)
        }
    }

    fn on_next(self, value: Q::Item) -> (r: Option<Self>) {
        let pass = (self.f)(&value);
        proof {
            lemma_verdict(self.f, value, pass);
        }
        if pass {
            let f = self.f;
            match self.inner.on_next(value) {
                Some(o) => Some(FilterObserver { f, inner: o }),
                None => None,
            }
        } else {
            Some(self)
        }
    }

    fn on_completed(self) {
        self.inner.on_completed();
    }
}

/// A source over `seq` that keeps the values `f` accepts.
pub fn new<O: Subscribable, F: Fn(&O::Item) -> bool>(seq: O, f: F) -> (r: Filter<O, F>)
    ensures
        r.inner == seq,
        r.f == f,
{
    Filter { inner: seq, f }
}

/// The values of `xs` that `f` accepts, in their order.
pub open spec fn kept<T, F: Fn(&T) -> bool>(xs: Seq<T>, f: F) -> Seq<T> {
    xs.filter(|v: T| verdict(f, v))
}

/// Pushing `xs` through a filter stage pushes exactly the values its
/// predicate accepts, in their order, into the sink it wraps; the stage stops
/// exactly when that sink does.
pub proof fn lemma_filter_delivers<Q: Observer, F: Fn(&Q::Item) -> bool>(
    q: Q,
    f: F,
    xs: Seq<Q::Item>,
)
    ensures
        feed(FilterObserver { f, inner: q }, xs) == match feed(q, kept(xs, f)) {
            Some(p) => Some(FilterObserver { f, inner: p }),
            None => None,
        },
    decreases xs.len(),
{
    reveal_with_fuel(Seq::filter, 1);
    if xs.len() > 0 {
        lemma_filter_delivers(q, f, xs.drop_last());
        assert(kept(xs, f) == {
            let sub = kept(xs.drop_last(), f);
            if verdict(f, xs.last()) {
                sub.push(xs.last())
            } else {
                sub
            }
        });
        if verdict(f, xs.last()) {
            assert(kept(xs, f).drop_last() =~= kept(xs.drop_last(), f));
        }
    }
}

} // verus!
