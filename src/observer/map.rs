use vstd::prelude::*;

use std::marker::PhantomData;

use super::{Observer, Subscribable, feed, image, lemma_image, transforms};

verus! {

/// A source that passes on the image of each value under `f`.
#[verifier::reject_recursive_types(T)]
pub struct Mapped<T, O: Subscribable, F: Fn(O::Item) -> T> {
    pub f: F,
    pub inner: O,
    pub _t: PhantomData<T>,
}

impl<T, O: Subscribable, F: Fn(O::Item) -> T> Subscribable for Mapped<T, O, F> {
    type Item = T;

    type Subscription = O::Subscription;

    open spec fn ready(&self) -> bool {
        self.inner.ready() && transforms(self.f)
    }

    fn subscribe<Q: Observer<Item = Self::Item>>(self, o: Q) -> Self::Subscription {
        let observer = MapObserver { f: self.f, inner: o, _t: PhantomData };
        self.inner.subscribe(observer)
    }
}

/// The sink that `Mapped` hands to the source it wraps.
#[verifier::reject_recursive_types(T)]
pub struct MapObserver<T, Q: Observer, F: Fn(T) -> Q::Item> {
    pub f: F,
    pub inner: Q,
    pub _t: PhantomData<T>,
}

impl<T, Q: Observer, F: Fn(T) -> Q::Item> Observer for MapObserver<T, Q, F> {
    type Item = T;

    open spec fn ready(&self) -> bool {
        self.inner.ready() && transforms(self.f)
    }

    open spec fn after(self, value: T) -> Option<Self> {
        match self.inner.after(image(self.f, value)) {
            Some(q) => Some(MapObserver { f: self.f, inner: q, _t: self._t }),
            None => None,
        }
    }

    fn on_next(self, value: T) -> (r: Option<Self>) {
        let ghost v = value;
        let f = self.f;
        let value = f(value);
        proof {
            lemma_image(f, v, value);
        }
        match self.inner.on_next(value) {
            Some(o) => Some(MapObserver { f, inner: o, _t: PhantomData }),
            None => None,
        }
    }

    fn on_completed(self) {
        self.inner.on_completed();
    }
}

/// A source over `inner` that passes on `f` of each of its values.
pub fn new<T, O: Subscribable, F: Fn(O::Item) -> T>(inner: O, f: F) -> (r: Mapped<T, O, F>)
    ensures
        r.inner == inner,
        r.f == f,
{
    Mapped { f, inner, _t: PhantomData }
}

/// Pushing `xs` through a map stage pushes the image of each value, in order,
/// into the sink it wraps: as many values as it took, until that sink stops.
pub proof fn lemma_map_delivers<T, Q: Observer, F: Fn(T) -> Q::Item>(
    q: Q,
    f: F,
    t: PhantomData<T>,
    xs: Seq<T>,
)
    ensures
        feed(MapObserver { f, inner: q, _t: t }, xs) == match feed(
            q,
            xs.map_values(|v: T| image(f, v)),
        ) {
            Some(p) => Some(MapObserver { f, inner: p, _t: t }),
            None => None,
        },
    decreases xs.len(),
{
    let ys = xs.map_values(|v: T| image(f, v));
    if xs.len() > 0 {
        lemma_map_delivers(q, f, t, xs.drop_last());
        assert(ys.drop_last() =~= xs.drop_last().map_values(|v: T| image(f, v)));
    }
}

} // verus!
