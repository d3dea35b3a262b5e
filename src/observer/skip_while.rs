use vstd::prelude::*;

use super::{Observer, Subscribable, decides, feed, lemma_verdict, verdict};

verus! {

/// A source that drops values while its predicate accepts them, and passes
/// on everything from the first value it rejects.
pub struct SkipWhile<O: Subscribable, F: Fn(&O::Item) -> bool> {
    pub inner: O,
    pub f: F,
}

/// The sink that `SkipWhile` hands to the source it wraps; the predicate is
/// gone once a value has passed.
pub struct SkipWhileObserver<Q: Observer, F: Fn(&Q::Item) -> bool> {
    pub inner: Q,
    pub f: Option<F>,
}

impl<O: Subscribable, F: Fn(&O::Item) -> bool> Subscribable for SkipWhile<O, F> {
    type Item = O::Item;

    type Subscription = O::Subscription;

    open spec fn ready(&self) -> bool {
        self.inner.ready() && decides(self.f)
    }

    fn subscribe<Q: Observer<Item = Self::Item>>(self, observer: Q) -> Self::Subscription {
        self.inner.subscribe(SkipWhileObserver { inner: observer, f: Some(self.f) })
    }
}

impl<Q: Observer, F: Fn(&Q::Item) -> bool> Observer for SkipWhileObserver<Q, F> {
    type Item = Q::Item;

    open spec fn ready(&self) -> bool {
        &&& self.inner.ready()
        &&& self.f matches Some(g) ==> decides(g)
    }

    open spec fn after(self, value: Q::Item) -> Option<Self> {
        if self.f matches Some(g) && verdict(g, value) {
            Some(self)
        } else {
            match self.inner.after(value) {
                Some(q) => Some(SkipWhileObserver { inner: q, f: None }),
                None => None,
            }
        }
    }

    fn on_next(self, val: Q::Item) -> (r: Option<Self>) {
        let SkipWhileObserver { inner, f } = self;
        if let Some(g) = f {
            let skip = g(&val);
            proof {
                lemma_verdict(g, val, skip);
            }
            if skip {
                return Some(SkipWhileObserver { inner, f: Some(g) });
            }
        }
        match inner.on_next(val) {
            Some(next) => Some(SkipWhileObserver { inner: next, f: None }),
            None => None,
        }
    }

    fn on_completed(self) {
        self.inner.on_completed();
    }
}

/// A source over `inner` without the values before the first one `f` rejects.
pub fn new<O: Subscribable, F: Fn(&O::Item) -> bool>(inner: O, f: F) -> (r: SkipWhile<O, F>)
    ensures
        r.inner == inner,
        r.f == f,
{
    SkipWhile { inner, f }
}

/// A skip-while stage drops the leading values its predicate accepts; from
/// the first one it rejects on, every value reaches the sink it wraps, and
/// the predicate is not consulted again.
pub proof fn lemma_skip_while_delivers<Q: Observer, F: Fn(&Q::Item) -> bool>(
    q: Q,
    f: F,
    xs: Seq<Q::Item>,
    k: int,
)
    requires
        0 <= k <= xs.len(),
        forall|i: int| 0 <= i < k ==> verdict(f, #[trigger] xs[i]),
        k < xs.len() ==> !verdict(f, xs[k]),
    ensures
        k == xs.len() ==> feed(SkipWhileObserver { inner: q, f: Some(f) }, xs) == Some(
            SkipWhileObserver { inner: q, f: Some(f) },
        ),
        k < xs.len() ==> feed(SkipWhileObserver { inner: q, f: Some(f) }, xs) == match feed(
            q,
            xs.skip(k),
        ) {
            Some(p) => Some(SkipWhileObserver { inner: p, f: None::<F> }),
            None => None,
        },
    decreases xs.len(),
{
    if xs.len() > 0 {
        let ys = xs.drop_last();
        if k == xs.len() {
            lemma_skip_while_delivers(q, f, ys, k - 1);
        } else if k == ys.len() {
            lemma_skip_while_delivers(q, f, ys, k);
            let zs = xs.skip(k);
            assert(zs.drop_last() =~= Seq::<Q::Item>::empty());
            assert(zs.last() == xs.last());
            assert(feed(q, zs.drop_last()) == Some(q));
        } else {
            lemma_skip_while_delivers(q, f, ys, k);
            assert(xs.skip(k).drop_last() =~= ys.skip(k));
            assert(xs.skip(k).last() == xs.last());
        }
    }
}

} // verus!
