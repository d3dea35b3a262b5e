use vstd::prelude::*;

pub mod concat;
pub mod empty;
pub mod filter;
pub mod map;
pub mod never;
pub mod skip;
pub mod skip_while;
pub mod take;
pub mod take_until;
pub mod take_while;
pub mod from_iter;

pub use self::from_iter::from_iter;

verus! {

/// A sink: the endpoint that values are pushed into.
///
/// Each accepted value consumes the sink and hands back its next state, or
/// `None` once the sink will take no more values.
pub trait Observer: Sized {
    type Item;

    /// The sink is in a state that a source may push into. A sink that
    /// does not describe its steps is never taken to be.
    open spec fn ready(&self) -> bool {
        false
    }

    /// The state the sink moves to on `value`, or `None` when it stops there.
    open spec fn after(self, value: Self::Item) -> Option<Self> {
        None
    }

    /// Takes `value`, handing back the next state, or `None` to stop.
    fn on_next(self, value: Self::Item) -> (r: Option<Self>)
        requires
            self.ready(),
        ensures
            r == self.after(value),
            r matches Some(o) ==> o.ready(),
    ;

    /// The source is exhausted; no value follows.
    fn on_completed(self)
        requires
            self.ready(),
    ;
}

/// A source: a description of a sequence that runs when a sink subscribes.
pub trait Subscribable: Sized {
    type Item;

    type Subscription;

    /// The description can be subscribed to. A source that does not
    /// describe itself is never taken to be.
    open spec fn ready(&self) -> bool {
        false
    }

    /// Attaches `o` and drives delivery into it, until the source is
    /// exhausted or `o` stops.
    fn subscribe<Q: Observer<Item = Self::Item>>(self, o: Q) -> Self::Subscription
        requires
            self.ready(),
            o.ready(),
    ;
}

/// The operators, available on every source.
pub trait Observable: Subscribable {
    /// Keeps the values `f` accepts.
    fn filter<F: Fn(&Self::Item) -> bool>(self, f: F) -> (r: filter::Filter<Self, F>)
        ensures
            r.inner == self,
            r.f == f,
    {
        filter::new(self, f)
    }

    /// Passes on `f` of each value.
    fn map<T, F: Fn(Self::Item) -> T>(self, f: F) -> (r: map::Mapped<T, Self, F>)
        ensures
            r.inner == self,
            r.f == f,
    {
        map::new(self, f)
    }

    /// Ends after `count` values.
    fn take(self, count: u64) -> (r: take::Take<Self>)
        ensures
            r.inner == self,
            r.count == count,
    {
        take::new(self, count)
    }

    /// Ends before the first value `f` rejects.
    fn take_while<F: Fn(&Self::Item) -> bool>(self, f: F) -> (r: take_while::TakeWhile<Self, F>)
        ensures
            r.inner == self,
            r.f == f,
    {
        take_while::new(self, f)
    }

    /// Ends after the first value `f` accepts.
    fn take_until<F: Fn(&Self::Item) -> bool>(self, f: F) -> (r: take_until::TakeUntil<Self, F>)
        ensures
            r.inner == self,
            r.f == f,
    {
        take_until::new(self, f)
    }

    /// Drops the first `count` values.
    fn skip(self, count: u64) -> (r: skip::Skip<Self>)
        ensures
            r.inner == self,
            r.count == count,
    {
        skip::new(self, count)
    }

    /// Drops values until the first one `f` rejects.
    fn skip_while<F: Fn(&Self::Item) -> bool>(self, f: F) -> (r: skip_while::SkipWhile<Self, F>)
        ensures
            r.inner == self,
            r.f == f,
    {
        skip_while::new(self, f)
    }

    /// Runs this source to completion, then `other`.
    fn concat<O2: Subscribable<Item = Self::Item>>(self, other: O2) -> (r: concat::Concat<Self, O2>)
        ensures
            r.seq1 == self,
            r.seq2 == other,
    {
        concat::new(self, other)
    }
}

impl<O: Subscribable> Observable for O {}

/// Nothing to release: the subscription of a source whose delivery is over
/// once `subscribe` returns.
pub struct DoNothingSub;

/// Keeps the values of `seq` that `f` accepts.
pub fn filter<O: Subscribable, F: Fn(&O::Item) -> bool>(seq: O, f: F) -> (r: filter::Filter<O, F>)
    ensures
        r.inner == seq,
        r.f == f,
{
    filter::new(seq, f)
}

/// The source that pushes nothing and never completes.
pub fn never<T>() -> (r: never::Never<T>)
    ensures
        r.ready(),
{
    never::new::<T>()
}

/// `f` can be called on every value and gives one answer for each.
pub open spec fn decides<T, F: Fn(&T) -> bool>(f: F) -> bool {
    &&& forall|v: T| #[trigger] f.requires((&v,))
    &&& forall|v: T, a: bool, b: bool|
        #[trigger] f.ensures((&v,), a) && #[trigger] f.ensures((&v,), b) ==> a == b
}

/// The answer of `f` on `v`: the one a call returns, when `f` decides.
pub open spec fn verdict<T, F: Fn(&T) -> bool>(f: F, v: T) -> bool {
    choose|b: bool| f.ensures((&v,), b)
}

/// What a call of a deciding `f` returns is its verdict.
pub proof fn lemma_verdict<T, F: Fn(&T) -> bool>(f: F, v: T, b: bool)
    requires
        decides(f),
        f.ensures((&v,), b),
    ensures
        b == verdict(f, v),
{
}

/// `f` can be called on every value and gives one result for each.
pub open spec fn transforms<T, U, F: Fn(T) -> U>(f: F) -> bool {
    &&& forall|v: T| #[trigger] f.requires((v,))
    &&& forall|v: T, a: U, b: U| #[trigger] f.ensures((v,), a) && #[trigger] f.ensures((v,), b) ==> a == b
}

/// The result of `f` on `v`: the one a call returns, when `f` transforms.
pub open spec fn image<T, U, F: Fn(T) -> U>(f: F, v: T) -> U {
    choose|u: U| f.ensures((v,), u)
}

/// What a call of a transforming `f` returns is its image.
pub proof fn lemma_image<T, U, F: Fn(T) -> U>(f: F, v: T, u: U)
    requires
        transforms(f),
        f.ensures((v,), u),
    ensures
        u == image(f, v),
{
}

/// The state a sink reaches when `xs` is pushed into it in order, or `None`
/// when it stops on one of them.
pub open spec fn feed<Q: Observer>(q: Q, xs: Seq<Q::Item>) -> Option<Q>
    decreases xs.len(),
{
    if xs.len() == 0 {
        Some(q)
    } else {
        match feed(q, xs.drop_last()) {
            Some(p) => p.after(xs.last()),
            None => None,
        }
    }
}

/// Once a sink has stopped, pushing more values does not revive it.
pub proof fn lemma_feed_stays_stopped<Q: Observer>(q: Q, xs: Seq<Q::Item>, k: int)
    requires
        0 <= k <= xs.len(),
        feed(q, xs.take(k)) is None,
    ensures
        feed(q, xs) is None,
    decreases xs.len() - k,
{
    if k < xs.len() {
        assert(xs.take(k + 1).drop_last() =~= xs.take(k));
        lemma_feed_stays_stopped(q, xs, k + 1);
    } else {
        assert(xs.take(k) =~= xs);
    }
}

/// Pushing `xs` and then `ys` into a sink is pushing `xs + ys`: a sink that
/// receives one sequence after the other ends where it would on both in one.
pub proof fn lemma_feed_append<Q: Observer>(q: Q, xs: Seq<Q::Item>, ys: Seq<Q::Item>)
    ensures
        feed(q, xs + ys) == match feed(q, xs) {
            Some(p) => feed(p, ys),
            None => None,
        },
    decreases ys.len(),
{
    if ys.len() == 0 {
        assert(xs + ys =~= xs);
    } else {
        lemma_feed_append(q, xs, ys.drop_last());
        assert((xs + ys).drop_last() =~= xs + ys.drop_last());
        assert((xs + ys).last() == ys.last());
    }
}

} // verus!
