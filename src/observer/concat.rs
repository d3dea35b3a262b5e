use vstd::prelude::*;

use std::sync::Arc;
use vstd::rwlock::{RwLock, RwLockPredicate};

use super::{Observer, Subscribable, feed};

verus! {

/// What the shared cell of a concatenation holds.
pub enum CellState<S1, S2> {
    /// The first source has not returned its subscription yet.
    Initial,
    /// The first source's subscription is held.
    RunningFirst(S1),
    /// The second source's subscription is held.
    RunningSecond(S2),
    /// Torn down; nothing is held and nothing will be.
    Disposed,
}

impl<S1, S2> CellState<S1, S2> {
    /// The state after the first source's subscription `sub` comes back, and
    /// what is left over to release.
    pub open spec fn with_first(self, sub: S1) -> (Self, Self) {
        match self {
            CellState::Initial => (CellState::RunningFirst(sub), CellState::Initial),
            _ => (self, CellState::RunningFirst(sub)),
        }
    }

    /// The state after the second source's subscription `sub` comes back, and
    /// what is left over to release.
    pub open spec fn with_second(self, sub: S2) -> (Self, Self) {
        match self {
            CellState::Disposed => (CellState::Disposed, CellState::RunningSecond(sub)),
            _ => (CellState::RunningSecond(sub), self),
        }
    }

    /// The state after disposal, and what is left over to release.
    pub open spec fn disposed(self) -> (Self, Self) {
        (CellState::Disposed, self)
    }

    pub fn is_disposed(&self) -> (r: bool)
        ensures
            r == (*self is Disposed),
    {
        match self {
            CellState::Disposed => true,
            _ => false,
        }
    }

    /// Stores the first subscription if nothing happened before it came back.
    pub fn record_first(self, sub: S1) -> (r: (Self, Self))
        ensures
            r == self.with_first(sub),
    {
        match self {
            CellState::Initial => (CellState::RunningFirst(sub), CellState::Initial),
            other => (other, CellState::RunningFirst(sub)),
        }
    }

    /// Stores the second subscription unless the cell was torn down.
    pub fn record_second(self, sub: S2) -> (r: (Self, Self))
        ensures
            r == self.with_second(sub),
    {
        match self {
            CellState::Disposed => (CellState::Disposed, CellState::RunningSecond(sub)),
            other => (CellState::RunningSecond(sub), other),
        }
    }

    /// Tears the cell down, handing back what it held.
    pub fn dispose(self) -> (r: (Self, Self))
        ensures
            r == self.disposed(),
    {
        (CellState::Disposed, self)
    }
}

/// Disposal is idempotent: disposing again keeps the cell torn down and hands
/// back nothing, so a released subscription is never touched twice.
pub proof fn lemma_dispose_idempotent<S1, S2>(s: CellState<S1, S2>)
    ensures
        s.disposed().1 == s,
        s.disposed().0.disposed() == (CellState::<S1, S2>::Disposed, CellState::<S1, S2>::Disposed),
{
}

/// A torn-down cell stays torn down, whatever comes back afterwards, and
/// what comes back is handed out to be released.
pub proof fn lemma_disposed_is_final<S1, S2>(s1: S1, s2: S2)
    ensures
        CellState::<S1, S2>::Disposed.with_first(s1) == (
            CellState::<S1, S2>::Disposed,
            CellState::<S1, S2>::RunningFirst(s1),
        ),
        CellState::<S1, S2>::Disposed.with_second(s2) == (
            CellState::<S1, S2>::Disposed,
            CellState::<S1, S2>::RunningSecond(s2),
        ),
{
}

/// Each hand-off happens at most once: the first subscription is stored
/// only into a fresh cell, and once the second one is held the first can no
/// longer displace it.
pub proof fn lemma_handoff_once<S1, S2>(s: CellState<S1, S2>, a: S1, b: S2)
    ensures
        !(s is Initial) ==> s.with_first(a) == (s, CellState::<S1, S2>::RunningFirst(a)),
        CellState::<S1, S2>::RunningSecond(b).with_first(a).0 == CellState::<S1, S2>::RunningSecond(b),
        !(s is Disposed) ==> s.with_second(b) == (CellState::<S1, S2>::RunningSecond(b), s),
{
}

/// Every state of the cell may be stored in its lock.
pub struct AnyState;

impl<S1, S2> RwLockPredicate<CellState<S1, S2>> for AnyState {
    open spec fn inv(self, v: CellState<S1, S2>) -> bool {
        true
    }
}

/// The shared cell of one concatenation.
pub type Cell<S1, S2> = RwLock<CellState<S1, S2>, AnyState>;

/// A source that pushes all values of `seq1`, then all values of `seq2`.
pub struct Concat<O1, O2> {
    pub seq1: O1,
    pub seq2: O2,
}

/// The sink handed to the first source: it forwards values, and on
/// completion subscribes the downstream sink to the second source, unless
/// the cell was torn down first.
pub struct ConcatObserver<Q, O2: Subscribable, Sub1> {
    pub observer: Q,
    pub seq2: O2,
    pub sub: Arc<Cell<Sub1, O2::Subscription>>,
}

/// The subscription of a concatenation, holding its shared cell.
pub struct SwitchingSubscription<Sub1, Sub2>(Arc<Cell<Sub1, Sub2>>);

impl<Sub1, Sub2> SwitchingSubscription<Sub1, Sub2> {
    /// Tears the cell down and releases whichever subscription it held,
    /// once the lock is free again. Any further call finds nothing to release.
    pub fn dispose(&self) {
        let (state, handle) = self.0.acquire_write();
        let (next, _released) = state.dispose();
        handle.release_write(next);
    }
}

impl<Q: Observer, O2: Subscribable<Item = Q::Item>, Sub1> Observer for ConcatObserver<Q, O2, Sub1> {
    type Item = Q::Item;

    open spec fn ready(&self) -> bool {
        self.observer.ready() && self.seq2.ready()
    }

    open spec fn after(self, value: Q::Item) -> Option<Self> {
        match self.observer.after(value) {
            Some(q) => Some(ConcatObserver { observer: q, seq2: self.seq2, sub: self.sub }),
            None => None,
        }
    }

    fn on_next(self, value: Q::Item) -> (r: Option<Self>) {
        let ConcatObserver { observer, seq2, sub } = self;
        match observer.on_next(value) {
            Some(next) => Some(ConcatObserver { observer: next, seq2, sub }),
            None => None,
        }
    }

    fn on_completed(self) {
        let ConcatObserver { observer, seq2, sub } = self;
        let (state, handle) = sub.acquire_write();
        let disposed = state.is_disposed();
        handle.release_write(state);
        if disposed {
            return;
        }
        let next_sub = seq2.subscribe(observer);
        let (state, handle) = sub.acquire_write();
        let (next, _released) = state.record_second(next_sub);
        handle.release_write(next);
    }
}

impl<O1: Subscribable, O2: Subscribable<Item = O1::Item>> Subscribable for Concat<O1, O2> {
    type Item = O1::Item;

    type Subscription = SwitchingSubscription<O1::Subscription, O2::Subscription>;

    open spec fn ready(&self) -> bool {
        self.seq1.ready() && self.seq2.ready()
    }

    fn subscribe<Q: Observer<Item = Self::Item>>(self, observer: Q) -> Self::Subscription {
        let cell: Arc<Cell<O1::Subscription, O2::Subscription>> = Arc::new(
            RwLock::new(CellState::Initial, Ghost(AnyState)),
        );
        let shared = cell.clone();
        let o = ConcatObserver { observer, seq2: self.seq2, sub: shared };
        let sub = self.seq1.subscribe(o);
        let (state, handle) = cell.acquire_write();
        let (next, _released) = state.record_first(sub);
        handle.release_write(next);
        SwitchingSubscription(cell)
    }
}

/// A source that runs `seq1` to completion, then `seq2`.
pub fn new<O1: Subscribable, O2: Subscribable<Item = O1::Item>>(seq1: O1, seq2: O2) -> (r: Concat<O1, O2>)
    ensures
        r.seq1 == seq1,
        r.seq2 == seq2,
{
    Concat { seq1, seq2 }
}

/// While the first source runs, the downstream sink receives exactly its
/// values, in order, and the stage stops exactly when that sink does.
pub proof fn lemma_concat_first_delivers<Q: Observer, O2: Subscribable<Item = Q::Item>, Sub1>(
    q: Q,
    seq2: O2,
    sub: Arc<Cell<Sub1, O2::Subscription>>,
    xs: Seq<Q::Item>,
)
    ensures
        feed(ConcatObserver { observer: q, seq2, sub }, xs) == match feed(q, xs) {
            Some(p) => Some(ConcatObserver { observer: p, seq2, sub }),
            None => None,
        },
    decreases xs.len(),
{
    if xs.len() > 0 {
        lemma_concat_first_delivers(q, seq2, sub, xs.drop_last());
    }
}

} // verus!
