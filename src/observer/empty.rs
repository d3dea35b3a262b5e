use vstd::prelude::*;

use std::marker::PhantomData;

use super::{DoNothingSub, Subscribable, Observer};

verus! {

/// A source that completes at once, without a value.
pub struct Empty<T> {
    pub _t: PhantomData<T>,
}

impl<T> Subscribable for Empty<T> {
    type Item = T;

    type Subscription = DoNothingSub;

    open spec fn ready(&self) -> bool {
        true
    }

    fn subscribe<Q: Observer<Item = T>>(self, o: Q) -> DoNothingSub {
        o.on_completed();
        DoNothingSub
    }
}

/// The source with no values.
pub fn new<T>() -> (r: Empty<T>)
    ensures
        r.ready(),
{
    Empty { _t: PhantomData }
}

} // verus!
