use vstd::prelude::*;

use std::marker::PhantomData;

use super::{DoNothingSub, Subscribable, Observer};

verus! {

/// A source that pushes nothing and never completes.
pub struct Never<T> {
    pub _t: PhantomData<T>,
}

impl<T> Subscribable for Never<T> {
    type Item = T;

    type Subscription = DoNothingSub;

    open spec fn ready(&self) -> bool {
        true
    }

    fn subscribe<Q: Observer<Item = T>>(self, _o: Q) -> DoNothingSub {
        DoNothingSub
    }
}

/// The source that never signals anything.
pub fn new<T>() -> (r: Never<T>)
    ensures
        r.ready(),
{
    Never { _t: PhantomData }
}

} // verus!
