//! A waker kept for later: the task to wake when something changes.
use crate::waker_store::WakerStore;
use std::task::{Context, Waker};
use vstd::prelude::*;

verus! {

/// Holds the waker of the task that last waited, if any.
pub struct SavedWaker(WakerStore);

impl SavedWaker {
    /// Whether a waker is held.
    pub closed spec fn is_set(&self) -> bool {
        self.0.holds_waker()
    }

    /// The waker held, if any.
    pub closed spec fn held(&self) -> Option<Waker> {
        self.0.held()
    }

    /// The wakers woken, the first woken first.
    pub closed spec fn woken(&self) -> Seq<Waker> {
        self.0.woken()
    }

    /// Holds no waker and has woken none.
    pub fn new() -> (r: Self)
        ensures
            !r.is_set(),
            r.woken() == Seq::<Waker>::empty(),
    {
        SavedWaker(WakerStore::new())
    }

    /// Keeps the waker of the task being polled, replacing the one held;
    /// wakes none.
    pub fn set(&mut self, cx: &mut Context)
        ensures
            final(self).is_set(),
            final(self).woken() == old(self).woken(),
    {
        self.0.register_context(cx);
    }

    /// Wakes the task of the waker held, if any, and forgets it.
    pub fn wake(&mut self)
        ensures
            !final(self).is_set(),
            final(self).woken() == match old(self).held() {
                Some(w) => old(self).woken().push(w),
                None => old(self).woken(),
            },
    {
        self.0.wake();
    }
}

} // verus!
