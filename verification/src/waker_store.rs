//! Keeps the waker of the task to wake when an awaited event happens.
use std::task::{Context, Poll, Waker};
use vstd::prelude::*;

verus! {

/// The waker type of `std::task`.
#[verifier::external_type_specification]
#[verifier::external_body]
pub struct ExWaker(Waker);

/// The task context type of `std::task`.
#[verifier::external_type_specification]
#[verifier::external_body]
pub struct ExContext<'a>(Context<'a>);

/// The poll result type of `std::task`.
#[verifier::external_type_specification]
#[verifier::external_body]
#[verifier::reject_recursive_types(T)]
pub struct ExPoll<T>(Poll<T>);

/// Calls `<Waker as Clone>::clone`: a waker for the same task.
#[verifier::external_body]
fn clone_waker(waker: &Waker) -> (r: Waker) {
    waker.clone()
}

/// Calls `Waker::wake`, which schedules the task.
#[verifier::external_body]
fn wake_waker(waker: Waker) {
    waker.wake()
}

/// Calls `Context::waker`: the waker of the task being polled.
#[verifier::external_body]
fn context_waker<'a, 'b>(cx: &'b Context<'a>) -> (r: &'b Waker) {
    cx.waker()
}

/// Makes `Poll::Pending`.
#[verifier::external_body]
fn poll_pending<T>() -> (r: Poll<T>) {
    Poll::Pending
}

/// Holds at most one waker, and records the wakers woken through it.
pub struct WakerStore {
    storage: Option<Waker>,
    woken: Ghost<Seq<Waker>>,
}

impl WakerStore {
    /// Whether a waker is held.
    pub closed spec fn holds_waker(&self) -> bool {
        self.storage is Some
    }

    /// The waker held, if any.
    pub closed spec fn held(&self) -> Option<Waker> {
        self.storage
    }

    /// The wakers woken through the store, the first woken first.
    pub closed spec fn woken(&self) -> Seq<Waker> {
        self.woken@
    }

    /// A store that holds no waker and has woken none.
    pub fn new() -> (r: Self)
        ensures
            !r.holds_waker(),
            r.woken() == Seq::<Waker>::empty(),
    {
        Self { storage: None, woken: Ghost(Seq::empty()) }
    }

    /// Keeps a copy of `waker`, replacing the one held; wakes none.
    pub fn register(&mut self, waker: &Waker)
        ensures
            final(self).holds_waker(),
            final(self).woken() == old(self).woken(),
    {
        self.storage = Some(clone_waker(waker));
    }

    /// Keeps the waker of the task being polled, replacing the one held;
    /// wakes none.
    pub fn register_context(&mut self, cx: &Context<'_>)
        ensures
            final(self).holds_waker(),
            final(self).woken() == old(self).woken(),
    {
        self.register(context_waker(cx));
    }

    /// Wakes the task of the waker held, if any, and forgets it.
    pub fn wake(&mut self)
        ensures
            !final(self).holds_waker(),
            final(self).woken() == match old(self).held() {
                Some(w) => old(self).woken().push(w),
                None => old(self).woken(),
            },
    {
        match self.storage.take() {
            Some(waker) => {
                let ghost w = waker;
                wake_waker(waker);
                proof {
                    self.woken@ = self.woken@.push(w);
                }
            },
            None => {},
        }
    }

    /// Keeps the waker of the task being polled, for a poll that cannot go
    /// on yet; returns `Poll::Pending`. Wakes none.
    pub fn pend<T>(&mut self, cx: &mut Context<'_>) -> (r: Poll<T>)
        ensures
            final(self).holds_waker(),
            final(self).woken() == old(self).woken(),
    {
        self.register(context_waker(cx));
        poll_pending()
    }

    /// Takes the waker held out of the store, without waking it.
    pub fn take(&mut self) -> (r: Option<Waker>)
        ensures
            !final(self).holds_waker(),
            r is Some == old(self).holds_waker(),
            r == old(self).held(),
            final(self).woken() == old(self).woken(),
    {
        self.storage.take()
    }
}

} // verus!
