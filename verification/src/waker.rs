//! Registration of the task to wake.
use core::task::Waker;
use vstd::prelude::*;

verus! {

/// `core::task::Waker`, a handle for waking up a task.
#[verifier::external_type_specification]
#[verifier::external_body]
pub struct ExWaker(Waker);

/// `Clone` of `core::task::Waker`: another handle for the same task.
///
/// Nothing is claimed of the result beyond that it is a clone of the argument.
pub assume_specification[ <Waker as Clone>::clone ](waker: &Waker) -> (clone: Waker)
;

/// `core::task::Waker::wake`: wakes up the task, and gives the handle up.
///
/// Nothing is claimed of it: it has no result.
pub assume_specification[ Waker::wake ](waker: Waker)
;

/// Whether `Waker::wake` was called on this waker. This is known of no waker but of one that it was
/// called on. What the call does to the task is up to the executor, and not said.
pub open spec fn woken(waker: Waker) -> bool {
    call_ensures(Waker::wake, (waker,), ())
}

/// A waker is woken exactly if `Waker::wake` can have returned for it.
pub proof fn law_woken_is_called(waker: Waker)
    ensures
        woken(waker) <==> call_ensures(Waker::wake, (waker,), ()),
{
}

/// A place for at most one waker.
#[derive(Debug)]
pub struct WakerRegistration {
    waker: Option<Waker>,
}

impl View for WakerRegistration {
    type V = Option<Waker>;

    closed spec fn view(&self) -> Option<Waker> {
        self.waker
    }
}

/// The view of a registration shows the registered waker.
proof fn law_view_shows_the_waker(registration: WakerRegistration)
    ensures
        registration@ == registration.waker,
{
}

impl WakerRegistration {
    /// Create a registration without a waker.
    pub fn new() -> (registration: WakerRegistration)
        ensures
            registration@ is None,
    {
        WakerRegistration { waker: None }
    }

    /// Register a waker. One that was registered before is overwritten.
    pub fn register(&mut self, waker: &Waker)
        ensures
            final(self)@ is Some,
            cloned(*waker, final(self)@->0),
    {
        self.waker = Some(waker.clone());
    }

    /// Wake the registered waker, if any, and forget it.
    ///
    /// The contract shows the emptied registration, and that `Waker::wake` was called on what was
    /// registered. What that call does to the task is up to its executor, and not stated.
    pub fn wake(&mut self)
        ensures
            final(self)@ is None,
            old(self)@ matches Some(waker) ==> woken(waker),
    {
        if let Some(waker) = self.waker.take() {
            waker.wake();
        }
    }
}

} // verus!
