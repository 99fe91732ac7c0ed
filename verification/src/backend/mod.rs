//! Interface of a desktop backend, and operations that can be cancelled.
pub mod accessibility;
pub mod acting;
pub mod applications;
pub mod cast_watch;
pub mod copying;
pub mod desktop;
pub mod directing;
pub mod dmabuf;
pub mod existing;
pub mod frame;
pub mod framing;
pub mod input;
pub mod launch;
pub mod lending;
pub mod niri;
pub mod observing;
pub mod portal;
pub mod preview;
pub mod process;
pub mod sending;
pub mod surveying;
pub mod sway;
pub mod verified;
pub mod wayland;
pub mod x11;

use std::sync::atomic::AtomicU64;
use std::sync::Arc;
use vstd::prelude::*;

use crate::model::{Action, ErrorCode, Fault, FaultView, Observation, Target, fault};

verus! {

/// Lets an operation notice that it was cancelled: it remembers the generation in which
/// it began, and whoever cancels moves the shared generation on.
pub struct Cancellation {
    pub generation: Arc<AtomicU64>,
    pub captured: u64,
}

impl Clone for Cancellation {
    fn clone(&self) -> (r: Self)
        ensures
            r == *self,
    {
        Cancellation { generation: self.generation.clone(), captured: self.captured }
    }
}

/// The fault of a cancelled operation.
pub open spec fn cancelled() -> FaultView {
    fault(ErrorCode::Paused, "操作已取消，请在本地界面恢复"@)
}

/// Whether `AtomicU64::load` on a shared counter may return a value. Which one it returns is
/// up to those who share the counter.
pub open spec fn may_read(counter: AtomicU64, value: u64) -> bool {
    call_ensures(AtomicU64::load, (&counter, std::sync::atomic::Ordering::SeqCst), value)
}

/// Whether `AtomicU64::store` of a value to a shared counter was made. What those who share the
/// counter read from then on is up to the counter.
pub open spec fn was_written(counter: AtomicU64, value: u64) -> bool {
    call_ensures(AtomicU64::store, (&counter, value, std::sync::atomic::Ordering::SeqCst), ())
}

/// Whether `AtomicU64::new` may make a shared counter that holds a value.
pub open spec fn was_made(counter: AtomicU64, value: u64) -> bool {
    call_ensures(AtomicU64::new, (value,), counter)
}

/// Whether a shared counter was told a generation, or made with it.
pub open spec fn in_step(counter: AtomicU64, generation: u64) -> bool {
    was_written(counter, generation) || was_made(counter, generation)
}

impl Cancellation {
    /// Whether an operation goes on where a read of the shared counter gives a value.
    pub open spec fn stands(self, current: u64) -> bool {
        current == self.captured
    }

    /// Captures the generation that the shared counter holds now.
    pub fn new(generation: Arc<AtomicU64>) -> (r: Self)
        ensures
            r.generation == generation,
            may_read(*generation, r.captured),
    {
        let captured: u64 = generation.load(std::sync::atomic::Ordering::SeqCst);
        assert(may_read(*generation, captured));
        Cancellation { generation, captured }
    }

    /// Watches a shared counter for leaving a known generation.
    pub fn watching(generation: Arc<AtomicU64>, captured: u64) -> (r: Self)
        ensures
            r.generation == generation,
            r.captured == captured,
    {
        Cancellation { generation, captured }
    }

    /// What a read of the shared counter means for this operation.
    pub fn verdict(&self, current: u64) -> (r: Result<(), Fault>)
        ensures
            self.stands(current) ==> r is Ok,
            !self.stands(current) ==> (r matches Err(e) && e@ == cancelled()),
    {
        if current != self.captured {
            Err(Fault::new(ErrorCode::Paused, "操作已取消，请在本地界面恢复"))
        } else {
            Ok(())
        }
    }

    /// Reads the shared counter and fails once it has left the captured generation: the
    /// outcome is the verdict on the value that was read.
    pub fn check(&self) -> (r: Result<(), Fault>)
        ensures
            exists|current: u64| #[trigger]
                may_read(*self.generation, current) && if self.stands(current) {
                    r is Ok
                } else {
                    r matches Err(e) && e@ == cancelled()
                },
    {
        let current: u64 = self.generation.load(std::sync::atomic::Ordering::SeqCst);
        assert(may_read(*self.generation, current));
        self.verdict(current)
    }
}

/// A fresh operation goes on where the counter still gives what it gave.
pub proof fn fresh_operations_go_on(c: Cancellation, first: u64, current: u64)
    requires
        c.captured == first,
    ensures
        c.stands(current) == (current == first),
{
}

/// Once the counter has moved on and only grows, a cancelled operation stays cancelled at every
/// later read, and so does every copy of it, while one that begins then goes on.
pub proof fn cancelled_operations_stay_cancelled(
    c: Cancellation,
    copy: Cancellation,
    moved: u64,
    later: u64,
    fresh: Cancellation,
)
    requires
        copy == c,
        c.captured < moved,
        moved <= later,
        fresh.captured == later,
    ensures
        !c.stands(moved),
        !c.stands(later),
        !copy.stands(later),
        fresh.stands(later),
{
}

/// What a session controls.
pub trait Backend: Send {
    fn capabilities(&self) -> Vec<String>;

    fn targets(&mut self) -> Result<Vec<Target>, Fault>;

    fn observe(&mut self, target: Option<&str>, cancel: &Cancellation) -> Result<Observation, Fault>;

    /// Must validate live geometry and identity before sending the first event.
    fn act(&mut self, observation: &Observation, action: &Action, cancel: &Cancellation) -> Result<
        (),
        Fault,
    >;

    fn alive(&mut self) -> bool;

    /// Release input resources; never terminate an application with unsaved work.
    fn detach(&mut self) {
    }
}

} // verus!
