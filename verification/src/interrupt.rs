//! Ctrl-C, as something the engine can read.
//!
//! SIGINT reaches the whole process group, so an in-flight git gets it too;
//! all bitplane controls is what it records and prints. The first interrupt
//! stops a fan-out scheduling new members; a second exits immediately.
//!
//! An [`Interrupt`] is a handle onto a counter rather than a flag, because
//! "again" is the whole of the second-interrupt rule. It borrows a `'static`
//! counter so a signal handler, which can capture nothing, and the engine can
//! share one. The counter is raised from another thread at any moment, so
//! what a read of it gives is whatever it held then: nothing is promised of
//! it here beyond what a single read returns.

use vstd::prelude::*;
use std::sync::atomic::AtomicUsize;

verus! {

/// How many times the run has been interrupted.
#[derive(Debug, Clone, Copy)]
pub struct Interrupt {
    /// The counter, or none for a call that has no interrupt to honour.
    raised: Option<&'static AtomicUsize>,
}

impl Interrupt {
    /// Whether this interrupt is on a counter at all.
    pub closed spec fn honoured(&self) -> bool {
        self.raised is Some
    }

    /// An interrupt on a counter of the caller's own.
    pub fn on(raised: &'static AtomicUsize) -> (i: Interrupt)
        ensures
            i.honoured(),
    {
        Interrupt { raised: Some(raised) }
    }

    /// One that is never raised, for a call that has no interrupt to honour.
    pub fn never() -> (i: Interrupt)
        ensures
            !i.honoured(),
    {
        Interrupt { raised: None }
    }

    /// Raises it, as the signal handler does. Raising one that is never
    /// raised does nothing.
    pub fn raise(self) {
        if let Some(counter) = self.raised {
            let _ = counter.fetch_add(1, std::sync::atomic::Ordering::SeqCst);
        }
    }

    /// How many times. Two or more is "exit now, leave what is in flight".
    /// One that is never raised counts none.
    pub fn count(self) -> (n: usize)
        ensures
            !self.honoured() ==> n == 0,
    {
        match self.raised {
            Some(counter) => counter.load(std::sync::atomic::Ordering::SeqCst),
            None => 0,
        }
    }

    /// Whether the run has been asked to stop: one read of the counter,
    /// above zero. One that is never raised never is.
    pub fn is_raised(self) -> (r: bool)
        ensures
            !self.honoured() ==> !r,
    {
        self.count() > 0
    }
}

} // verus!
