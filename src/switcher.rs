//! Context switchers: the strategy that moves execution between the run loop
//! and a task. Every task borrows the switcher it was created through for as
//! long as it exists, and an executor borrows the switchers of the tasks
//! attached to it; so a switcher cannot be destroyed while a task created
//! through it is alive: the borrow checker rejects the call.

use vstd::prelude::*;
use crate::status::{StatusCode, EINVAL};

verus! {

/// The technique a switcher uses to save and restore execution context.
#[derive(Clone, Copy, Debug, PartialEq, Eq, Structural)]
pub enum SwitcherKind {
    /// Saves and restores registers in the manner of setjmp/longjmp.
    SetjmpLongjmp,
    /// Runs each slice as a plain call on the caller's stack.
    Plain,
}

pub struct ContextSwitcher {
    kind: SwitcherKind,
    destroyed: bool,
}

impl ContextSwitcher {
    pub closed spec fn spec_kind(&self) -> SwitcherKind {
        self.kind
    }

    pub closed spec fn spec_destroyed(&self) -> bool {
        self.destroyed
    }

    /// Creates a switcher of the given kind.
    pub fn create(kind: SwitcherKind) -> (r: ContextSwitcher)
        ensures
            r.spec_kind() == kind,
            !r.spec_destroyed(),
    {
        ContextSwitcher { kind, destroyed: false }
    }

    pub fn kind(&self) -> (r: SwitcherKind)
        ensures
            r == self.spec_kind(),
    {
        self.kind
    }

    pub fn is_destroyed(&self) -> (r: bool)
        ensures
            r == self.spec_destroyed(),
    {
        self.destroyed
    }

    /// Destroys the switcher, at most once: fails with `EINVAL` when already
    /// destroyed. It takes the switcher mutably, so it cannot be called while
    /// a task created through it, or an executor holding such a task,
    /// still borrows it.
    pub fn destroy(&mut self) -> (r: Result<(), StatusCode>)
        ensures
            r is Ok <==> !old(self).spec_destroyed(),
            r is Err ==> r == Err::<(), StatusCode>(StatusCode { value: EINVAL }) && *final(self) == *old(self),
            r is Ok ==> final(self).spec_destroyed() && final(self).spec_kind() == old(self).spec_kind(),
    {
        if self.destroyed {
            return Err(StatusCode { value: EINVAL });
        }
        self.destroyed = true;
        Ok(())
    }
}

} // verus!
