//! The shutdown coordinator: a versioned single-writer broadcast.
//!
//! Each send increments a version; a reader tracks the last version it
//! observed rather than a boolean, so repeated signals are each
//! individually observable even though no payload is carried. The
//! actual cross-task wakeup is the async runtime's business outside
//! this crate; the version arithmetic that makes signals impossible to
//! lose is pinned down here.
//!
//! The escalation protocol rides on the count alone: the first signal
//! asks for a graceful stop, any further signal for a forced one.

use vstd::prelude::*;

verus! {

/// The writer side: the authoritative version counter.
#[derive(Clone, Copy, Debug)]
pub struct ShutdownSignal {
    pub version: u64,
}

/// One reader's bookmark: the last version it has observed.
#[derive(Clone, Copy, Debug)]
pub struct ShutdownListener {
    pub observed: u64,
}

/// Where the pipeline stands in the two-stage shutdown.
#[derive(Clone, Copy, Debug, PartialEq, Eq, Structural)]
pub enum ShutdownStage {
    /// No signal yet: keep working.
    Running,
    /// One signal: stop gracefully.
    Graceful,
    /// More than one signal: stop now.
    Forced,
}

pub open spec fn spec_stage(version: u64) -> ShutdownStage {
    if version == 0 {
        ShutdownStage::Running
    } else if version == 1 {
        ShutdownStage::Graceful
    } else {
        ShutdownStage::Forced
    }
}

impl ShutdownSignal {
    /// A fresh coordinator: nothing signalled yet.
    pub fn new() -> (s: ShutdownSignal)
        ensures
            s.version == 0,
    {
        ShutdownSignal { version: 0 }
    }

    /// Sends one signal: bumps the shared version, which every reader
    /// observes independently on its next check.
    pub fn signal(&mut self)
        requires
            old(self).version < u64::MAX,
        ensures
            final(self).version == old(self).version + 1,
    {
        self.version = self.version + 1;
    }

    /// The escalation stage the version count encodes.
    pub fn stage(&self) -> (r: ShutdownStage)
        ensures
            r == spec_stage(self.version),
    {
        if self.version == 0 {
            ShutdownStage::Running
        } else if self.version == 1 {
            ShutdownStage::Graceful
        } else {
            ShutdownStage::Forced
        }
    }
}

impl ShutdownListener {
    /// Subscribes a reader: it has observed everything sent so far and
    /// will wake only for a newer version.
    pub fn new(s: &ShutdownSignal) -> (l: ShutdownListener)
        ensures
            l.observed == s.version,
    {
        ShutdownListener { observed: s.version }
    }

    /// Whether a version this reader has not yet observed exists -
    /// what a waiting reader's wakeup resolves on.
    pub fn has_changed(&self, s: &ShutdownSignal) -> (r: bool)
        ensures
            r == (self.observed < s.version),
    {
        self.observed < s.version
    }

    /// Marks everything sent so far as observed; the next wakeup needs
    /// a strictly newer version.
    pub fn observe(&mut self, s: &ShutdownSignal)
        ensures
            final(self).observed == s.version,
    {
        self.observed = s.version;
    }
}

/// Signals are coalesced but never lost: a reader whose bookmark is at
/// most the current version sees a change after the next send, whether
/// or not it was waiting when the send happened.
pub proof fn lemma_signal_never_lost(observed: u64, version: u64)
    requires
        observed <= version,
        version < u64::MAX,
    ensures
        observed < version + 1,
{
}

} // verus!
