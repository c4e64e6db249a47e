//! The pool supervisor: spawning crawler workers at sequential ports,
//! replacing the ones whose initialization failed, and surfacing the
//! ones that failed while running.
//!
//! The supervisor owns the job queue, the aggregator and the reporting
//! channel; here its bookkeeping - the port counter and the count of
//! live supervised tasks - and its respawn policy are modeled and
//! verified. The task spawning itself is the async runtime's job
//! outside this crate.

use vstd::prelude::*;

verus! {

/// How a supervised worker task ended.
#[derive(Clone, Copy, Debug, PartialEq, Eq, Structural)]
pub enum TaskOutcome {
    /// It failed while initializing (subprocess launch, port bind,
    /// session handshake): recoverable at pool level.
    InitFailed,
    /// It failed after initialization, in its crawl loop: not
    /// recoverable; the pool does not replace it.
    RunFailed,
    /// It completed without error: the pool shrinks by one.
    Completed,
}

/// What the supervisor decides when a task ends.
#[derive(Clone, Copy, Debug, PartialEq, Eq, Structural)]
pub enum SupervisorAction {
    /// Spawn exactly one replacement worker at this fresh port.
    Respawn(u16),
    /// Surface the failure to the process-level caller.
    Surface,
    /// Nothing to do; wait for the remaining tasks.
    Continue,
}

/// The supervisor's bookkeeping over the worker pool.
#[derive(Clone, Copy, Debug)]
pub struct Crawlers {
    /// The next port to hand out. Only ever climbs, so a port is never
    /// allocated twice, even after the worker using it terminated.
    pub next_port: u16,
    /// How many supervised tasks are still live.
    pub active: usize,
}

impl Crawlers {
    /// A fresh pool that will allocate ports starting at `base_port`.
    pub fn new(base_port: u16) -> (c: Crawlers)
        ensures
            c.next_port == base_port,
            c.active == 0,
    {
        Crawlers { next_port: base_port, active: 0 }
    }

    /// Allocates the next sequential port for a new worker and counts
    /// its task as live. The returned port is fresh: no earlier spawn
    /// got it, no later spawn will.
    pub fn spawn(&mut self) -> (port: u16)
        requires
            old(self).next_port < u16::MAX,
            old(self).active < usize::MAX,
        ensures
            port == old(self).next_port,
            final(self).next_port == old(self).next_port + 1,
            final(self).active == old(self).active + 1,
    {
        let port = self.next_port;
        self.next_port = self.next_port + 1;
        self.active = self.active + 1;
        port
    }

    /// The respawn policy, applied when a supervised task ends:
    /// exactly one replacement at the next sequential port for a
    /// failed initialization, surfacing for a failure after
    /// initialization, nothing for a clean completion. Only an
    /// initialization failure keeps the pool's size; everything else
    /// shrinks it by one.
    pub fn on_task_complete(&mut self, outcome: TaskOutcome) -> (a: SupervisorAction)
        requires
            old(self).active >= 1,
            outcome is InitFailed ==> old(self).next_port < u16::MAX,
        ensures
            final(self).next_port >= old(self).next_port,
            match outcome {
                TaskOutcome::InitFailed => {
                    &&& a == SupervisorAction::Respawn(old(self).next_port)
                    &&& final(self).next_port == old(self).next_port + 1
                    &&& final(self).active == old(self).active
                },
                TaskOutcome::RunFailed => {
                    &&& a is Surface
                    &&& final(self).next_port == old(self).next_port
                    &&& final(self).active == old(self).active - 1
                },
                TaskOutcome::Completed => {
                    &&& a is Continue
                    &&& final(self).next_port == old(self).next_port
                    &&& final(self).active == old(self).active - 1
                },
            },
    {
        match outcome {
            TaskOutcome::InitFailed => {
                self.active = self.active - 1;
                let port = self.spawn();
                SupervisorAction::Respawn(port)
            },
            TaskOutcome::RunFailed => {
                self.active = self.active - 1;
                SupervisorAction::Surface
            },
            TaskOutcome::Completed => {
                self.active = self.active - 1;
                SupervisorAction::Continue
            },
        }
    }

    /// Whether the supervisor's wait loop is over: no supervised task
    /// remains.
    pub fn done(&self) -> (r: bool)
        ensures
            r == (self.active == 0),
    {
        self.active == 0
    }
}

/// Ports are never reused. A spawn hands out the counter's value and
/// leaves the counter strictly above it, and every later operation
/// only moves the counter up; so a spawn taken later - with the
/// counter at or above that mark - hands out a different port.
pub proof fn lemma_ports_never_reused(earlier_port: u16, counter_after: u16, later_port: u16)
    requires
        earlier_port < counter_after,
        counter_after <= later_port,
    ensures
        earlier_port != later_port,
{
}

} // verus!
