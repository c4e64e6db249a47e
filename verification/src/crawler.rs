//! The crawler worker: one supervised task owning a browser-driver
//! subprocess and session, modeled as a state machine.
//!
//! The subprocess, the WebDriver traffic and the log file live outside
//! this crate; every outcome they produce comes back in as a plain
//! value, and the machine here decides - verifiably - what happens
//! next: which report goes to the observer, what the aggregator
//! receives, and when the session is closed or the driver killed.
//!
//! The worker's life: `Initializing`, then a loop of popping a job and
//! navigating (`InProgress` / `Complete`), then `ShuttingDown` once the
//! queue is exhausted or a shutdown signal arrives, then `Terminated` -
//! reported exactly once per worker lifetime, however it ends.

use vstd::prelude::*;

use crate::assigner::Job;
use crate::state::{as_ints, counts_after, Freq};
use crate::tag::{spec_tag_of, Tag, TAG_COUNT};

verus! {

/// A worker's externally visible state, as reported to the observer.
#[derive(Clone, Debug, PartialEq, Eq)]
pub enum CrawlerState {
    /// Spawning the subprocess and establishing the session.
    Initializing,
    /// Navigating the given site (scheme stripped for display).
    InProgress(String),
    /// Finished one job, successfully or not.
    Complete,
    /// Closing the session gracefully.
    ShuttingDown,
    /// Final: the subprocess is gone.
    Terminated,
}

impl CrawlerState {
    /// Whether the dashboard's spinner should move for this state.
    pub fn should_spinner_spin(&self) -> (r: bool)
        ensures
            r == (self is Initializing || self is InProgress || self is ShuttingDown),
    {
        match self {
            CrawlerState::Initializing => true,
            CrawlerState::InProgress(_) => true,
            CrawlerState::ShuttingDown => true,
            _ => false,
        }
    }

    /// The text the observer displays for this state.
    pub fn label(&self) -> (s: String)
        ensures
            match self {
                CrawlerState::Initializing => s@ == "Initializing..."@,
                CrawlerState::InProgress(url) => s@ == url@,
                CrawlerState::Complete => s@ == "Complete!"@,
                CrawlerState::ShuttingDown => s@ == "Shutting down..."@,
                CrawlerState::Terminated => s@ == "Terminated"@,
            },
    {
        match self {
            CrawlerState::Initializing => String::from_str("Initializing..."),
            CrawlerState::InProgress(url) => url.clone(),
            CrawlerState::Complete => String::from_str("Complete!"),
            CrawlerState::ShuttingDown => String::from_str("Shutting down..."),
            CrawlerState::Terminated => String::from_str("Terminated"),
        }
    }
}

/// One state transition, sent to the observer as it happens.
#[derive(Clone, Debug)]
pub struct CrawlerReport {
    pub port: u16,
    pub state: CrawlerState,
}

/// The URL with the fixed scheme stripped, as shown on the dashboard.
pub open spec fn spec_strip_scheme(s: Seq<char>) -> Seq<char> {
    if crate::assigner::spec_has_scheme(s) {
        s.skip(8)
    } else {
        s
    }
}

/// Strips the fixed scheme prefix for display.
pub fn strip_scheme(s: &str) -> (r: String)
    ensures
        r@ == spec_strip_scheme(s@),
{
    let n = s.unicode_len();
    if n >= 8 {
        let head = s.substring_char(0, 8);
        if crate::tag::str_eq(head, "https://") {
            let rest = s.substring_char(8, n);
            proof {
                assert(s@.subrange(8, s@.len() as int) =~= s@.skip(8));
            }
            return String::from_str(rest);
        }
    }
    String::from_str(s)
}

/// Where a worker stands in its own control flow.
#[derive(Clone, Copy, Debug, PartialEq, Eq, Structural)]
pub enum WorkerPhase {
    /// Idle: about to poll the job queue.
    Fetching,
    /// A job is in flight: navigation and DOM enumeration are running.
    Navigating,
    /// Told to stop: the session close is in progress.
    Closing,
    /// Final: terminated after a graceful or forced shutdown.
    Done,
    /// Final: terminated by a structural failure; not respawned.
    Failed,
}

/// What the surrounding task must do next on the worker's behalf.
#[derive(Clone, Copy, Debug, PartialEq, Eq, Structural)]
pub enum WorkerCmd {
    /// Poll the job queue (and watch for the shutdown signal).
    Poll,
    /// Navigate the session to the current job and enumerate the DOM.
    Navigate,
    /// Close the session gracefully (racing a possible second signal).
    Close,
    /// Kill the driver subprocess.
    Kill,
}

/// Everything a navigation attempt can come back with.
#[derive(Debug)]
pub enum PageOutcome {
    /// Navigation failed (timeout, DNS, driver fault): the job is
    /// abandoned and the worker moves on.
    NavFailed,
    /// The root content element is missing: structural, the worker is
    /// finished for good.
    MissingRoot,
    /// The page's elements: each entry is the element's tag name, or
    /// `None` when the element left the DOM before its name was read.
    Elements(Vec<Option<String>>),
}

/// One crawler worker after successful initialization. The shared
/// aggregator is not owned here: every transition that feeds it takes
/// it as a parameter, exactly as the workers share one table behind a
/// lock.
#[derive(Debug)]
pub struct Crawler {
    pub port: u16,
    pub phase: WorkerPhase,
    /// The job in flight while `Navigating`.
    pub current: Option<Job>,
}

/// The recognized tags of a page's elements, in DOM order: unreadable
/// elements and unrecognized names fall away before the aggregator
/// sees anything.
pub open spec fn recognized_tags(names: Seq<Option<String>>) -> Seq<Tag>
    decreases names.len(),
{
    if names.len() == 0 {
        Seq::empty()
    } else {
        let prefix = recognized_tags(names.drop_last());
        match names.last() {
            None => prefix,
            Some(s) => match spec_tag_of(s@) {
                None => prefix,
                Some(t) => prefix.push(t),
            },
        }
    }
}

impl Crawler {
    /// The machine's invariant: a job is held exactly while one is in
    /// flight.
    pub open spec fn wf(&self) -> bool {
        self.phase is Navigating <==> self.current is Some
    }

    /// The report announcing a worker being brought up at `port`.
    /// Sending it must succeed: the observer is alive before any
    /// worker is spawned.
    pub fn initializing_report(port: u16) -> (r: CrawlerReport)
        ensures
            r.port == port,
            r.state is Initializing,
    {
        CrawlerReport { port, state: CrawlerState::Initializing }
    }

    /// The report for a worker whose initialization failed: it
    /// terminates without ever having run, and the failure is
    /// recoverable at pool level.
    pub fn init_failed_report(port: u16) -> (r: CrawlerReport)
        ensures
            r.port == port,
            r.state is Terminated,
    {
        CrawlerReport { port, state: CrawlerState::Terminated }
    }

    /// A freshly initialized worker: idle, ready to poll the queue.
    pub fn new(port: u16) -> (w: Crawler)
        ensures
            w.wf(),
            w.port == port,
            w.phase is Fetching,
            w.current is None,
    {
        Crawler { port, phase: WorkerPhase::Fetching, current: None }
    }

    /// The shutdown signal observed at the top of the crawl loop: the
    /// worker stops popping and starts closing its session. After the
    /// first signal a worker finishes at most the job already in
    /// flight; from here no further job is taken.
    pub fn on_shutdown(self) -> (r: (Crawler, CrawlerReport, WorkerCmd))
        requires
            self.wf(),
            self.phase is Fetching,
        ensures
            r.0.wf(),
            r.0.phase is Closing,
            r.0.port == self.port,
            r.1.port == self.port,
            r.1.state is ShuttingDown,
            r.2 is Close,
    {
        let Crawler { port, phase: _, current } = self;
        let w = Crawler { port, phase: WorkerPhase::Closing, current };
        let report = CrawlerReport { port, state: CrawlerState::ShuttingDown };
        (w, report, WorkerCmd::Close)
    }

    /// The queue's answer to a poll: a job moves the worker into the
    /// navigation, an empty queue sends it into shutdown - the queue
    /// is exhausted and will not refill.
    pub fn on_poll(self, job: Option<Job>) -> (r: (Crawler, CrawlerReport, WorkerCmd))
        requires
            self.wf(),
            self.phase is Fetching,
        ensures
            r.0.wf(),
            r.0.port == self.port,
            r.1.port == self.port,
            match job {
                Some(j) => {
                    &&& r.0.phase is Navigating
                    &&& r.0.current == Some(j)
                    &&& r.1.state matches CrawlerState::InProgress(u) && u@ == spec_strip_scheme(
                        j@,
                    )
                    &&& r.2 is Navigate
                },
                None => {
                    &&& r.0.phase is Closing
                    &&& r.0.current is None
                    &&& r.1.state is ShuttingDown
                    &&& r.2 is Close
                },
            },
    {
        let Crawler { port, phase: _, current: _ } = self;
        match job {
            Some(j) => {
                let shown = strip_scheme(j.url.as_str());
                let w = Crawler { port, phase: WorkerPhase::Navigating, current: Some(j) };
                let report = CrawlerReport { port, state: CrawlerState::InProgress(shown) };
                (w, report, WorkerCmd::Navigate)
            },
            None => {
                let w = Crawler { port, phase: WorkerPhase::Closing, current: None };
                let report = CrawlerReport { port, state: CrawlerState::ShuttingDown };
                (w, report, WorkerCmd::Close)
            },
        }
    }

    /// What navigation and DOM enumeration came back with. `freq` is
    /// the shared aggregator, held exclusively for the call.
    ///
    /// A failed navigation abandons the job and the worker moves on; a
    /// missing root element finishes the worker for good; a page's
    /// elements are folded into the shared aggregator one by one, in
    /// order, counting exactly the recognized tags.
    pub fn on_page(self, freq: &mut Freq, outcome: PageOutcome) -> (r: (
        Crawler,
        CrawlerReport,
        WorkerCmd,
    ))
        requires
            self.wf(),
            self.phase is Navigating,
            old(freq).wf(),
            outcome matches PageOutcome::Elements(names) ==> forall|i: int|
                0 <= i < TAG_COUNT ==> #[trigger] old(freq)@[i] + names@.len() <= u64::MAX,
        ensures
            r.0.wf(),
            r.0.port == self.port,
            final(freq).wf(),
            r.1.port == self.port,
            match outcome {
                PageOutcome::NavFailed => {
                    &&& r.0.phase is Fetching
                    &&& final(freq)@ == old(freq)@
                    &&& r.1.state is Complete
                    &&& r.2 is Poll
                },
                PageOutcome::MissingRoot => {
                    &&& r.0.phase is Failed
                    &&& final(freq)@ == old(freq)@
                    &&& r.1.state is Terminated
                    &&& r.2 is Kill
                },
                PageOutcome::Elements(names) => {
                    &&& r.0.phase is Fetching
                    &&& as_ints(final(freq)@) =~= counts_after(
                        as_ints(old(freq)@),
                        recognized_tags(names@),
                    )
                    &&& r.1.state is Complete
                    &&& r.2 is Poll
                },
            },
    {
        let Crawler { port, phase: _, current: _ } = self;
        match outcome {
            PageOutcome::NavFailed => {
                let w = Crawler { port, phase: WorkerPhase::Fetching, current: None };
                let report = CrawlerReport { port, state: CrawlerState::Complete };
                (w, report, WorkerCmd::Poll)
            },
            PageOutcome::MissingRoot => {
                let w = Crawler { port, phase: WorkerPhase::Failed, current: None };
                let report = CrawlerReport { port, state: CrawlerState::Terminated };
                (w, report, WorkerCmd::Kill)
            },
            PageOutcome::Elements(names) => {
                accept_page(freq, &names);
                let w = Crawler { port, phase: WorkerPhase::Fetching, current: None };
                let report = CrawlerReport { port, state: CrawlerState::Complete };
                (w, report, WorkerCmd::Poll)
            },
        }
    }

    /// The graceful close finished before any further signal: kill the
    /// driver and report the worker gone.
    pub fn on_close_done(self) -> (r: (Crawler, CrawlerReport, WorkerCmd))
        requires
            self.wf(),
            self.phase is Closing,
        ensures
            r.0.wf(),
            r.0.phase is Done,
            r.0.port == self.port,
            r.1.port == self.port,
            r.1.state is Terminated,
            r.2 is Kill,
    {
        let Crawler { port, phase: _, current } = self;
        let w = Crawler { port, phase: WorkerPhase::Done, current };
        let report = CrawlerReport { port, state: CrawlerState::Terminated };
        (w, report, WorkerCmd::Kill)
    }

    /// A second signal arrived while the session was still closing:
    /// the close is abandoned in favor of an immediate kill. The
    /// worker ends exactly as a graceful close does - one Terminated
    /// report, one kill - only sooner.
    pub fn on_forced_shutdown(self) -> (r: (Crawler, CrawlerReport, WorkerCmd))
        requires
            self.wf(),
            self.phase is Closing,
        ensures
            r.0.wf(),
            r.0.phase is Done,
            r.0.port == self.port,
            r.1.port == self.port,
            r.1.state is Terminated,
            r.2 is Kill,
    {
        let Crawler { port, phase: _, current } = self;
        let w = Crawler { port, phase: WorkerPhase::Done, current };
        let report = CrawlerReport { port, state: CrawlerState::Terminated };
        (w, report, WorkerCmd::Kill)
    }
}

/// Folds a page's elements into the aggregator, in order: the table
/// afterwards is exactly the table before with every recognized tag's
/// counter raised by its number of occurrences on the page.
pub fn accept_page(freq: &mut Freq, names: &Vec<Option<String>>)
    requires
        old(freq).wf(),
        forall|i: int| 0 <= i < TAG_COUNT ==> #[trigger] old(freq)@[i] + names@.len() <= u64::MAX,
    ensures
        final(freq).wf(),
        as_ints(final(freq)@) =~= counts_after(as_ints(old(freq)@), recognized_tags(names@)),
{
    let ghost init = as_ints(old(freq)@);
    let n = names.len();
    let mut k: usize = 0;
    while k < n
        invariant
            k <= n == names@.len(),
            freq.wf(),
            init == as_ints(old(freq)@),
            init.len() == TAG_COUNT,
            as_ints(freq@) =~= counts_after(init, recognized_tags(names@.take(k as int))),
            forall|i: int| 0 <= i < TAG_COUNT ==> #[trigger] freq@[i] <= old(freq)@[i] + k,
            forall|i: int| 0 <= i < TAG_COUNT ==> #[trigger] old(freq)@[i] + n <= u64::MAX,
        decreases n - k,
    {
        let name: Option<&str> = match &names[k] {
            Some(s) => Some(s.as_str()),
            None => None,
        };
        freq.accept(name);
        proof {
            assert(names@.take(k + 1).drop_last() =~= names@.take(k as int));
            assert(names@.take(k + 1).last() == names@[k as int]);
            let rec_now = recognized_tags(names@.take(k + 1));
            let rec_prev = recognized_tags(names@.take(k as int));
            match names@[k as int] {
                None => {
                    assert(rec_now == rec_prev);
                },
                Some(s) => {
                    match spec_tag_of(s@) {
                        None => {
                            assert(rec_now == rec_prev);
                        },
                        Some(t) => {
                            assert(rec_now == rec_prev.push(t));
                            assert(rec_now.drop_last() =~= rec_prev);
                            assert(rec_now.last() == t);
                            assert(as_ints(freq@) =~= counts_after(init, rec_now));
                        },
                    }
                },
            }
        }
        k = k + 1;
    }
    proof {
        assert(names@.take(n as int) =~= names@);
    }
}

} // verus!
