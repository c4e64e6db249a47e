//! The status observer's model: what the dashboard knows and how it
//! folds incoming reports, kept apart from any rendering.
//!
//! Terminal handling, layout and drawing live outside this crate; the
//! observer's bookkeeping - the progress count, the table of live
//! workers, the sorted histogram snapshot, and the reaction to key
//! presses - is decided and verified here.

use std::collections::BTreeMap;

use vstd::multiset::Multiset;
use vstd::prelude::*;

use crate::crawler::{CrawlerReport, CrawlerState};
use crate::state::spec_tag_at;
use crate::tag::{Tag, TAG_COUNT};

verus! {

/// Where the observer stands in the shutdown dialogue with the user.
#[derive(Clone, Copy, Debug, PartialEq, Eq, Structural)]
pub enum AppState {
    /// The pool is working.
    Running,
    /// The user asked for a stop; a second ask forces it.
    ShuttingDown,
    /// The pool is gone; waiting for the user to leave.
    Done,
}

/// A key press, reduced to what the observer reacts to.
#[derive(Clone, Copy, Debug, PartialEq, Eq, Structural)]
pub enum UiEvent {
    /// Ctrl-C: ask for shutdown (again).
    Interrupt,
    /// Enter: leave, once everything is done.
    Confirm,
    /// Anything else.
    Other,
}

/// The dashboard's state: the sorted histogram snapshot, the progress
/// counters, and one row per live worker - its spinner position and
/// last reported state, keyed by its port.
#[derive(Debug)]
pub struct App {
    pub freq: Vec<(Tag, u64)>,
    pub state: AppState,
    pub crawled_sites: usize,
    pub total_sites: usize,
    pub crawlers: BTreeMap<u16, (u8, CrawlerState)>,
}

impl App {
    /// A fresh observer expecting `total_sites` jobs.
    pub fn new(total_sites: usize) -> (a: App)
        ensures
            a.freq@.len() == 0,
            a.state is Running,
            a.crawled_sites == 0,
            a.total_sites == total_sites,
            a.crawlers@ == Map::<u16, (u8, CrawlerState)>::empty(),
    {
        App {
            freq: Vec::new(),
            state: AppState::Running,
            crawled_sites: 0,
            total_sites,
            crawlers: BTreeMap::new(),
        }
    }

    /// Reacts to a key press. The result says whether to exit the
    /// dashboard and whether to send a shutdown signal: Ctrl-C always
    /// signals (a second press escalates to a forced stop), Enter
    /// exits once everything is done.
    pub fn on_event(&mut self, ev: UiEvent) -> (r: (bool, bool))
        ensures
            match ev {
                UiEvent::Interrupt => {
                    &&& final(self).state is ShuttingDown
                    &&& r == (false, true)
                },
                UiEvent::Confirm => {
                    &&& final(self).state == old(self).state
                    &&& r == ((old(self).state is Done), false)
                },
                UiEvent::Other => {
                    &&& final(self).state == old(self).state
                    &&& r == (false, false)
                },
            },
            final(self).freq == old(self).freq,
            final(self).crawled_sites == old(self).crawled_sites,
            final(self).total_sites == old(self).total_sites,
            final(self).crawlers == old(self).crawlers,
    {
        match ev {
            UiEvent::Interrupt => {
                self.state = AppState::ShuttingDown;
                (false, true)
            },
            UiEvent::Confirm => {
                let exit = match self.state {
                    AppState::Done => true,
                    _ => false,
                };
                (exit, false)
            },
            UiEvent::Other => (false, false),
        }
    }

    /// Folds one worker report into the dashboard: a completed job
    /// advances the progress count, a terminated worker drops off the
    /// board, and any other state replaces the worker's row (with its
    /// spinner rewound).
    pub fn apply_report(&mut self, report: CrawlerReport)
        requires
            old(self).crawled_sites < usize::MAX,
        ensures
            final(self).freq == old(self).freq,
            final(self).state == old(self).state,
            final(self).total_sites == old(self).total_sites,
            match report.state {
                CrawlerState::Complete => {
                    &&& final(self).crawled_sites == old(self).crawled_sites + 1
                    &&& final(self).crawlers@ == old(self).crawlers@
                },
                CrawlerState::Terminated => {
                    &&& final(self).crawled_sites == old(self).crawled_sites
                    &&& final(self).crawlers@ == old(self).crawlers@.remove(report.port)
                },
                _ => {
                    &&& final(self).crawled_sites == old(self).crawled_sites
                    &&& final(self).crawlers@ == old(self).crawlers@.insert(
                        report.port,
                        (0u8, report.state),
                    )
                },
            },
    {
        match report.state {
            CrawlerState::Complete => {
                self.crawled_sites = self.crawled_sites + 1;
            },
            CrawlerState::Terminated => {
                self.crawlers.remove(&report.port);
            },
            state => {
                self.crawlers.insert(report.port, (0, state));
            },
        }
    }

    /// Replaces the histogram snapshot with a freshly sorted view of
    /// the aggregator's counters.
    pub fn refresh_freq(&mut self, counts: &Vec<u64>)
        requires
            counts@.len() == TAG_COUNT,
        ensures
            final(self).freq@.to_multiset() == table_pairs(counts@).to_multiset(),
            sorted_desc(final(self).freq@),
            final(self).state == old(self).state,
            final(self).crawled_sites == old(self).crawled_sites,
            final(self).total_sites == old(self).total_sites,
            final(self).crawlers == old(self).crawlers,
    {
        self.freq = sorted_snapshot(counts);
    }
}

/// The counter table as (tag, count) pairs, slot by slot.
pub open spec fn table_pairs(counts: Seq<u64>) -> Seq<(Tag, u64)> {
    Seq::new(counts.len(), |i: int| (spec_tag_at(i), counts[i]))
}

/// Descending by count: what the histogram displays.
pub open spec fn sorted_desc(s: Seq<(Tag, u64)>) -> bool {
    forall|i: int, j: int| 0 <= i <= j < s.len() ==> (#[trigger] s[i]).1 >= (#[trigger] s[j]).1
}

/// Index of a pair with the largest count.
fn max_count_index(v: &Vec<(Tag, u64)>) -> (m: usize)
    requires
        v@.len() > 0,
    ensures
        m < v@.len(),
        forall|i: int| 0 <= i < v@.len() ==> (#[trigger] v@[i]).1 <= v@[m as int].1,
{
    let mut m: usize = 0;
    let mut i: usize = 1;
    while i < v.len()
        invariant
            m < i <= v@.len(),
            forall|j: int| 0 <= j < i ==> (#[trigger] v@[j]).1 <= v@[m as int].1,
        decreases v@.len() - i,
    {
        if v[i].1 > v[m].1 {
            m = i;
        }
        i = i + 1;
    }
    m
}

/// A consistent snapshot of the counter table, sorted by count in
/// descending order: exactly the table's (tag, count) pairs, largest
/// first, ready for the histogram.
pub fn sorted_snapshot(counts: &Vec<u64>) -> (r: Vec<(Tag, u64)>)
    requires
        counts@.len() == TAG_COUNT,
    ensures
        r@.to_multiset() == table_pairs(counts@).to_multiset(),
        sorted_desc(r@),
{
    broadcast use vstd::seq_lib::group_to_multiset_ensures;

    let mut src: Vec<(Tag, u64)> = Vec::new();
    let mut slot: usize = 0;
    while slot < TAG_COUNT
        invariant
            slot <= TAG_COUNT == counts@.len(),
            src@.len() == slot,
            forall|i: int| 0 <= i < slot ==> src@[i] == (#[trigger] table_pairs(counts@)[i]),
        decreases TAG_COUNT - slot,
    {
        let t = match Tag::from_index(slot) {
            Some(t) => t,
            None => {
                proof {
                    assert(false);
                }
                Tag::Div
            },
        };
        proof {
            crate::state::lemma_tag_at_index(slot as int);
            crate::tag::lemma_tag_index_injective(t, spec_tag_at(slot as int));
        }
        src.push((t, counts[slot]));
        slot = slot + 1;
    }
    proof {
        assert(src@ =~= table_pairs(counts@));
    }
    let ghost all = src@.to_multiset();

    let mut out: Vec<(Tag, u64)> = Vec::new();
    while src.len() > 0
        invariant
            out@.to_multiset().add(src@.to_multiset()) == all,
            sorted_desc(out@),
            forall|i: int, j: int|
                0 <= i < out@.len() && 0 <= j < src@.len() ==> (#[trigger] out@[i]).1
                    >= (#[trigger] src@[j]).1,
        decreases src@.len(),
    {
        let m = max_count_index(&src);
        let ghost src_before = src@;
        let e = src.remove(m);
        proof {
            broadcast use vstd::seq_lib::group_to_multiset_ensures;

            assert(src_before.remove(m as int).to_multiset() == src_before.to_multiset().remove(
                src_before[m as int],
            ));
            assert(src@.to_multiset() == src_before.to_multiset().remove(src_before[m as int]));
            assert(out@.push(e).to_multiset() == out@.to_multiset().insert(e));
            assert(out@.to_multiset().insert(e).add(src@.to_multiset()) =~= all);
            assert(forall|j: int|
                0 <= j < src@.len() ==> (#[trigger] src@[j]).1 <= e.1) by {
                assert(forall|j: int|
                    0 <= j < src@.len() ==> src@[j] == src_before.remove(m as int)[j]);
            }
        }
        out.push(e);
    }
    proof {
        assert(src@.to_multiset() =~= Multiset::<(Tag, u64)>::empty());
        assert(out@.to_multiset() =~= all);
    }
    out
}

} // verus!
