//! The shared frequency aggregator and the per-worker page state.
//!
//! The aggregator is a fixed-size counter table keyed by the closed
//! [`Tag`](crate::tag::Tag) set, mutated only through [`Freq::bump`].
//! Outside this crate the table sits behind a reader/writer lock; the
//! locking is plumbing, while the counting rules live here.

use vstd::multiset::Multiset;
use vstd::prelude::*;

use crate::tag::{spec_tag_index, spec_tag_of, Tag, TAG_COUNT};

verus! {

/// The per-tag counter table, paired with a best-effort dirty flag.
///
/// Every increment sets the flag; nothing here clears it. The flag is
/// a liveness hint for a polling consumer deciding whether to recompute
/// a derived view, never a correctness signal: reads of the table
/// itself are always consistent.
#[derive(Debug)]
pub struct Freq {
    pub counts: Vec<u64>,
    pub dirty: bool,
}

impl View for Freq {
    type V = Seq<u64>;

    open spec fn view(&self) -> Seq<u64> {
        self.counts@
    }
}

impl Freq {
    /// The table always has one slot per recognized tag.
    pub open spec fn wf(&self) -> bool {
        self.counts@.len() == TAG_COUNT
    }

    /// A fresh table: every counter zero, flag clean.
    pub fn new() -> (f: Freq)
        ensures
            f.wf(),
            f@ =~= Seq::new(TAG_COUNT as nat, |i: int| 0u64),
            !f.dirty,
    {
        let mut counts: Vec<u64> = Vec::new();
        let mut i: usize = 0;
        while i < TAG_COUNT
            invariant
                i <= TAG_COUNT,
                counts@.len() == i,
                forall|j: int| 0 <= j < i ==> counts@[j] == 0u64,
            decreases TAG_COUNT - i,
        {
            counts.push(0);
            i = i + 1;
        }
        Freq { counts, dirty: false }
    }

    /// Shared read access to a consistent view of all counters.
    pub fn get(&self) -> (v: &Vec<u64>)
        ensures
            v@ == self@,
    {
        &self.counts
    }

    /// Whether some increment has happened since construction.
    pub fn is_dirty(&self) -> (b: bool)
        ensures
            b == self.dirty,
    {
        self.dirty
    }

    /// Sets the dirty flag without touching the counters.
    pub fn mark_dirty(&mut self)
        ensures
            final(self)@ == old(self)@,
            final(self).dirty,
    {
        self.dirty = true;
    }

    /// Increments the counter of `tag` by exactly one and sets the
    /// dirty flag; no other slot moves.
    pub fn bump(&mut self, tag: Tag)
        requires
            old(self).wf(),
            old(self)@[spec_tag_index(tag)] < u64::MAX,
        ensures
            final(self).wf(),
            final(self)@ =~= old(self)@.update(
                spec_tag_index(tag),
                (old(self)@[spec_tag_index(tag)] + 1) as u64,
            ),
            final(self).dirty,
    {
        let i = tag.index();
        let cur = self.counts[i];
        self.counts.set(i, cur + 1);
        self.mark_dirty();
    }

    /// Folds one DOM element into the table.
    ///
    /// `tag_name` is `None` when the element's name could not be read
    /// because the element already left the DOM - an expected race
    /// with client-side page mutation, silently skipped. An
    /// unrecognized name is likewise discarded. Only a recognized tag
    /// bumps its counter.
    pub fn accept(&mut self, tag_name: Option<&str>)
        requires
            old(self).wf(),
            forall|i: int| 0 <= i < TAG_COUNT ==> old(self)@[i] < u64::MAX,
        ensures
            final(self).wf(),
            match tag_name {
                None => final(self)@ == old(self)@ && final(self).dirty == old(self).dirty,
                Some(name) => match spec_tag_of(name@) {
                    None => final(self)@ == old(self)@ && final(self).dirty == old(self).dirty,
                    Some(t) => final(self)@ =~= old(self)@.update(
                        spec_tag_index(t),
                        (old(self)@[spec_tag_index(t)] + 1) as u64,
                    ) && final(self).dirty,
                },
            },
    {
        match tag_name {
            None => (),
            Some(name) => match Tag::from_name(name) {
                None => (),
                Some(t) => self.bump(t),
            },
        }
    }
}

impl Default for Freq {
    /// Same as [`Freq::new`].
    fn default() -> (f: Freq)
        ensures
            f.wf(),
            f@ =~= Seq::new(TAG_COUNT as nat, |i: int| 0u64),
            !f.dirty,
    {
        Freq::new()
    }
}

/// The output side shared by all workers: today only the aggregator.
#[derive(Debug)]
pub struct Output {
    pub freq: Freq,
}

impl Output {
    pub open spec fn wf(&self) -> bool {
        self.freq.wf()
    }
}

impl Default for Output {
    fn default() -> (o: Output)
        ensures
            o.wf(),
            o.freq@ =~= Seq::new(TAG_COUNT as nat, |i: int| 0u64),
            !o.freq.dirty,
    {
        Output { freq: Freq::default() }
    }
}

/// One worker's view of the world while it crawls: the shared output
/// plus the viewport dimensions recorded when its session was set up.
#[derive(Debug)]
pub struct State {
    pub output: Output,
    pub window_width: u64,
    pub window_height: u64,
}

impl State {
    pub open spec fn wf(&self) -> bool {
        self.output.wf()
    }

    /// Builds the state from the shared output and the session's
    /// viewport dimensions, which the browser session reports once at
    /// initialization.
    pub fn new(output: Output, window_width: u64, window_height: u64) -> (s: State)
        requires
            output.wf(),
        ensures
            s.wf(),
            s.output.freq@ == output.freq@,
            s.output.freq.dirty == output.freq.dirty,
            s.window_width == window_width,
            s.window_height == window_height,
    {
        State { output, window_width, window_height }
    }

    /// Folds one DOM element into the aggregator.
    ///
    /// `tag_name` is `None` when the element's name could not be read
    /// because the element already left the DOM - an expected race with
    /// client-side page mutation, silently skipped. An unrecognized
    /// name is likewise discarded. Only a recognized tag bumps its
    /// counter.
    pub fn accept_node(self, tag_name: Option<&str>) -> (r: State)
        requires
            self.wf(),
            forall|i: int| 0 <= i < TAG_COUNT ==> self.output.freq@[i] < u64::MAX,
        ensures
            r.wf(),
            r.window_width == self.window_width,
            r.window_height == self.window_height,
            match tag_name {
                None => r.output.freq@ == self.output.freq@ && r.output.freq.dirty
                    == self.output.freq.dirty,
                Some(name) => match spec_tag_of(name@) {
                    None => r.output.freq@ == self.output.freq@ && r.output.freq.dirty
                        == self.output.freq.dirty,
                    Some(t) => r.output.freq@ =~= self.output.freq@.update(
                        spec_tag_index(t),
                        (self.output.freq@[spec_tag_index(t)] + 1) as u64,
                    ) && r.output.freq.dirty,
                },
            },
    {
        let mut s = self;
        s.output.freq.accept(tag_name);
        s
    }
}

/// How often a tag occurs in a sequence of processed elements.
pub open spec fn tag_occurrences(tags: Seq<Tag>, t: Tag) -> nat
    decreases tags.len(),
{
    if tags.len() == 0 {
        0
    } else {
        tag_occurrences(tags.drop_last(), t) + if tags.last() == t {
            1nat
        } else {
            0nat
        }
    }
}

/// The counter table after folding a sequence of recognized tags into
/// `init`, one increment each, in order.
pub open spec fn counts_after(init: Seq<int>, tags: Seq<Tag>) -> Seq<int>
    decreases tags.len(),
{
    if tags.len() == 0 {
        init
    } else {
        let prev = counts_after(init, tags.drop_last());
        prev.update(spec_tag_index(tags.last()), prev[spec_tag_index(tags.last())] + 1)
    }
}

/// A table's counters as unbounded integers.
pub open spec fn as_ints(s: Seq<u64>) -> Seq<int> {
    s.map_values(|x: u64| x as int)
}

/// Occurrence counting agrees with the multiset of the sequence, so it
/// ignores order entirely.
pub proof fn lemma_occurrences_is_multiset_count(tags: Seq<Tag>, t: Tag)
    ensures
        tag_occurrences(tags, t) == tags.to_multiset().count(t),
    decreases tags.len(),
{
    broadcast use vstd::seq_lib::group_to_multiset_ensures;

    if tags.len() == 0 {
        assert(tags.to_multiset() =~= Multiset::<Tag>::empty());
    } else {
        let prefix = tags.drop_last();
        lemma_occurrences_is_multiset_count(prefix, t);
        assert(tags =~= prefix.push(tags.last()));
        assert(tags.to_multiset() =~= prefix.push(tags.last()).to_multiset());
    }
}

/// The tag that owns slot `i` of the counter table.
pub open spec fn spec_tag_at(i: int) -> Tag {
    if i == 0 {
        Tag::Div
    } else if i == 1 {
        Tag::Span
    } else if i == 2 {
        Tag::P
    } else if i == 3 {
        Tag::A
    } else if i == 4 {
        Tag::Img
    } else if i == 5 {
        Tag::Ul
    } else if i == 6 {
        Tag::Li
    } else if i == 7 {
        Tag::Table
    } else if i == 8 {
        Tag::Script
    } else {
        Tag::Button
    }
}

/// Every slot below `TAG_COUNT` is owned by exactly the tag that
/// indexes to it.
pub proof fn lemma_tag_at_index(i: int)
    requires
        0 <= i < TAG_COUNT,
    ensures
        spec_tag_index(spec_tag_at(i)) == i,
{
}

/// Folding a tag sequence into a table adds, per tag, exactly its
/// number of occurrences - the aggregator's final per-tag count is the
/// total number of elements of that tag processed.
pub proof fn lemma_counts_after_occurrences(init: Seq<int>, tags: Seq<Tag>)
    requires
        init.len() == TAG_COUNT,
    ensures
        counts_after(init, tags).len() == init.len(),
        forall|t: Tag| #[trigger]
            counts_after(init, tags)[spec_tag_index(t)] == init[spec_tag_index(t)]
                + tag_occurrences(tags, t),
    decreases tags.len(),
{
    if tags.len() > 0 {
        let prefix = tags.drop_last();
        let last = tags.last();
        lemma_counts_after_occurrences(init, prefix);
        let prev = counts_after(init, prefix);
        assert forall|t: Tag| #[trigger]
            counts_after(init, tags)[spec_tag_index(t)] == init[spec_tag_index(t)]
                + tag_occurrences(tags, t) by {
            crate::tag::lemma_tag_index_injective(t, last);
        }
    }
}

/// Two interleavings that process the same elements - the same
/// multiset of recognized tags - leave identical tables: increments
/// commute.
pub proof fn lemma_counts_after_interleaving(init: Seq<int>, tags1: Seq<Tag>, tags2: Seq<Tag>)
    requires
        init.len() == TAG_COUNT,
        tags1.to_multiset() == tags2.to_multiset(),
    ensures
        counts_after(init, tags1) =~= counts_after(init, tags2),
{
    lemma_counts_after_occurrences(init, tags1);
    lemma_counts_after_occurrences(init, tags2);
    assert forall|t: Tag| tag_occurrences(tags1, t) == tag_occurrences(tags2, t) by {
        lemma_occurrences_is_multiset_count(tags1, t);
        lemma_occurrences_is_multiset_count(tags2, t);
    }
    assert forall|i: int| 0 <= i < init.len() implies counts_after(init, tags1)[i] == counts_after(
        init,
        tags2,
    )[i] by {
        lemma_tag_at_index(i);
        let t = spec_tag_at(i);
        assert(counts_after(init, tags1)[spec_tag_index(t)] == init[spec_tag_index(t)]
            + tag_occurrences(tags1, t));
        assert(counts_after(init, tags2)[spec_tag_index(t)] == init[spec_tag_index(t)]
            + tag_occurrences(tags2, t));
    }
}

} // verus!
