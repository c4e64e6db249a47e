//! The bounded FIFO job queue shared between the source reader and the
//! crawler workers.
//!
//! The capacity is fixed at construction. Jobs exit in the order they
//! entered, and a popped job is gone: no job entry is ever handed to
//! two consumers. Blocking (a full push or an empty pop suspending the
//! caller) is scheduling and lives with the async runtime outside this
//! crate; the contracts here pin down what every push and pop does to
//! the queue's contents.

use vstd::prelude::*;

use crate::assigner::Job;

verus! {

/// A bounded FIFO of crawl jobs. The front of the sequence is the
/// oldest job, the next to leave.
#[derive(Debug)]
pub struct JobQueue {
    pub items: Vec<Job>,
    pub capacity: usize,
}

impl View for JobQueue {
    type V = Seq<Seq<char>>;

    open spec fn view(&self) -> Seq<Seq<char>> {
        self.items@.map_values(|j: Job| j@)
    }
}

impl JobQueue {
    /// The queue never holds more than its fixed capacity.
    pub open spec fn wf(&self) -> bool {
        self@.len() <= self.capacity
    }

    pub open spec fn spec_capacity(&self) -> int {
        self.capacity as int
    }

    /// An empty queue of the given capacity.
    pub fn new(capacity: usize) -> (q: JobQueue)
        requires
            capacity >= 1,
        ensures
            q.wf(),
            q@ =~= Seq::<Seq<char>>::empty(),
            q.spec_capacity() == capacity,
    {
        JobQueue { items: Vec::new(), capacity }
    }

    /// How many jobs are waiting.
    pub fn len(&self) -> (n: usize)
        ensures
            n == self@.len(),
    {
        self.items.len()
    }

    /// The fixed capacity.
    pub fn capacity(&self) -> (n: usize)
        ensures
            n == self.spec_capacity(),
    {
        self.capacity
    }

    /// How many more jobs fit.
    pub fn remaining_capacity(&self) -> (n: usize)
        requires
            self.wf(),
        ensures
            n == self.spec_capacity() - self@.len(),
    {
        self.capacity - self.items.len()
    }

    /// Appends a job at the back. The caller must have room; a full
    /// queue suspends the producer instead, outside this crate.
    pub fn push(&mut self, job: Job)
        requires
            old(self).wf(),
            old(self)@.len() < old(self).spec_capacity(),
        ensures
            final(self).wf(),
            final(self)@ =~= old(self)@.push(job@),
            final(self).spec_capacity() == old(self).spec_capacity(),
    {
        self.items.push(job);
    }

    /// Removes and returns the oldest job, or nothing when the queue
    /// is empty - the non-blocking pop.
    pub fn try_pop(&mut self) -> (r: Option<Job>)
        requires
            old(self).wf(),
        ensures
            final(self).wf(),
            final(self).spec_capacity() == old(self).spec_capacity(),
            match r {
                None => old(self)@.len() == 0 && final(self)@ =~= old(self)@,
                Some(j) => old(self)@.len() > 0 && j@ == old(self)@[0] && final(self)@
                    =~= old(self)@.drop_first(),
            },
    {
        if self.items.len() == 0 {
            None
        } else {
            let j = self.items.remove(0);
            Some(j)
        }
    }

    /// Pops every waiting job without further waiting: the result is
    /// exactly the queued jobs in FIFO order, each delivered once, and
    /// the queue is left empty.
    pub fn drain(&mut self) -> (r: Vec<Job>)
        requires
            old(self).wf(),
        ensures
            final(self).wf(),
            final(self)@.len() == 0,
            final(self).spec_capacity() == old(self).spec_capacity(),
            r@.map_values(|j: Job| j@) =~= old(self)@,
    {
        let mut out: Vec<Job> = Vec::new();
        loop
            invariant
                self.wf(),
                self.spec_capacity() == old(self).spec_capacity(),
                out@.map_values(|j: Job| j@) + self@ =~= old(self)@,
            ensures
                self@.len() == 0,
                out@.map_values(|j: Job| j@) =~= old(self)@,
                self.wf(),
                self.spec_capacity() == old(self).spec_capacity(),
            decreases self@.len(),
        {
            match self.try_pop() {
                None => {
                    break ;
                },
                Some(j) => {
                    out.push(j);
                },
            }
        }
        out
    }

    /// Enqueues a batch of jobs in order: the queue receives exactly
    /// those jobs, behind what it already held.
    pub fn enqueue_all(&mut self, jobs: Vec<Job>)
        requires
            old(self).wf(),
            old(self)@.len() + jobs@.len() <= old(self).spec_capacity(),
        ensures
            final(self).wf(),
            final(self).spec_capacity() == old(self).spec_capacity(),
            final(self)@ =~= old(self)@ + jobs@.map_values(|j: Job| j@),
    {
        let n = jobs.len();
        let mut jobs = jobs;
        let ghost jobs0 = jobs@;
        let mut i: usize = 0;
        while i < n
            invariant
                i <= n == jobs0.len(),
                jobs@ =~= jobs0.skip(i as int),
                self.wf(),
                self.spec_capacity() == old(self).spec_capacity(),
                self@.len() == old(self)@.len() + i,
                old(self)@.len() + n <= old(self).spec_capacity(),
                self@ =~= old(self)@ + jobs0.take(i as int).map_values(|j: Job| j@),
            decreases n - i,
        {
            let j = jobs.remove(0);
            proof {
                assert(jobs0.skip(i as int)[0] == jobs0[i as int]);
                assert(jobs0.skip(i as int).subrange(1, jobs0.skip(i as int).len() as int)
                    =~= jobs0.skip(i + 1));
                assert(jobs0.take(i + 1).drop_last() =~= jobs0.take(i as int));
                assert(jobs0.take(i + 1).map_values(|jb: Job| jb@) =~= jobs0.take(
                    i as int,
                ).map_values(|jb: Job| jb@).push(jobs0[i as int]@));
            }
            self.push(j);
            i = i + 1;
        }
        proof {
            assert(jobs0.take(n as int) =~= jobs0);
        }
    }
}

/// After any number of pops the delivered jobs and the jobs still
/// queued partition the original contents: what one pop handed out is
/// gone from the queue, so no job entry reaches two workers.
pub proof fn lemma_delivery_partition(jobs: Seq<Seq<char>>, k: int)
    requires
        0 <= k <= jobs.len(),
    ensures
        jobs.take(k) + jobs.skip(k) =~= jobs,
        jobs.take(k).len() + jobs.skip(k).len() == jobs.len(),
{
}

} // verus!
