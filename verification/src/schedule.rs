//! The concurrency coordinator: a permit pool of fixed capacity and the
//! barrier over all fetch tasks, as a state machine. The caller performs the
//! fetches and reports each terminal outcome back.

use crate::fetch::FetchOutcome;
use vstd::prelude::*;

verus! {

/// The coordinator's state as numbers: the capacity of the permit pool, the
/// number of tasks, how many were taken up, how many hold a permit, and how
/// many ended in each way.
pub struct Progress {
    pub jobs: nat,
    pub total: nat,
    pub started: nat,
    pub in_flight: nat,
    pub succeeded: nat,
    pub skipped: nat,
    pub failed: nat,
}

/// One thing that can happen to the coordinator.
pub enum Move {
    /// The next task takes a permit and starts its fetch.
    Start,
    /// The next task ends as skipped, without a permit.
    Skip,
    /// A task that holds a permit ends and gives the permit back.
    Complete(FetchOutcome),
}

impl Progress {
    /// The state before any task was taken up.
    pub open spec fn initial(total: nat, jobs: nat) -> Progress {
        Progress { jobs, total, started: 0, in_flight: 0, succeeded: 0, skipped: 0, failed: 0 }
    }

    /// How many tasks have reached a terminal outcome.
    pub open spec fn finished(self) -> nat {
        self.succeeded + self.skipped + self.failed
    }

    /// Never more permits out than the pool holds, and every task that was
    /// taken up either holds a permit or has ended.
    pub open spec fn wf(self) -> bool {
        &&& self.jobs >= 1
        &&& self.started <= self.total
        &&& self.in_flight <= self.jobs
        &&& self.finished() + self.in_flight == self.started
    }

    /// Whether a task is left that was not taken up yet.
    pub open spec fn has_next(self) -> bool {
        self.started < self.total
    }

    /// Whether the next task can take a permit now.
    pub open spec fn can_start(self) -> bool {
        self.has_next() && self.in_flight < self.jobs
    }

    /// Whether every task has reached a terminal outcome.
    pub open spec fn done(self) -> bool {
        self.finished() == self.total
    }

    /// The state after the next task took a permit, if it can.
    pub open spec fn start(self) -> Progress {
        if self.can_start() {
            Progress { started: self.started + 1, in_flight: self.in_flight + 1, ..self }
        } else {
            self
        }
    }

    /// The state after the next task was skipped, if there is one.
    pub open spec fn skip(self) -> Progress {
        if self.has_next() {
            Progress { started: self.started + 1, skipped: self.skipped + 1, ..self }
        } else {
            self
        }
    }

    /// The state after a task in flight ended with `outcome`, if one is in
    /// flight.
    pub open spec fn complete(self, outcome: FetchOutcome) -> Progress {
        if self.in_flight == 0 {
            self
        } else {
            let released = Progress { in_flight: (self.in_flight - 1) as nat, ..self };
            match outcome {
                FetchOutcome::Success => Progress { succeeded: self.succeeded + 1, ..released },
                FetchOutcome::Skipped => Progress { skipped: self.skipped + 1, ..released },
                FetchOutcome::Failed(_) => Progress { failed: self.failed + 1, ..released },
            }
        }
    }

    /// The state after one move.
    pub open spec fn apply(self, m: Move) -> Progress {
        match m {
            Move::Start => self.start(),
            Move::Skip => self.skip(),
            Move::Complete(outcome) => self.complete(outcome),
        }
    }

    /// The state after a sequence of moves.
    pub open spec fn after(self, moves: Seq<Move>) -> Progress
        decreases moves.len(),
    {
        if moves.len() == 0 {
            self
        } else {
            self.after(moves.drop_last()).apply(moves.last())
        }
    }
}

/// Whatever happens and in whatever order, the number of tasks in flight
/// never exceeds the job count, not even by one.
pub proof fn lemma_never_over_capacity(total: nat, jobs: nat, moves: Seq<Move>)
    requires
        jobs >= 1,
    ensures
        Progress::initial(total, jobs).after(moves).wf(),
        Progress::initial(total, jobs).after(moves).in_flight <= jobs,
        Progress::initial(total, jobs).after(moves).jobs == jobs,
        Progress::initial(total, jobs).after(moves).total == total,
    decreases moves.len(),
{
    if moves.len() > 0 {
        lemma_never_over_capacity(total, jobs, moves.drop_last());
    }
}

/// A task that fails frees its permit and counts as ended exactly as one
/// that succeeds: what is left to start, what is in flight and how many have
/// ended do not depend on the outcome.
pub proof fn lemma_failure_is_isolated(p: Progress, a: FetchOutcome, b: FetchOutcome)
    requires
        p.wf(),
    ensures
        p.complete(a).started == p.complete(b).started,
        p.complete(a).in_flight == p.complete(b).in_flight,
        p.complete(a).finished() == p.complete(b).finished(),
        p.complete(a).can_start() == p.complete(b).can_start(),
        p.complete(a).done() == p.complete(b).done(),
{
}

/// The run cannot get stuck short of the barrier: while a task has not
/// ended, either one is in flight and will report back, or the next one can
/// take a permit. At the barrier nothing is in flight and nothing is left.
pub proof fn lemma_barrier(p: Progress)
    requires
        p.wf(),
    ensures
        !p.done() ==> p.in_flight > 0 || p.can_start(),
        p.done() <==> p.in_flight == 0 && !p.has_next(),
{
}

/// The coordinator of one run of the fetch stage.
#[derive(Debug)]
pub struct Coordinator {
    jobs: usize,
    total: usize,
    started: usize,
    in_flight: usize,
    succeeded: usize,
    skipped: usize,
    failed: usize,
}

impl View for Coordinator {
    type V = Progress;

    closed spec fn view(&self) -> Progress {
        Progress {
            jobs: self.jobs as nat,
            total: self.total as nat,
            started: self.started as nat,
            in_flight: self.in_flight as nat,
            succeeded: self.succeeded as nat,
            skipped: self.skipped as nat,
            failed: self.failed as nat,
        }
    }
}

impl Coordinator {
    /// A coordinator for `total` tasks and a pool of `jobs` permits. There is
    /// none for an empty pool.
    pub fn new(total: usize, jobs: usize) -> (r: Option<Coordinator>)
        ensures
            match r {
                Some(c) => jobs >= 1 && c@ == Progress::initial(total as nat, jobs as nat)
                    && c@.wf(),
                None => jobs == 0,
            },
    {
        if jobs == 0 {
            None
        } else {
            Some(
                Coordinator {
                    jobs,
                    total,
                    started: 0,
                    in_flight: 0,
                    succeeded: 0,
                    skipped: 0,
                    failed: 0,
                },
            )
        }
    }

    /// The index of the next task to take up, in submission order.
    pub fn next_index(&self) -> (r: Option<usize>)
        ensures
            match r {
                Some(index) => self@.has_next() && index == self@.started,
                None => !self@.has_next(),
            },
    {
        if self.started < self.total {
            Some(self.started)
        } else {
            None
        }
    }

    /// Whether the next task can take a permit now.
    pub fn can_start(&self) -> (r: bool)
        ensures
            r == self@.can_start(),
    {
        self.started < self.total && self.in_flight < self.jobs
    }

    /// Gives the next task a permit. Returns whether it did; if not, nothing
    /// has changed.
    pub fn start(&mut self) -> (r: bool)
        requires
            old(self)@.wf(),
        ensures
            r == old(self)@.can_start(),
            final(self)@ == old(self)@.start(),
            final(self)@.wf(),
    {
        if self.started < self.total && self.in_flight < self.jobs {
            self.started += 1;
            self.in_flight += 1;
            true
        } else {
            false
        }
    }

    /// Records the next task as skipped; it takes no permit. Returns whether
    /// there was a next task; if not, nothing has changed.
    pub fn skip(&mut self) -> (r: bool)
        requires
            old(self)@.wf(),
        ensures
            r == old(self)@.has_next(),
            final(self)@ == old(self)@.skip(),
            final(self)@.wf(),
    {
        if self.started < self.total {
            self.started += 1;
            self.skipped += 1;
            true
        } else {
            false
        }
    }

    /// Records that a task in flight ended with `outcome` and takes its
    /// permit back. Returns whether a task was in flight; if not, nothing has
    /// changed.
    pub fn complete(&mut self, outcome: FetchOutcome) -> (r: bool)
        requires
            old(self)@.wf(),
        ensures
            r == (old(self)@.in_flight > 0),
            final(self)@ == old(self)@.complete(outcome),
            final(self)@.wf(),
    {
        if self.in_flight == 0 {
            return false;
        }
        self.in_flight -= 1;
        match outcome {
            FetchOutcome::Success => {
                self.succeeded += 1;
            },
            FetchOutcome::Skipped => {
                self.skipped += 1;
            },
            FetchOutcome::Failed(_) => {
                self.failed += 1;
            },
        }
        true
    }

    /// Whether every task has reached a terminal outcome.
    pub fn is_done(&self) -> (r: bool)
        requires
            self@.wf(),
        ensures
            r == self@.done(),
    {
        self.started == self.total && self.in_flight == 0
    }

    /// How many tasks hold a permit.
    pub fn in_flight(&self) -> (r: usize)
        ensures
            r == self@.in_flight,
    {
        self.in_flight
    }

    /// The capacity of the permit pool.
    pub fn jobs(&self) -> (r: usize)
        ensures
            r == self@.jobs,
    {
        self.jobs
    }

    /// How many tasks ended in success.
    pub fn succeeded(&self) -> (r: usize)
        ensures
            r == self@.succeeded,
    {
        self.succeeded
    }

    /// How many tasks were skipped.
    pub fn skipped(&self) -> (r: usize)
        ensures
            r == self@.skipped,
    {
        self.skipped
    }

    /// How many tasks failed.
    pub fn failed(&self) -> (r: usize)
        ensures
            r == self@.failed,
    {
        self.failed
    }
}

} // verus!
