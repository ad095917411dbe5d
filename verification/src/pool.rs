//! A bounded pool: hands out the tasks `0..total` in order and never lets
//! more than `cap` of them run at once.
//!
//! The pool only counts. Whoever drives it starts a task when `try_start`
//! names one, and tells the pool with `finish` when a task has ended.

use vstd::prelude::*;

verus! {

/// How many pages of one chapter are worked on at once.
pub const CONCURRENT_FRAMES: usize = 30;

/// How many chapters of one batch are worked on at once.
pub const CONCURRENT_CHAPTERS: usize = 100;

/// The counters of a pool, as plain numbers.
pub struct PoolCounts {
    pub cap: nat,
    pub total: nat,
    pub started: nat,
    pub finished: nat,
}

/// What may happen to a pool.
pub enum PoolEvent {
    /// The driver asks for a task to start.
    Start,
    /// The driver reports that a running task has ended.
    Finish,
}

impl PoolCounts {
    /// The number of tasks that have started and not yet ended.
    pub open spec fn in_flight(self) -> int {
        self.started - self.finished
    }

    /// The counts of a pool that has not started anything.
    pub open spec fn fresh(cap: nat, total: nat) -> PoolCounts {
        PoolCounts { cap: if cap == 0 { 1 } else { cap }, total, started: 0, finished: 0 }
    }

    /// The counters are consistent and the bound holds.
    pub open spec fn wf(self) -> bool {
        &&& self.cap >= 1
        &&& self.finished <= self.started <= self.total
        &&& self.in_flight() <= self.cap
    }

    /// Whether a task may start now: one is left, and the bound leaves room.
    pub open spec fn can_start(self) -> bool {
        self.started < self.total && self.in_flight() < self.cap
    }

    /// The counts after one event. A start without room and a finish without
    /// a running task change nothing.
    pub open spec fn step(self, event: PoolEvent) -> PoolCounts {
        match event {
            PoolEvent::Start => if self.can_start() {
                PoolCounts { started: self.started + 1, ..self }
            } else {
                self
            },
            PoolEvent::Finish => if self.finished < self.started {
                PoolCounts { finished: self.finished + 1, ..self }
            } else {
                self
            },
        }
    }

    /// The counts after a run of events, taken in order.
    pub open spec fn run(self, events: Seq<PoolEvent>) -> PoolCounts
        decreases events.len(),
    {
        if events.len() == 0 {
            self
        } else {
            self.run(events.drop_last()).step(events.last())
        }
    }
}

/// A bounded pool over the tasks `0..total`.
pub struct Pool {
    cap: usize,
    total: usize,
    started: usize,
    finished: usize,
}

impl View for Pool {
    type V = PoolCounts;

    closed spec fn view(&self) -> PoolCounts {
        PoolCounts {
            cap: self.cap as nat,
            total: self.total as nat,
            started: self.started as nat,
            finished: self.finished as nat,
        }
    }
}

impl Pool {
    /// The invariant of a pool: that of its counts.
    pub open spec fn wf(&self) -> bool {
        self@.wf()
    }

    /// A pool for `total` tasks of which at most `cap` run at once. A cap of
    /// zero would let nothing ever run and is raised to one.
    pub fn new(cap: usize, total: usize) -> (pool: Pool)
        ensures
            pool.wf(),
            pool@ == PoolCounts::fresh(cap as nat, total as nat),
    {
        Pool { cap: if cap == 0 { 1 } else { cap }, total, started: 0, finished: 0 }
    }

    /// The bound on tasks that run at once.
    pub fn cap(&self) -> (cap: usize)
        ensures
            cap == self@.cap,
    {
        self.cap
    }

    /// The number of tasks that run now.
    pub fn in_flight(&self) -> (n: usize)
        requires
            self.wf(),
        ensures
            n == self@.in_flight(),
            n <= self@.cap,
    {
        self.started - self.finished
    }

    /// Whether every task has started and ended.
    pub fn is_drained(&self) -> (drained: bool)
        ensures
            drained == (self@.finished == self@.total),
    {
        self.finished == self.total
    }

    /// Starts the next task if one is left and fewer than `cap` are running,
    /// and names it; else changes nothing.
    pub fn try_start(&mut self) -> (task: Option<usize>)
        requires
            old(self).wf(),
        ensures
            final(self).wf(),
            final(self)@ == old(self)@.step(PoolEvent::Start),
            task is Some <==> old(self)@.can_start(),
            task matches Some(t) ==> t == old(self)@.started,
            final(self)@.in_flight() <= final(self)@.cap,
    {
        if self.started < self.total && self.started - self.finished < self.cap {
            let task = self.started;
            self.started = self.started + 1;
            Some(task)
        } else {
            None
        }
    }

    /// Records that one running task has ended. Tells whether one was running.
    pub fn finish(&mut self) -> (was_running: bool)
        requires
            old(self).wf(),
        ensures
            final(self).wf(),
            final(self)@ == old(self)@.step(PoolEvent::Finish),
            was_running == (old(self)@.in_flight() > 0),
    {
        if self.finished < self.started {
            self.finished = self.finished + 1;
            true
        } else {
            false
        }
    }
}

/// One event keeps the counters consistent and within the bound.
pub proof fn lemma_step_keeps_bound(counts: PoolCounts, event: PoolEvent)
    requires
        counts.wf(),
    ensures
        counts.step(event).wf(),
        counts.step(event).cap == counts.cap,
        counts.step(event).total == counts.total,
{
}

/// Whatever the order in which tasks are asked for and end, a pool never has
/// more than `cap` tasks running: the bound holds after every run of events
/// from a fresh pool.
pub proof fn lemma_never_above_cap(cap: nat, total: nat, events: Seq<PoolEvent>)
    ensures
        PoolCounts::fresh(cap, total).run(events).wf(),
        PoolCounts::fresh(cap, total).run(events).in_flight() <= PoolCounts::fresh(cap, total).cap,
        cap >= 1 ==> PoolCounts::fresh(cap, total).run(events).in_flight() <= cap,
    decreases events.len(),
{
    let fresh = PoolCounts::fresh(cap, total);
    if events.len() > 0 {
        lemma_never_above_cap(cap, total, events.drop_last());
        lemma_step_keeps_bound(fresh.run(events.drop_last()), events.last());
        lemma_run_keeps_cap(fresh, events.drop_last());
    }
    lemma_run_keeps_cap(fresh, events);
}

/// A run of events changes neither the bound nor the number of tasks.
pub proof fn lemma_run_keeps_cap(counts: PoolCounts, events: Seq<PoolEvent>)
    ensures
        counts.run(events).cap == counts.cap,
        counts.run(events).total == counts.total,
    decreases events.len(),
{
    if events.len() > 0 {
        lemma_run_keeps_cap(counts, events.drop_last());
    }
}

/// With every chapter of a batch at its own bound, the pages in flight over
/// the whole batch stay within the product of the two bounds.
pub proof fn lemma_nested_bound(chapters: Seq<PoolCounts>, outer_cap: nat, inner_cap: nat)
    requires
        chapters.len() <= outer_cap,
        forall|i: int| 0 <= i < chapters.len() ==> (#[trigger] chapters[i]).in_flight() <= inner_cap,
    ensures
        total_in_flight(chapters) <= outer_cap * inner_cap,
    decreases chapters.len(),
{
    if chapters.len() > 0 {
        lemma_nested_bound(chapters.drop_last(), (outer_cap - 1) as nat, inner_cap);
        assert(total_in_flight(chapters) <= (outer_cap - 1) * inner_cap + inner_cap);
        assert((outer_cap - 1) * inner_cap + inner_cap == outer_cap * inner_cap) by (nonlinear_arith);
    } else {
        assert(0 <= outer_cap * inner_cap) by (nonlinear_arith);
    }
}

/// The tasks in flight over several pools, added up.
pub open spec fn total_in_flight(pools: Seq<PoolCounts>) -> int
    decreases pools.len(),
{
    if pools.len() == 0 {
        0
    } else {
        total_in_flight(pools.drop_last()) + pools.last().in_flight()
    }
}

} // verus!
