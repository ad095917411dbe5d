//! A batch of chapter downloads, as a state machine.
//!
//! The batch starts the chapters in the order asked for, at most a fixed
//! number at once, and notes how each one ended. The chapters do not depend
//! on each other: how one ends changes nothing for any other.

use crate::download::ChapterError;
use crate::pool::{Pool, PoolCounts, PoolEvent, CONCURRENT_CHAPTERS};
use vstd::prelude::*;

verus! {

/// Where one chapter of a batch stands.
#[derive(Clone, Copy, Debug, PartialEq, Eq, Structural)]
pub enum ChapterSlot {
    /// Not started yet.
    Waiting,
    /// Its download is under way.
    Running,
    /// Its archive is written.
    Archived,
    /// Its download failed.
    Failed(ChapterError),
}

/// What the driver of a batch has to do next.
#[derive(Clone, Copy, Debug, PartialEq, Eq, Structural)]
pub enum BatchAction {
    /// Start the download of this chapter and report how it ended.
    Start(usize),
    /// Nothing can start now: wait for a download under way to end.
    Wait,
    /// Every chapter has ended.
    Finished,
}

impl ChapterSlot {
    /// Whether the chapter has ended, well or not.
    pub open spec fn has_ended(self) -> bool {
        self == ChapterSlot::Archived || self is Failed
    }

    /// The slot of a chapter that ended with the given outcome.
    pub open spec fn ended_with(outcome: Result<(), ChapterError>) -> ChapterSlot {
        match outcome {
            Ok(_) => ChapterSlot::Archived,
            Err(error) => ChapterSlot::Failed(error),
        }
    }
}

/// How many of the chapters have ended.
pub open spec fn ended_count(slots: Seq<ChapterSlot>) -> nat
    decreases slots.len(),
{
    if slots.len() == 0 {
        0
    } else {
        ended_count(slots.drop_last()) + if slots.last().has_ended() {
            1nat
        } else {
            0nat
        }
    }
}

/// How many of the chapters are being downloaded.
pub open spec fn running_count(slots: Seq<ChapterSlot>) -> nat
    decreases slots.len(),
{
    if slots.len() == 0 {
        0
    } else {
        running_count(slots.drop_last()) + if slots.last() == ChapterSlot::Running {
            1nat
        } else {
            0nat
        }
    }
}

/// A batch, as plain values.
pub struct BatchView {
    pub slots: Seq<ChapterSlot>,
    pub pool: PoolCounts,
}

impl BatchView {
    /// The invariant of a batch.
    pub open spec fn wf(self) -> bool {
        &&& self.pool.wf()
        &&& self.slots.len() == self.pool.total
        &&& forall|i: int|
            0 <= i < self.slots.len() ==> (#[trigger] self.slots[i] == ChapterSlot::Waiting) == (i
                >= self.pool.started)
        &&& ended_count(self.slots) == self.pool.finished
    }

    /// Whether every chapter has ended.
    pub open spec fn all_ended(self) -> bool {
        forall|i: int| 0 <= i < self.slots.len() ==> (#[trigger] self.slots[i]).has_ended()
    }

    /// What the driver has to do next, and the batch after the order was
    /// given: the next chapter that has not started, if the bound leaves
    /// room; else to wait, if a download is under way; else nothing more.
    pub open spec fn next(self) -> (BatchView, BatchAction) {
        if self.pool.can_start() {
            let i = self.pool.started as int;
            (
                BatchView {
                    slots: self.slots.update(i, ChapterSlot::Running),
                    pool: self.pool.step(PoolEvent::Start),
                },
                BatchAction::Start(i as usize),
            )
        } else if self.pool.in_flight() > 0 {
            (self, BatchAction::Wait)
        } else {
            (self, BatchAction::Finished)
        }
    }

    /// Whether a report on chapter `index` fits: its download is under way.
    pub open spec fn is_running(self, index: usize) -> bool {
        index < self.slots.len() && self.slots[index as int] == ChapterSlot::Running
    }

    /// The batch after the end of chapter `index` was reported. A report on
    /// a chapter that is not being downloaded changes nothing.
    pub open spec fn after_end(self, index: usize, outcome: Result<(), ChapterError>) -> BatchView {
        if self.is_running(index) {
            BatchView {
                slots: self.slots.update(index as int, ChapterSlot::ended_with(outcome)),
                pool: self.pool.step(PoolEvent::Finish),
            }
        } else {
            self
        }
    }
}

/// Changing the slot of one chapter changes the counts by that chapter alone.
pub proof fn lemma_slot_update(slots: Seq<ChapterSlot>, i: int, slot: ChapterSlot)
    requires
        0 <= i < slots.len(),
    ensures
        ended_count(slots.update(i, slot)) == ended_count(slots) - (if slots[i].has_ended() {
            1int
        } else {
            0int
        }) + (if slot.has_ended() {
            1int
        } else {
            0int
        }),
        running_count(slots.update(i, slot)) == running_count(slots) - (if slots[i]
            == ChapterSlot::Running {
            1int
        } else {
            0int
        }) + (if slot == ChapterSlot::Running {
            1int
        } else {
            0int
        }),
    decreases slots.len(),
{
    let after = slots.update(i, slot);
    if i == slots.len() - 1 {
        assert(after.drop_last() =~= slots.drop_last());
    } else {
        lemma_slot_update(slots.drop_last(), i, slot);
        assert(after.drop_last() =~= slots.drop_last().update(i, slot));
    }
}

/// Where the chapters from `started` on wait and no other does, those that
/// have ended and those being downloaded are together the `started` first;
/// and where as many have ended as there are, every one has.
pub proof fn lemma_slots_add_up(slots: Seq<ChapterSlot>, started: int)
    requires
        0 <= started <= slots.len(),
        forall|i: int|
            0 <= i < slots.len() ==> (#[trigger] slots[i] == ChapterSlot::Waiting) == (i
                >= started),
    ensures
        ended_count(slots) + running_count(slots) == started,
        ended_count(slots) == slots.len() ==> forall|i: int|
            0 <= i < slots.len() ==> (#[trigger] slots[i]).has_ended(),
    decreases slots.len(),
{
    if slots.len() > 0 {
        let rest = slots.drop_last();
        let last = slots.len() - 1;
        assert(forall|i: int| 0 <= i < rest.len() ==> rest[i] == slots[i]);
        if started <= last {
            lemma_slots_add_up(rest, started);
            assert(slots[last] == ChapterSlot::Waiting);
        } else {
            lemma_slots_add_up(rest, started - 1);
            assert(slots[last] != ChapterSlot::Waiting);
        }
    }
}

/// While a batch runs, no more of its chapters are downloaded at once than
/// its bound allows: the chapters under way are exactly those that the pool
/// counts as running.
pub proof fn lemma_chapters_in_flight_bounded(view: BatchView)
    requires
        view.wf(),
    ensures
        running_count(view.slots) == view.pool.in_flight(),
        running_count(view.slots) <= view.pool.cap,
{
    lemma_slots_add_up(view.slots, view.pool.started as int);
}

/// The chapters of a batch do not depend on each other. How a chapter ends
/// changes the slot of no other chapter, and it does not change what is
/// started next: after the failure of a chapter the batch goes on exactly as
/// after its success.
pub proof fn lemma_chapters_independent(
    view: BatchView,
    index: usize,
    outcome: Result<(), ChapterError>,
    other: Result<(), ChapterError>,
)
    requires
        view.wf(),
    ensures
        forall|j: int|
            0 <= j < view.slots.len() && j != index ==> #[trigger] view.after_end(
                index,
                outcome,
            ).slots[j] == view.slots[j],
        view.after_end(index, outcome).pool == view.after_end(index, other).pool,
        view.after_end(index, outcome).next().1 == view.after_end(index, other).next().1,
        view.is_running(index) ==> view.after_end(index, outcome).slots[index as int]
            == ChapterSlot::ended_with(outcome),
{
}

/// A batch is finished only when every chapter has ended.
pub proof fn lemma_batch_waits_for_chapters(view: BatchView)
    requires
        view.wf(),
    ensures
        view.next().1 == BatchAction::Finished ==> view.all_ended(),
        running_count(view.slots) > 0 ==> view.next().1 != BatchAction::Finished,
{
    lemma_slots_add_up(view.slots, view.pool.started as int);
}

/// A batch of chapter downloads.
pub struct Batch {
    slots: Vec<ChapterSlot>,
    pool: Pool,
}

impl View for Batch {
    type V = BatchView;

    closed spec fn view(&self) -> BatchView {
        BatchView { slots: self.slots@, pool: self.pool@ }
    }
}

proof fn lemma_none_ended(slots: Seq<ChapterSlot>)
    requires
        forall|i: int| 0 <= i < slots.len() ==> !(#[trigger] slots[i]).has_ended(),
    ensures
        ended_count(slots) == 0,
    decreases slots.len(),
{
    if slots.len() > 0 {
        let rest = slots.drop_last();
        assert(forall|i: int| 0 <= i < rest.len() ==> rest[i] == slots[i]);
        lemma_none_ended(rest);
    }
}

impl Batch {
    /// The invariant of a batch: that of its view.
    pub open spec fn wf(&self) -> bool {
        self@.wf()
    }

    /// A batch of `count` chapters, of which at most `CONCURRENT_CHAPTERS`
    /// are downloaded at once.
    pub fn new(count: usize) -> (batch: Batch)
        ensures
            batch.wf(),
            batch@.pool == PoolCounts::fresh(CONCURRENT_CHAPTERS as nat, count as nat),
            batch@.slots == Seq::new(count as nat, |i: int| ChapterSlot::Waiting),
    {
        Batch::with_cap(count, CONCURRENT_CHAPTERS)
    }

    /// A batch of `count` chapters, of which at most `cap` are downloaded at
    /// once. A cap of zero is raised to one.
    pub fn with_cap(count: usize, cap: usize) -> (batch: Batch)
        ensures
            batch.wf(),
            batch@.pool == PoolCounts::fresh(cap as nat, count as nat),
            batch@.slots == Seq::new(count as nat, |i: int| ChapterSlot::Waiting),
    {
        let mut slots: Vec<ChapterSlot> = Vec::new();
        let mut i: usize = 0;
        while i < count
            invariant
                i <= count,
                slots@.len() == i,
                forall|k: int| 0 <= k < i ==> #[trigger] slots@[k] == ChapterSlot::Waiting,
            decreases count - i,
        {
            slots.push(ChapterSlot::Waiting);
            i += 1;
        }
        proof {
            lemma_none_ended(slots@);
            assert(slots@ =~= Seq::new(count as nat, |i: int| ChapterSlot::Waiting));
        }
        Batch { slots, pool: Pool::new(cap, count) }
    }

    /// The number of chapters of the batch.
    pub fn len(&self) -> (count: usize)
        ensures
            count == self@.slots.len(),
    {
        self.slots.len()
    }

    /// Where chapter `index` stands.
    pub fn slot(&self, index: usize) -> (slot: Option<ChapterSlot>)
        ensures
            slot == (if index < self@.slots.len() {
                Some(self@.slots[index as int])
            } else {
                None
            }),
    {
        if index < self.slots.len() {
            Some(self.slots[index])
        } else {
            None
        }
    }

    /// The number of chapters that are being downloaded right now.
    pub fn in_flight(&self) -> (count: usize)
        requires
            self.wf(),
        ensures
            count == running_count(self@.slots),
            count <= self@.pool.cap,
    {
        proof {
            lemma_chapters_in_flight_bounded(self@);
        }
        self.pool.in_flight()
    }

    /// What the driver has to do next.
    pub fn next_action(&mut self) -> (action: BatchAction)
        requires
            old(self).wf(),
        ensures
            final(self).wf(),
            (final(self)@, action) == old(self)@.next(),
    {
        match self.pool.try_start() {
            Some(index) => {
                proof {
                    lemma_slot_update(self.slots@, index as int, ChapterSlot::Running);
                }
                self.slots.set(index, ChapterSlot::Running);
                BatchAction::Start(index)
            },
            None => {
                if self.pool.in_flight() > 0 {
                    BatchAction::Wait
                } else {
                    BatchAction::Finished
                }
            },
        }
    }

    /// Takes the report on how the download of chapter `index` ended. Tells
    /// whether the report fitted.
    pub fn chapter_ended(&mut self, index: usize, outcome: Result<(), ChapterError>) -> (fitted:
        bool)
        requires
            old(self).wf(),
        ensures
            final(self).wf(),
            final(self)@ == old(self)@.after_end(index, outcome),
            fitted == old(self)@.is_running(index),
    {
        if index >= self.slots.len() {
            return false;
        }
        if self.slots[index] != ChapterSlot::Running {
            return false;
        }
        let slot = match outcome {
            Ok(_) => ChapterSlot::Archived,
            Err(error) => ChapterSlot::Failed(error),
        };
        proof {
            lemma_slot_update(self.slots@, index as int, slot);
            lemma_chapters_in_flight_bounded(self@);
        }
        self.slots.set(index, slot);
        self.pool.finish();
        true
    }
}

} // verus!
