//! The life of one page of a chapter download.
//!
//! A page waits, is attempted, and then is either delivered, retried or given
//! up: `Pending -> Attempted -> {Delivered | Retrying -> Pending |
//! PermanentlyFailed}`. A retry costs one of a fixed number of retries and
//! asks for a fresh session first; a page with none left is given up.

use crate::telemetry::FetchOutcome;
use vstd::prelude::*;

verus! {

/// How often a page is retried before it is given up.
pub const MAX_FRAME_RETRIES: u32 = 5;

/// Where a page stands.
#[derive(Clone, Copy, Debug, PartialEq, Eq, Structural)]
pub enum PagePhase {
    /// Waiting to be fetched.
    Pending,
    /// A fetch is under way.
    Attempted,
    /// The last fetch failed; a fresh session has been asked for.
    Retrying,
    /// Fetched. This is final.
    Delivered,
    /// Given up. This is final.
    PermanentlyFailed,
}

/// A page's phase and the retries it has left.
#[derive(Clone, Copy, Debug, PartialEq, Eq, Structural)]
pub struct PageState {
    pub phase: PagePhase,
    pub retries_remaining: u32,
}

/// One page of a chapter download: which page it is, the file it is fetched
/// from right now, and the retries it has left. The index is fixed for the
/// life of the download; the source file may change with every retry.
#[derive(Debug)]
pub struct PageTask {
    pub index: usize,
    pub source_filename: String,
    pub retries_remaining: u32,
}

/// What happens to a page.
#[derive(Clone, Copy, Debug, PartialEq, Eq, Structural)]
pub enum PageEvent {
    /// The page is handed to the fetcher.
    Dispatch,
    /// The fetch has ended.
    Outcome(FetchOutcome),
    /// The session asked for has come, or not. `usable` tells whether a
    /// session came that still has this page.
    Refreshed { usable: bool },
}

/// What the driver has to do after an event.
#[derive(Clone, Copy, Debug, PartialEq, Eq, Structural)]
pub enum PageAction {
    /// Nothing.
    Nothing,
    /// Fetch the page.
    Fetch,
    /// Ask for a fresh session of the chapter.
    ResolveSession,
}

impl PageState {
    /// The state in which every page starts.
    pub open spec fn initial() -> PageState {
        PageState { phase: PagePhase::Pending, retries_remaining: MAX_FRAME_RETRIES }
    }

    /// Whether the page has reached its end, one way or the other.
    pub open spec fn is_settled(self) -> bool {
        self.phase == PagePhase::Delivered || self.phase == PagePhase::PermanentlyFailed
    }

    /// Whether work on the page is under way: a fetch, or the request for a
    /// fresh session before the next one.
    pub open spec fn is_active(self) -> bool {
        self.phase == PagePhase::Attempted || self.phase == PagePhase::Retrying
    }

    /// The state after an event, and what the driver has to do. An event that
    /// does not fit the phase changes nothing.
    pub open spec fn step(self, event: PageEvent) -> (PageState, PageAction) {
        match (self.phase, event) {
            (PagePhase::Pending, PageEvent::Dispatch) => (
                PageState { phase: PagePhase::Attempted, ..self },
                PageAction::Fetch,
            ),
            (PagePhase::Attempted, PageEvent::Outcome(FetchOutcome::Delivered(_))) => (
                PageState { phase: PagePhase::Delivered, ..self },
                PageAction::Nothing,
            ),
            (PagePhase::Attempted, PageEvent::Outcome(_)) => if self.retries_remaining > 0 {
                (
                    PageState {
                        phase: PagePhase::Retrying,
                        retries_remaining: (self.retries_remaining - 1) as u32,
                    },
                    PageAction::ResolveSession,
                )
            } else {
                (PageState { phase: PagePhase::PermanentlyFailed, ..self }, PageAction::Nothing)
            },
            (PagePhase::Retrying, PageEvent::Refreshed { usable }) => if usable {
                (PageState { phase: PagePhase::Pending, ..self }, PageAction::Nothing)
            } else {
                (PageState { phase: PagePhase::PermanentlyFailed, ..self }, PageAction::Nothing)
            },
            _ => (self, PageAction::Nothing),
        }
    }

    /// The state after a run of events, taken in order.
    pub open spec fn run(self, events: Seq<PageEvent>) -> PageState
        decreases events.len(),
    {
        if events.len() == 0 {
            self
        } else {
            self.run(events.drop_last()).step(events.last()).0
        }
    }

    /// How many fresh sessions the driver was told to ask for over a run of
    /// events.
    pub open spec fn resolutions(self, events: Seq<PageEvent>) -> nat
        decreases events.len(),
    {
        if events.len() == 0 {
            0
        } else {
            let before = self.run(events.drop_last());
            self.resolutions(events.drop_last()) + if before.step(events.last()).1
                == PageAction::ResolveSession {
                1nat
            } else {
                0nat
            }
        }
    }

    /// Takes one event: the new state, and what the driver has to do.
    pub fn advance(self, event: PageEvent) -> (next: (PageState, PageAction))
        ensures
            next == self.step(event),
    {
        match self.phase {
            PagePhase::Pending => match event {
                PageEvent::Dispatch => (
                    PageState {
                        phase: PagePhase::Attempted,
                        retries_remaining: self.retries_remaining,
                    },
                    PageAction::Fetch,
                ),
                _ => (self, PageAction::Nothing),
            },
            PagePhase::Attempted => match event {
                PageEvent::Outcome(FetchOutcome::Delivered(_)) => (
                    PageState {
                        phase: PagePhase::Delivered,
                        retries_remaining: self.retries_remaining,
                    },
                    PageAction::Nothing,
                ),
                PageEvent::Outcome(_) => {
                    if self.retries_remaining > 0 {
                        (
                            PageState {
                                phase: PagePhase::Retrying,
                                retries_remaining: self.retries_remaining - 1,
                            },
                            PageAction::ResolveSession,
                        )
                    } else {
                        (
                            PageState {
                                phase: PagePhase::PermanentlyFailed,
                                retries_remaining: self.retries_remaining,
                            },
                            PageAction::Nothing,
                        )
                    }
                },
                _ => (self, PageAction::Nothing),
            },
            PagePhase::Retrying => match event {
                PageEvent::Refreshed { usable } => {
                    if usable {
                        (
                            PageState {
                                phase: PagePhase::Pending,
                                retries_remaining: self.retries_remaining,
                            },
                            PageAction::Nothing,
                        )
                    } else {
                        (
                            PageState {
                                phase: PagePhase::PermanentlyFailed,
                                retries_remaining: self.retries_remaining,
                            },
                            PageAction::Nothing,
                        )
                    }
                },
                _ => (self, PageAction::Nothing),
            },
            _ => (self, PageAction::Nothing),
        }
    }

    /// A page in its first state.
    pub fn new() -> (state: PageState)
        ensures
            state == PageState::initial(),
    {
        PageState { phase: PagePhase::Pending, retries_remaining: MAX_FRAME_RETRIES }
    }
}

/// A settled page stays as it is, whatever comes.
pub proof fn lemma_settled_is_final(state: PageState, events: Seq<PageEvent>)
    requires
        state.is_settled(),
    ensures
        state.run(events) == state,
        state.resolutions(events) == 0,
    decreases events.len(),
{
    if events.len() > 0 {
        lemma_settled_is_final(state, events.drop_last());
    }
}

/// Retries are only ever used up: no event gives one back.
pub proof fn lemma_retries_never_grow(state: PageState, events: Seq<PageEvent>)
    ensures
        state.run(events).retries_remaining <= state.retries_remaining,
    decreases events.len(),
{
    if events.len() > 0 {
        lemma_retries_never_grow(state, events.drop_last());
    }
}

/// One fresh session is asked for per retry, and no other: over any run of
/// events, the sessions asked for are as many as the retries used up, so
/// never more than the retries a page starts with.
pub proof fn lemma_one_resolution_per_retry(state: PageState, events: Seq<PageEvent>)
    ensures
        state.resolutions(events) + state.run(events).retries_remaining
            == state.retries_remaining,
        state.resolutions(events) <= state.retries_remaining,
    decreases events.len(),
{
    if events.len() > 0 {
        lemma_one_resolution_per_retry(state, events.drop_last());
    }
}

/// Whether an event is the end of a fetch that delivered the page.
pub open spec fn is_delivery(event: PageEvent) -> bool {
    event matches PageEvent::Outcome(FetchOutcome::Delivered(_))
}

/// Whether an event is the end of a fetch that failed.
pub open spec fn is_failure(event: PageEvent) -> bool {
    event matches PageEvent::Outcome(o) && !(o matches FetchOutcome::Delivered(_))
}

/// A page is delivered only by a fetch that delivered it. It is given up only
/// by a failed fetch with no retry left, or where the fresh session did not
/// come.
pub proof fn lemma_how_pages_end(state: PageState, event: PageEvent)
    requires
        !state.is_settled(),
    ensures
        state.step(event).0.phase == PagePhase::Delivered <==> state.phase == PagePhase::Attempted
            && is_delivery(event),
        state.step(event).0.phase == PagePhase::PermanentlyFailed <==> {
            ||| state.phase == PagePhase::Attempted && state.retries_remaining == 0 && is_failure(
                event,
            )
            ||| state.phase == PagePhase::Retrying && event == (PageEvent::Refreshed {
                usable: false,
            })
        },
{
}

/// The events of a page that is fetched, fails with each of the given
/// outcomes in turn, gets a fresh session after each failure, and is fetched
/// again: a first dispatch, then per failure the outcome, the session, and
/// the next dispatch.
pub open spec fn retry_rounds(failures: Seq<FetchOutcome>) -> Seq<PageEvent>
    decreases failures.len(),
{
    if failures.len() == 0 {
        seq![PageEvent::Dispatch]
    } else {
        retry_rounds(failures.drop_last()).push(PageEvent::Outcome(failures.last())).push(
            PageEvent::Refreshed { usable: true },
        ).push(PageEvent::Dispatch)
    }
}

/// Whether none of the outcomes is a delivery.
pub open spec fn all_failures(outcomes: Seq<FetchOutcome>) -> bool {
    forall|i: int| 0 <= i < outcomes.len() ==> !(#[trigger] outcomes[i] is Delivered)
}

/// A page whose fetches fail while it has retries left, and whose sessions
/// keep coming, is fetched again each time: after as many failed rounds as
/// there are failures, no more than the retries it started with, it is under
/// fetch once more, and has used up one retry and one session per failure.
pub proof fn lemma_failed_rounds(failures: Seq<FetchOutcome>)
    requires
        all_failures(failures),
        failures.len() <= MAX_FRAME_RETRIES,
    ensures
        PageState::initial().run(retry_rounds(failures)).phase == PagePhase::Attempted,
        PageState::initial().run(retry_rounds(failures)).retries_remaining == MAX_FRAME_RETRIES
            - failures.len(),
        PageState::initial().resolutions(retry_rounds(failures)) == failures.len(),
    decreases failures.len(),
{
    let start = PageState::initial();
    let events = retry_rounds(failures);
    if failures.len() == 0 {
        assert(events.drop_last() =~= Seq::<PageEvent>::empty());
        assert(start.run(events.drop_last()) == start);
        assert(start.run(events) == start.step(PageEvent::Dispatch).0);
    } else {
        let before = retry_rounds(failures.drop_last());
        assert(all_failures(failures.drop_last())) by {
            assert forall|i: int| 0 <= i < failures.drop_last().len() implies !(
            #[trigger] failures.drop_last()[i] is Delivered) by {
                assert(failures.drop_last()[i] == failures[i]);
            }
        }
        lemma_failed_rounds(failures.drop_last());
        let e1 = before.push(PageEvent::Outcome(failures.last()));
        let e2 = e1.push(PageEvent::Refreshed { usable: true });
        assert(e1.drop_last() =~= before);
        assert(e2.drop_last() =~= e1);
        assert(events.drop_last() =~= e2);
        assert(!(failures[failures.len() - 1] is Delivered));
        assert(start.run(e1) == start.run(before).step(e1.last()).0);
        assert(start.run(e2) == start.run(e1).step(e2.last()).0);
        assert(start.run(events) == start.run(e2).step(events.last()).0);
    }
    lemma_one_resolution_per_retry(start, events);
}

/// A page that fails no more often than it has retries, and is then
/// delivered, ends delivered, with exactly one fresh session asked for per
/// failure.
pub proof fn lemma_delivered_after_failures(failures: Seq<FetchOutcome>, index: usize)
    requires
        all_failures(failures),
        failures.len() <= MAX_FRAME_RETRIES,
    ensures
        ({
            let events = retry_rounds(failures).push(
                PageEvent::Outcome(FetchOutcome::Delivered(index)),
            );
            &&& PageState::initial().run(events).phase == PagePhase::Delivered
            &&& PageState::initial().resolutions(events) == failures.len()
        }),
{
    let start = PageState::initial();
    let rounds = retry_rounds(failures);
    let events = rounds.push(PageEvent::Outcome(FetchOutcome::Delivered(index)));
    lemma_failed_rounds(failures);
    assert(events.drop_last() =~= rounds);
    assert(start.run(events) == start.run(rounds).step(events.last()).0);
    lemma_one_resolution_per_retry(start, events);
}

/// A page that has failed as often as it has retries is given up by its
/// next failure, after exactly as many fresh sessions as it had retries.
pub proof fn lemma_given_up_after_all_retries(failures: Seq<FetchOutcome>, last: FetchOutcome)
    requires
        all_failures(failures),
        failures.len() == MAX_FRAME_RETRIES,
        !(last is Delivered),
    ensures
        ({
            let events = retry_rounds(failures).push(PageEvent::Outcome(last));
            &&& PageState::initial().run(events).phase == PagePhase::PermanentlyFailed
            &&& PageState::initial().resolutions(events) == MAX_FRAME_RETRIES
        }),
{
    let start = PageState::initial();
    let rounds = retry_rounds(failures);
    let events = rounds.push(PageEvent::Outcome(last));
    lemma_failed_rounds(failures);
    assert(events.drop_last() =~= rounds);
    assert(start.run(events) == start.run(rounds).step(events.last()).0);
    lemma_one_resolution_per_retry(start, events);
}

} // verus!
