//! The download of one chapter, as a state machine.
//!
//! The machine decides; its driver acts. The driver asks `next_action` what to
//! do, does it, and reports what came of it: the session, the working
//! directory, each fetch, each fresh session, the archive, the clean-up. The
//! machine keeps the pages' states, hands out at most a fixed number of pages
//! at once, gives no order to archive before every page is settled, and never
//! orders the working directory removed unless the archive was written.

use crate::archive::{archive_name, archive_name_of};
use crate::model::chapter::ChapterProps;
use crate::naming::{
    frame_name, get_frame_name, is_path_component, lemma_frame_names_distinct,
    lemma_frame_names_ordered, path_extension, sanitize_name, sanitized,
};
use crate::pool::{Pool, PoolCounts, PoolEvent, CONCURRENT_FRAMES};
use crate::retry::{PageAction, PageEvent, PagePhase, PageState, PageTask};
use crate::session::{
    at_home_url, at_home_url_of, frame_url_of, resolve_session, session_of, Session, SessionError,
    SessionReply,
};
use crate::telemetry::{attempt_outcome, outcome_of, Attempt};
use crate::text::{each_chars, lex_lt};
use vstd::prelude::*;

verus! {

/// Where the download of a chapter stands.
#[derive(Clone, Copy, Debug, PartialEq, Eq, Structural)]
pub enum ChapterPhase {
    /// The session has been asked for.
    Resolving,
    /// The session is there; the working directory is being made.
    CreatingDirectory,
    /// Pages are being fetched.
    Fetching,
    /// Every page is settled; the archive is being written.
    Archiving,
    /// The archive is written; the working directory is being removed.
    Cleaning,
    /// Done. This is final.
    Archived,
    /// Failed. This is final.
    Failed,
}

/// Why the download of a chapter failed.
#[derive(Clone, Copy, Debug, PartialEq, Eq, Structural)]
pub enum ChapterError {
    /// No session could be had before any page was started.
    Session(SessionError),
    /// The working directory could not be made or removed.
    Resource,
    /// The archive could not be written.
    Packaging,
}

/// The order to fetch one page.
pub struct FetchOrder {
    /// The page. It never changes between the first fetch and any retry.
    pub index: usize,
    /// Where to fetch it from.
    pub url: String,
    /// The file name under which to store it in the working directory.
    pub file_name: String,
}

/// What the driver has to do next.
pub enum ChapterAction {
    /// Ask for the session of the chapter and report it.
    ResolveSession { url: String },
    /// Make the working directory and report it.
    CreateDirectory { name: String },
    /// Fetch a page and report the attempt.
    Fetch(FetchOrder),
    /// Nothing can start now: wait for something under way to end.
    Wait,
    /// Pack the working directory into the archive and report it. `entries`
    /// names the pages that were delivered, in page order.
    Archive { directory: String, archive: String, entries: Vec<String> },
    /// Remove the working directory and report it.
    RemoveDirectory { name: String },
    /// The download has ended, well or not.
    Finished(Result<(), ChapterError>),
}

/// What came of a reported attempt.
pub enum PageVerdict {
    /// The report did not fit: no such page, or none that was under fetch.
    Ignored,
    /// The page is delivered: store it.
    Delivered,
    /// The page is to be fetched again: ask for a fresh session and report it.
    Retry { session_url: String },
    /// The page is given up.
    GaveUp,
}

/// A `FetchOrder` as plain values.
pub struct OrderView {
    pub index: int,
    pub url: Seq<char>,
    pub file_name: Seq<char>,
}

/// A `ChapterAction` as plain values.
pub enum ActionView {
    ResolveSession { url: Seq<char> },
    CreateDirectory { name: Seq<char> },
    Fetch(OrderView),
    Wait,
    Archive { directory: Seq<char>, archive: Seq<char>, entries: Seq<Seq<char>> },
    RemoveDirectory { name: Seq<char> },
    Finished(Result<(), ChapterError>),
}

/// A `PageVerdict` as plain values.
pub enum VerdictView {
    Ignored,
    Delivered,
    Retry { session_url: Seq<char> },
    GaveUp,
}

impl View for FetchOrder {
    type V = OrderView;

    open spec fn view(&self) -> OrderView {
        OrderView { index: self.index as int, url: self.url@, file_name: self.file_name@ }
    }
}

impl View for ChapterAction {
    type V = ActionView;

    open spec fn view(&self) -> ActionView {
        match self {
            ChapterAction::ResolveSession { url } => ActionView::ResolveSession { url: url@ },
            ChapterAction::CreateDirectory { name } => ActionView::CreateDirectory { name: name@ },
            ChapterAction::Fetch(order) => ActionView::Fetch(order@),
            ChapterAction::Wait => ActionView::Wait,
            ChapterAction::Archive { directory, archive, entries } => ActionView::Archive {
                directory: directory@,
                archive: archive@,
                entries: each_chars(entries@),
            },
            ChapterAction::RemoveDirectory { name } => ActionView::RemoveDirectory { name: name@ },
            ChapterAction::Finished(outcome) => ActionView::Finished(*outcome),
        }
    }
}

impl View for PageVerdict {
    type V = VerdictView;

    open spec fn view(&self) -> VerdictView {
        match self {
            PageVerdict::Ignored => VerdictView::Ignored,
            PageVerdict::Delivered => VerdictView::Delivered,
            PageVerdict::Retry { session_url } => VerdictView::Retry { session_url: session_url@ },
            PageVerdict::GaveUp => VerdictView::GaveUp,
        }
    }
}

/// The download of a chapter, as plain values.
pub struct ChapterView {
    pub id: Seq<char>,
    pub name: Seq<char>,
    /// The bound on pages at once, as it was asked for.
    pub cap: nat,
    pub phase: ChapterPhase,
    pub failure: Option<ChapterError>,
    pub states: Seq<PageState>,
    pub sources: Seq<Seq<char>>,
    pub urls: Seq<Seq<char>>,
    pub pool: PoolCounts,
}

/// How many of the pages are settled.
pub open spec fn settled_count(states: Seq<PageState>) -> nat
    decreases states.len(),
{
    if states.len() == 0 {
        0
    } else {
        settled_count(states.drop_last()) + if states.last().is_settled() {
            1nat
        } else {
            0nat
        }
    }
}

/// How many of the pages are being worked on.
pub open spec fn active_count(states: Seq<PageState>) -> nat
    decreases states.len(),
{
    if states.len() == 0 {
        0
    } else {
        active_count(states.drop_last()) + if states.last().is_active() {
            1nat
        } else {
            0nat
        }
    }
}

/// The file name under which page `i` of `total` is stored: its index, padded
/// for the number of pages, and the extension of its source file.
pub open spec fn stored_name(sources: Seq<Seq<char>>, i: int, total: nat) -> Seq<char> {
    frame_name(path_extension(sources[i]), i as nat, total)
}

/// The names of the delivered pages among the first `upto`, in page order.
pub open spec fn delivered_names(states: Seq<PageState>, sources: Seq<Seq<char>>, upto: int) -> Seq<
    Seq<char>,
>
    decreases upto,
{
    if upto <= 0 {
        Seq::empty()
    } else {
        let rest = delivered_names(states, sources, upto - 1);
        if states[upto - 1].phase == PagePhase::Delivered {
            rest.push(stored_name(sources, upto - 1, states.len()))
        } else {
            rest
        }
    }
}

impl ChapterView {
    /// The number of pages, as the first session gave it.
    pub open spec fn page_count(self) -> nat {
        self.states.len()
    }

    /// The file name under which page `i` is stored: its index, padded for
    /// the number of pages, and the extension of its source file.
    pub open spec fn page_name(self, i: int) -> Seq<char> {
        stored_name(self.sources, i, self.states.len())
    }

    /// Whether every page is settled.
    pub open spec fn all_settled(self) -> bool {
        forall|i: int| 0 <= i < self.states.len() ==> (#[trigger] self.states[i]).is_settled()
    }

    /// The invariant of a download.
    pub open spec fn wf(self) -> bool {
        &&& self.pool.wf()
        &&& self.pool.cap == PoolCounts::fresh(self.cap, 0).cap
        &&& self.states.len() == self.pool.total
        &&& self.sources.len() == self.pool.total
        &&& self.urls.len() == self.pool.total
        &&& is_path_component(self.name)
        &&& forall|i: int|
            0 <= i < self.states.len() ==> ((#[trigger] self.states[i]).phase == PagePhase::Pending)
                == (i >= self.pool.started)
        &&& forall|i: int|
            self.pool.started <= i < self.states.len() ==> #[trigger] self.states[i]
                == PageState::initial()
        &&& settled_count(self.states) == self.pool.finished
        &&& self.phase == ChapterPhase::Resolving ==> self.pool.total == 0
        &&& (self.phase == ChapterPhase::Resolving || self.phase == ChapterPhase::CreatingDirectory)
            ==> self.pool.started == 0
        &&& (self.phase == ChapterPhase::Archiving || self.phase == ChapterPhase::Cleaning
            || self.phase == ChapterPhase::Archived) ==> self.pool.finished == self.pool.total
        &&& (self.phase == ChapterPhase::Failed) == (self.failure is Some)
    }
}

impl ChapterView {
    /// The order to pack the working directory.
    pub open spec fn archive_order(self) -> ActionView {
        ActionView::Archive {
            directory: self.name,
            archive: archive_name_of(self.name),
            entries: delivered_names(self.states, self.sources, self.states.len() as int),
        }
    }

    /// The pages of a chapter as a session gives them, none of them started.
    pub open spec fn with_session(self, session: Session) -> ChapterView {
        ChapterView {
            phase: ChapterPhase::CreatingDirectory,
            states: Seq::new(session.page_count(), |i: int| PageState::initial()),
            sources: each_chars(session.page_filenames@),
            urls: Seq::new(
                session.page_count(),
                |i: int|
                    frame_url_of(
                        session.base_url@,
                        session.content_hash@,
                        session.page_filenames@[i]@,
                    ),
            ),
            pool: PoolCounts::fresh(self.cap, session.page_count()),
            ..self
        }
    }

    /// The download as failed for the given reason.
    pub open spec fn failed(self, error: ChapterError) -> ChapterView {
        ChapterView { phase: ChapterPhase::Failed, failure: Some(error), ..self }
    }

    /// The download after the first session was reported: with its pages
    /// where one came, failed where none did. A report outside the resolving
    /// phase changes nothing.
    pub open spec fn after_session(self, reply: SessionReply) -> ChapterView {
        if self.phase != ChapterPhase::Resolving {
            self
        } else {
            match session_of(reply) {
                Ok(session) => self.with_session(session),
                Err(error) => self.failed(ChapterError::Session(error)),
            }
        }
    }

    /// The download after the making of the working directory was reported.
    pub open spec fn after_directory(self, created: bool) -> ChapterView {
        if self.phase != ChapterPhase::CreatingDirectory {
            self
        } else if created {
            ChapterView { phase: ChapterPhase::Fetching, ..self }
        } else {
            self.failed(ChapterError::Resource)
        }
    }

    /// What the driver has to do next, and the download after the order was
    /// given. While pages are fetched: the next page that has not started,
    /// if the bound leaves room; else to wait, if anything is under way; else
    /// to pack, every page being settled.
    pub open spec fn next(self) -> (ChapterView, ActionView) {
        match self.phase {
            ChapterPhase::Resolving => (
                self,
                ActionView::ResolveSession { url: at_home_url_of(self.id) },
            ),
            ChapterPhase::CreatingDirectory => (
                self,
                ActionView::CreateDirectory { name: self.name },
            ),
            ChapterPhase::Fetching => if self.pool.can_start() {
                let i = self.pool.started as int;
                (
                    ChapterView {
                        states: self.states.update(i, self.states[i].step(PageEvent::Dispatch).0),
                        pool: self.pool.step(PoolEvent::Start),
                        ..self
                    },
                    ActionView::Fetch(
                        OrderView {
                            index: i,
                            url: self.urls[i],
                            file_name: self.page_name(i),
                        },
                    ),
                )
            } else if self.pool.in_flight() > 0 {
                (self, ActionView::Wait)
            } else {
                (ChapterView { phase: ChapterPhase::Archiving, ..self }, self.archive_order())
            },
            ChapterPhase::Archiving => (self, self.archive_order()),
            ChapterPhase::Cleaning => (self, ActionView::RemoveDirectory { name: self.name }),
            ChapterPhase::Archived => (self, ActionView::Finished(Ok(()))),
            ChapterPhase::Failed => (
                self,
                ActionView::Finished(
                    Err(
                        match self.failure {
                            Some(error) => error,
                            None => ChapterError::Resource,
                        },
                    ),
                ),
            ),
        }
    }

    /// Whether a reported attempt fits: pages are being fetched, and this one
    /// is under fetch.
    pub open spec fn accepts_attempt(self, index: usize) -> bool {
        &&& self.phase == ChapterPhase::Fetching
        &&& index < self.states.len()
        &&& self.states[index as int].phase == PagePhase::Attempted
    }

    /// Whether a reported session fits: pages are being fetched, and this one
    /// awaits a fresh session.
    pub open spec fn awaits_session(self, index: usize) -> bool {
        &&& self.phase == ChapterPhase::Fetching
        &&& index < self.states.len()
        &&& self.states[index as int].phase == PagePhase::Retrying
    }

    /// The download after an attempt on page `index` was reported, and the
    /// verdict on it.
    pub open spec fn after_attempt(self, index: usize, attempt: Attempt) -> (
        ChapterView,
        VerdictView,
    ) {
        if !self.accepts_attempt(index) {
            (self, VerdictView::Ignored)
        } else {
            let (state, action) = self.states[index as int].step(
                PageEvent::Outcome(outcome_of(index, attempt)),
            );
            (
                ChapterView {
                    states: self.states.update(index as int, state),
                    pool: if state.is_settled() {
                        self.pool.step(PoolEvent::Finish)
                    } else {
                        self.pool
                    },
                    ..self
                },
                if state.phase == PagePhase::Delivered {
                    VerdictView::Delivered
                } else if action == PageAction::ResolveSession {
                    VerdictView::Retry { session_url: at_home_url_of(self.id) }
                } else {
                    VerdictView::GaveUp
                },
            )
        }
    }

    /// Whether a reply brings a session that still has page `index`.
    pub open spec fn is_usable(reply: SessionReply, index: usize) -> bool {
        session_of(reply) matches Ok(session) && index < session.page_count()
    }

    /// The download after the fresh session for page `index` was reported,
    /// and the order to fetch the page again where a usable session came.
    /// The page keeps its index and takes its source file and URL from the
    /// fresh session; without a usable session it is given up.
    pub open spec fn after_refresh(self, index: usize, reply: SessionReply) -> (
        ChapterView,
        Option<OrderView>,
    ) {
        if !self.awaits_session(index) {
            (self, None)
        } else if Self::is_usable(reply, index) {
            let session = session_of(reply)->Ok_0;
            let source = session.page_filenames@[index as int]@;
            let url = frame_url_of(session.base_url@, session.content_hash@, source);
            let state = self.states[index as int].step(PageEvent::Refreshed { usable: true }).0.step(
                PageEvent::Dispatch,
            ).0;
            let after = ChapterView {
                states: self.states.update(index as int, state),
                sources: self.sources.update(index as int, source),
                urls: self.urls.update(index as int, url),
                ..self
            };
            (
                after,
                Some(OrderView { index: index as int, url, file_name: after.page_name(index as int) }),
            )
        } else {
            (
                ChapterView {
                    states: self.states.update(
                        index as int,
                        self.states[index as int].step(PageEvent::Refreshed { usable: false }).0,
                    ),
                    pool: self.pool.step(PoolEvent::Finish),
                    ..self
                },
                None,
            )
        }
    }

    /// The download after the writing of the archive was reported. Where it
    /// failed the download has failed, and the working directory stays.
    pub open spec fn after_archive(self, packed: bool) -> ChapterView {
        if self.phase != ChapterPhase::Archiving {
            self
        } else if packed {
            ChapterView { phase: ChapterPhase::Cleaning, ..self }
        } else {
            self.failed(ChapterError::Packaging)
        }
    }

    /// The download after the removal of the working directory was reported.
    pub open spec fn after_removal(self, removed: bool) -> ChapterView {
        if self.phase != ChapterPhase::Cleaning {
            self
        } else if removed {
            ChapterView { phase: ChapterPhase::Archived, ..self }
        } else {
            self.failed(ChapterError::Resource)
        }
    }
}

/// Changing one page changes the counts by that page alone.
pub proof fn lemma_count_update(states: Seq<PageState>, i: int, state: PageState)
    requires
        0 <= i < states.len(),
    ensures
        settled_count(states.update(i, state)) == settled_count(states) - (if states[i].is_settled() {
            1int
        } else {
            0int
        }) + (if state.is_settled() {
            1int
        } else {
            0int
        }),
        active_count(states.update(i, state)) == active_count(states) - (if states[i].is_active() {
            1int
        } else {
            0int
        }) + (if state.is_active() {
            1int
        } else {
            0int
        }),
    decreases states.len(),
{
    let after = states.update(i, state);
    if i == states.len() - 1 {
        assert(after.drop_last() =~= states.drop_last());
    } else {
        lemma_count_update(states.drop_last(), i, state);
        assert(after.drop_last() =~= states.drop_last().update(i, state));
    }
}

/// Where the pages from `started` on wait and no other does, the pages that
/// are settled and those being worked on are together the `started` first.
pub proof fn lemma_counts_add_up(states: Seq<PageState>, started: int)
    requires
        0 <= started <= states.len(),
        forall|i: int|
            0 <= i < states.len() ==> ((#[trigger] states[i]).phase == PagePhase::Pending) == (i
                >= started),
    ensures
        settled_count(states) + active_count(states) == started,
    decreases states.len(),
{
    if states.len() > 0 {
        let rest = states.drop_last();
        let last = states.len() - 1;
        assert(forall|i: int| 0 <= i < rest.len() ==> rest[i] == states[i]);
        if started <= last {
            lemma_counts_add_up(rest, started);
            assert(states[last].phase == PagePhase::Pending);
        } else {
            lemma_counts_add_up(rest, started - 1);
            assert(states[last].phase != PagePhase::Pending);
        }
    }
}

/// While a chapter is downloaded, no more of its pages are worked on at once
/// than its bound allows: the pages under fetch or awaiting a fresh session
/// are exactly those that the pool counts as running.
pub proof fn lemma_pages_in_flight_bounded(view: ChapterView)
    requires
        view.wf(),
    ensures
        active_count(view.states) == view.pool.in_flight(),
        active_count(view.states) <= view.pool.cap,
{
    lemma_counts_add_up(view.states, view.pool.started as int);
}

/// Every name among the delivered ones is that of a delivered page, and the
/// names stand in page order: the page of each name lies after the page of
/// the name before it. The pages are returned, one per name.
pub proof fn lemma_delivered_names_pages(
    states: Seq<PageState>,
    sources: Seq<Seq<char>>,
    upto: int,
) -> (pages: Seq<int>)
    requires
        0 <= upto <= states.len(),
    ensures
        pages.len() == delivered_names(states, sources, upto).len(),
        forall|k: int|
            0 <= k < pages.len() ==> {
                &&& 0 <= #[trigger] pages[k] < upto
                &&& states[pages[k]].phase == PagePhase::Delivered
                &&& delivered_names(states, sources, upto)[k] == stored_name(
                    sources,
                    pages[k],
                    states.len(),
                )
            },
        forall|j: int, k: int| 0 <= j < k < pages.len() ==> pages[j] < pages[k],
        forall|i: int|
            0 <= i < upto && (#[trigger] states[i]).phase == PagePhase::Delivered
                ==> pages.contains(i),
    decreases upto,
{
    if upto == 0 {
        Seq::empty()
    } else {
        let rest = lemma_delivered_names_pages(states, sources, upto - 1);
        if states[upto - 1].phase == PagePhase::Delivered {
            let pages = rest.push(upto - 1);
            assert forall|i: int|
                0 <= i < upto && (#[trigger] states[i]).phase
                    == PagePhase::Delivered implies pages.contains(i) by {
                if i < upto - 1 {
                    assert(rest.contains(i));
                    let k = rest.index_of(i);
                    assert(pages[k] == i);
                } else {
                    assert(pages[pages.len() - 1] == i);
                }
            }
            pages
        } else {
            rest
        }
    }
}

/// Where every page is delivered, the archive is ordered with every page:
/// as many entries as the chapter has pages, the entry at each place being
/// the name of the page of that index.
pub proof fn lemma_all_delivered(states: Seq<PageState>, sources: Seq<Seq<char>>, upto: int)
    requires
        0 <= upto <= states.len(),
        forall|i: int| 0 <= i < upto ==> (#[trigger] states[i]).phase == PagePhase::Delivered,
    ensures
        delivered_names(states, sources, upto).len() == upto,
        forall|i: int|
            0 <= i < upto ==> #[trigger] delivered_names(states, sources, upto)[i] == stored_name(
                sources,
                i,
                states.len(),
            ),
    decreases upto,
{
    if upto > 0 {
        lemma_all_delivered(states, sources, upto - 1);
    }
}

/// The entries that the archive is ordered with stand in the lexicographic
/// order of their names, strictly: page order and name order agree, and no
/// page is named twice.
pub proof fn lemma_delivered_names_sorted(states: Seq<PageState>, sources: Seq<Seq<char>>)
    ensures
        forall|j: int, k: int|
            0 <= j < k < delivered_names(states, sources, states.len() as int).len() ==> lex_lt(
                #[trigger] delivered_names(states, sources, states.len() as int)[j],
                #[trigger] delivered_names(states, sources, states.len() as int)[k],
            ),
{
    let total = states.len();
    let names = delivered_names(states, sources, total as int);
    let pages = lemma_delivered_names_pages(states, sources, total as int);
    assert forall|j: int, k: int| 0 <= j < k < names.len() implies lex_lt(
        #[trigger] names[j],
        #[trigger] names[k],
    ) by {
        assert(pages[j] < pages[k]);
        lemma_frame_names_ordered(
            path_extension(sources[pages[j]]),
            path_extension(sources[pages[k]]),
            pages[j] as nat,
            pages[k] as nat,
            total,
        );
    }
}

/// A page is among the entries that the archive is ordered with if and only
/// if it is delivered: a page that was given up is absent, and that takes no
/// other page away.
pub proof fn lemma_delivered_names_exact(states: Seq<PageState>, sources: Seq<Seq<char>>, i: int)
    requires
        0 <= i < states.len(),
    ensures
        delivered_names(states, sources, states.len() as int).contains(
            stored_name(sources, i, states.len()),
        ) <==> states[i].phase == PagePhase::Delivered,
{
    let total = states.len();
    let names = delivered_names(states, sources, total as int);
    let pages = lemma_delivered_names_pages(states, sources, total as int);
    let name = stored_name(sources, i, total);
    if states[i].phase == PagePhase::Delivered {
        assert(pages.contains(i));
        let k = pages.index_of(i);
        assert(names[k] == name);
    } else if names.contains(name) {
        let k = names.index_of(name);
        assert(states[pages[k]].phase == PagePhase::Delivered);
        assert(pages[k] != i);
        lemma_frame_names_distinct(
            path_extension(sources[pages[k]]),
            path_extension(sources[i]),
            pages[k] as nat,
            i as nat,
            total,
        );
    }
}

/// A download that has ended stays as it is, whatever is reported to it, and
/// has nothing more done: all it ever says is how it ended.
pub proof fn lemma_ended_is_final(
    view: ChapterView,
    index: usize,
    attempt: Attempt,
    reply: SessionReply,
    flag: bool,
)
    requires
        view.phase == ChapterPhase::Archived || view.phase == ChapterPhase::Failed,
    ensures
        view.after_session(reply) == view,
        view.after_directory(flag) == view,
        view.after_attempt(index, attempt).0 == view,
        view.after_refresh(index, reply).0 == view,
        view.after_archive(flag) == view,
        view.after_removal(flag) == view,
        view.next().0 == view,
        view.next().1 is Finished,
{
}

/// The working directory is ordered removed only after the archive was
/// reported written. Where the writing is reported failed, the download has
/// failed with a packaging error, and from then on never orders anything.
pub proof fn lemma_failed_archive_keeps_directory(view: ChapterView)
    requires
        view.phase == ChapterPhase::Archiving,
    ensures
        view.after_archive(false).phase == ChapterPhase::Failed,
        view.after_archive(false).next().1 == ActionView::Finished(Err(ChapterError::Packaging)),
        view.after_archive(true).next().1 == (ActionView::RemoveDirectory { name: view.name }),
{
}

/// The order to remove the working directory is given in one phase alone,
/// the one that only a written archive leads to.
pub proof fn lemma_removal_needs_archive(view: ChapterView)
    ensures
        view.next().1 is RemoveDirectory <==> view.phase == ChapterPhase::Cleaning,
        forall|index: usize, attempt: Attempt|
            (#[trigger] view.after_attempt(index, attempt)).0.phase == ChapterPhase::Cleaning
                ==> view.phase == ChapterPhase::Cleaning,
        forall|index: usize, reply: SessionReply|
            (#[trigger] view.after_refresh(index, reply)).0.phase == ChapterPhase::Cleaning
                ==> view.phase == ChapterPhase::Cleaning,
        forall|reply: SessionReply|
            (#[trigger] view.after_session(reply)).phase == ChapterPhase::Cleaning ==> view.phase
                == ChapterPhase::Cleaning,
        forall|flag: bool|
            (#[trigger] view.after_directory(flag)).phase == ChapterPhase::Cleaning ==> view.phase
                == ChapterPhase::Cleaning,
        forall|flag: bool|
            (#[trigger] view.after_removal(flag)).phase == ChapterPhase::Cleaning ==> view.phase
                == ChapterPhase::Cleaning,
        forall|flag: bool|
            (#[trigger] view.after_archive(flag)).phase == ChapterPhase::Cleaning ==> view.phase
                == ChapterPhase::Cleaning || (view.phase == ChapterPhase::Archiving && flag),
        view.next().0.phase == ChapterPhase::Cleaning ==> view.phase == ChapterPhase::Cleaning,
{
}

/// A download ends well in one way alone: its working directory was
/// reported removed while it was cleaning up. Nothing else makes a download
/// that has not ended well one that has.
pub proof fn lemma_archived_means_cleaned(
    view: ChapterView,
    index: usize,
    attempt: Attempt,
    reply: SessionReply,
    flag: bool,
)
    requires
        view.phase != ChapterPhase::Archived,
    ensures
        view.after_session(reply).phase != ChapterPhase::Archived,
        view.after_directory(flag).phase != ChapterPhase::Archived,
        view.after_attempt(index, attempt).0.phase != ChapterPhase::Archived,
        view.after_refresh(index, reply).0.phase != ChapterPhase::Archived,
        view.after_archive(flag).phase != ChapterPhase::Archived,
        view.next().0.phase != ChapterPhase::Archived,
        view.after_removal(flag).phase == ChapterPhase::Archived <==> view.phase
            == ChapterPhase::Cleaning && flag,
{
}

/// The archive is ordered only once every page is settled: while a page is
/// under fetch or awaits a session, the driver is told to fetch or to wait.
pub proof fn lemma_archive_waits_for_pages(view: ChapterView)
    requires
        view.wf(),
        view.phase == ChapterPhase::Fetching,
    ensures
        view.next().1 is Archive ==> view.all_settled(),
        active_count(view.states) > 0 ==> view.next().1 is Fetch || view.next().1 is Wait,
{
    lemma_pages_in_flight_bounded(view);
    if view.next().1 is Archive {
        lemma_all_settled(view.states);
    }
}

/// Where as many pages are settled as there are, every page is settled.
pub proof fn lemma_all_settled(states: Seq<PageState>)
    ensures
        settled_count(states) <= states.len(),
        settled_count(states) == states.len() ==> forall|i: int|
            0 <= i < states.len() ==> (#[trigger] states[i]).is_settled(),
    decreases states.len(),
{
    if states.len() > 0 {
        let rest = states.drop_last();
        lemma_all_settled(rest);
        assert(forall|i: int| 0 <= i < rest.len() ==> rest[i] == states[i]);
    }
}

/// A page is fetched by one fetch at a time: it is ordered fetched only while
/// it waits or awaits its fresh session, never while a fetch of it is under
/// way, and with the order its fetch is under way.
pub proof fn lemma_one_fetch_per_page(view: ChapterView, index: usize, reply: SessionReply)
    requires
        view.wf(),
    ensures
        view.next().1 matches ActionView::Fetch(order) ==> {
            &&& 0 <= order.index < view.page_count()
            &&& view.states[order.index].phase == PagePhase::Pending
            &&& view.next().0.states[order.index].phase == PagePhase::Attempted
        },
        view.after_refresh(index, reply).1 matches Some(order) ==> {
            &&& order.index == index
            &&& view.states[index as int].phase == PagePhase::Retrying
            &&& view.after_refresh(index, reply).0.states[index as int].phase
                == PagePhase::Attempted
        },
{
}

/// No report and no order changes the number of pages of a chapter once its
/// first session is there, nor the index of any page.
pub proof fn lemma_page_count_is_fixed(
    view: ChapterView,
    index: usize,
    attempt: Attempt,
    reply: SessionReply,
    flag: bool,
)
    requires
        view.wf(),
        view.phase != ChapterPhase::Resolving,
    ensures
        view.after_session(reply).page_count() == view.page_count(),
        view.after_directory(flag).page_count() == view.page_count(),
        view.after_attempt(index, attempt).0.page_count() == view.page_count(),
        view.after_refresh(index, reply).0.page_count() == view.page_count(),
        view.after_archive(flag).page_count() == view.page_count(),
        view.after_removal(flag).page_count() == view.page_count(),
        view.next().0.page_count() == view.page_count(),
        view.after_refresh(index, reply).1 matches Some(order) ==> order.index == index,
{
}

/// The download of one chapter.
pub struct ChapterDownload {
    id: String,
    name: String,
    cap: usize,
    phase: ChapterPhase,
    failure: Option<ChapterError>,
    states: Vec<PageState>,
    sources: Vec<String>,
    urls: Vec<String>,
    pool: Pool,
}

impl View for ChapterDownload {
    type V = ChapterView;

    closed spec fn view(&self) -> ChapterView {
        ChapterView {
            id: self.id@,
            name: self.name@,
            cap: self.cap as nat,
            phase: self.phase,
            failure: self.failure,
            states: self.states@,
            sources: each_chars(self.sources@),
            urls: each_chars(self.urls@),
            pool: self.pool@,
        }
    }
}

proof fn lemma_none_settled(states: Seq<PageState>)
    requires
        forall|i: int| 0 <= i < states.len() ==> !(#[trigger] states[i]).is_settled(),
    ensures
        settled_count(states) == 0,
    decreases states.len(),
{
    if states.len() > 0 {
        let rest = states.drop_last();
        assert(forall|i: int| 0 <= i < rest.len() ==> rest[i] == states[i]);
        lemma_none_settled(rest);
    }
}

impl ChapterDownload {
    /// The invariant of a download: that of its view.
    pub open spec fn wf(&self) -> bool {
        self@.wf()
    }

    /// The start of the download of `request`, with at most
    /// `CONCURRENT_FRAMES` pages at once.
    pub fn new(request: ChapterProps) -> (download: ChapterDownload)
        ensures
            download.wf(),
            download@.id == request.id@,
            download@.name == sanitized(request.fullname@),
            download@.phase == ChapterPhase::Resolving,
            download@.failure is None,
            download@.cap == CONCURRENT_FRAMES,
            download@.pool == PoolCounts::fresh(CONCURRENT_FRAMES as nat, 0),
    {
        ChapterDownload::with_cap(request, CONCURRENT_FRAMES)
    }

    /// The start of the download of `request`, with at most `cap` pages at
    /// once. A cap of zero is raised to one.
    pub fn with_cap(request: ChapterProps, cap: usize) -> (download: ChapterDownload)
        ensures
            download.wf(),
            download@.cap == cap,
            download@.id == request.id@,
            download@.name == sanitized(request.fullname@),
            download@.phase == ChapterPhase::Resolving,
            download@.failure is None,
            download@.pool == PoolCounts::fresh(cap as nat, 0),
    {
        let name = sanitize_name(request.fullname.as_str());
        let download = ChapterDownload {
            id: request.id,
            name,
            cap,
            phase: ChapterPhase::Resolving,
            failure: None,
            states: Vec::new(),
            sources: Vec::new(),
            urls: Vec::new(),
            pool: Pool::new(cap, 0),
        };
        proof {
            assert(download@.sources =~= Seq::empty());
            assert(download@.urls =~= Seq::empty());
        }
        download
    }

    /// Where the download stands.
    pub fn phase(&self) -> (phase: ChapterPhase)
        ensures
            phase == self@.phase,
    {
        self.phase
    }

    /// The number of pages, zero before the session is there.
    pub fn page_count(&self) -> (count: usize)
        ensures
            count == self@.page_count(),
    {
        self.states.len()
    }

    /// The state of page `index`.
    pub fn page_state(&self, index: usize) -> (state: Option<PageState>)
        ensures
            state == (if index < self@.states.len() {
                Some(self@.states[index as int])
            } else {
                None
            }),
    {
        if index < self.states.len() {
            Some(self.states[index])
        } else {
            None
        }
    }

    /// Page `index` as a task: its index, its source file as the last
    /// session named it, and the retries it has left.
    pub fn page_task(&self, index: usize) -> (task: Option<PageTask>)
        requires
            self.wf(),
        ensures
            task is Some <==> index < self@.page_count(),
            task matches Some(t) ==> {
                &&& t.index == index
                &&& t.source_filename@ == self@.sources[index as int]
                &&& t.retries_remaining == self@.states[index as int].retries_remaining
            },
    {
        if index < self.states.len() {
            Some(
                PageTask {
                    index,
                    source_filename: self.sources[index].clone(),
                    retries_remaining: self.states[index].retries_remaining,
                },
            )
        } else {
            None
        }
    }

    /// The number of pages that are being worked on right now.
    pub fn in_flight(&self) -> (count: usize)
        requires
            self.wf(),
        ensures
            count == active_count(self@.states),
            count <= self@.pool.cap,
    {
        proof {
            lemma_pages_in_flight_bounded(self@);
        }
        self.pool.in_flight()
    }

    /// Takes the report on the first session: the pages of the chapter where
    /// a session came, the failure of the download where none did.
    pub fn session_resolved(&mut self, reply: SessionReply)
        requires
            old(self).wf(),
        ensures
            final(self).wf(),
            final(self)@ == old(self)@.after_session(reply),
    {
        if self.phase != ChapterPhase::Resolving {
            return ;
        }
        match resolve_session(reply) {
            Ok(session) => {
                let count = session.page_filenames.len();
                let mut states: Vec<PageState> = Vec::new();
                let mut urls: Vec<String> = Vec::new();
                let mut i: usize = 0;
                while i < count
                    invariant
                        i <= count,
                        count == session.page_count(),
                        states@.len() == i,
                        urls@.len() == i,
                        forall|k: int| 0 <= k < i ==> #[trigger] states@[k] == PageState::initial(),
                        forall|k: int|
                            0 <= k < i ==> (#[trigger] urls@[k])@ == frame_url_of(
                                session.base_url@,
                                session.content_hash@,
                                session.page_filenames@[k]@,
                            ),
                    decreases count - i,
                {
                    states.push(PageState::new());
                    urls.push(session.frame_url(i));
                    i += 1;
                }
                let ghost expected = old(self)@.with_session(session);
                self.states = states;
                self.urls = urls;
                self.sources = session.page_filenames;
                self.pool = Pool::new(self.cap, count);
                self.phase = ChapterPhase::CreatingDirectory;
                proof {
                    lemma_none_settled(self.states@);
                    assert(self@.states =~= expected.states);
                    assert(self@.urls =~= expected.urls);
                    assert(self@.sources =~= expected.sources);
                    assert(self@ == expected);
                }
            },
            Err(error) => {
                self.phase = ChapterPhase::Failed;
                self.failure = Some(ChapterError::Session(error));
            },
        }
    }

    /// Takes the report on the making of the working directory.
    pub fn directory_created(&mut self, created: bool)
        requires
            old(self).wf(),
        ensures
            final(self).wf(),
            final(self)@ == old(self)@.after_directory(created),
    {
        if self.phase != ChapterPhase::CreatingDirectory {
            return ;
        }
        if created {
            self.phase = ChapterPhase::Fetching;
        } else {
            self.phase = ChapterPhase::Failed;
            self.failure = Some(ChapterError::Resource);
        }
    }

    /// The file name under which page `index` is stored.
    pub fn page_file_name(&self, index: usize) -> (name: String)
        requires
            self.wf(),
            index < self@.page_count(),
        ensures
            name@ == self@.page_name(index as int),
    {
        get_frame_name(self.sources[index].as_str(), index, self.states.len())
    }

    /// The names of the pages that are delivered, in page order.
    pub fn delivered_pages(&self) -> (names: Vec<String>)
        requires
            self.wf(),
        ensures
            each_chars(names@) == delivered_names(
                self@.states,
                self@.sources,
                self@.states.len() as int,
            ),
    {
        let mut names: Vec<String> = Vec::new();
        let mut i: usize = 0;
        assert(each_chars(names@) =~= delivered_names(self@.states, self@.sources, 0));
        while i < self.states.len()
            invariant
                self.wf(),
                i <= self@.states.len(),
                each_chars(names@) == delivered_names(self@.states, self@.sources, i as int),
            decreases self@.states.len() - i,
        {
            if self.states[i].phase == PagePhase::Delivered {
                let ghost before = names@;
                let name = self.page_file_name(i);
                names.push(name);
                assert(each_chars(names@) =~= each_chars(before).push(name@));
            }
            i += 1;
        }
        names
    }

    fn archive_action(&self) -> (action: ChapterAction)
        requires
            self.wf(),
        ensures
            action@ == self@.archive_order(),
    {
        ChapterAction::Archive {
            directory: self.name.clone(),
            archive: archive_name(self.name.as_str()),
            entries: self.delivered_pages(),
        }
    }

    /// What the driver has to do next. Orders one step at a time: the driver
    /// asks again after each order that is not `Wait`, and after each report.
    pub fn next_action(&mut self) -> (action: ChapterAction)
        requires
            old(self).wf(),
        ensures
            final(self).wf(),
            (final(self)@, action@) == old(self)@.next(),
    {
        match self.phase {
            ChapterPhase::Resolving => ChapterAction::ResolveSession {
                url: at_home_url(self.id.as_str()),
            },
            ChapterPhase::CreatingDirectory => ChapterAction::CreateDirectory {
                name: self.name.clone(),
            },
            ChapterPhase::Fetching => {
                match self.pool.try_start() {
                    Some(index) => {
                        let (state, _) = self.states[index].advance(PageEvent::Dispatch);
                        proof {
                            lemma_count_update(self.states@, index as int, state);
                        }
                        self.states.set(index, state);
                        let order = FetchOrder {
                            index,
                            url: self.urls[index].clone(),
                            file_name: self.page_file_name(index),
                        };
                        ChapterAction::Fetch(order)
                    },
                    None => {
                        if self.pool.in_flight() > 0 {
                            ChapterAction::Wait
                        } else {
                            self.phase = ChapterPhase::Archiving;
                            self.archive_action()
                        }
                    },
                }
            },
            ChapterPhase::Archiving => self.archive_action(),
            ChapterPhase::Cleaning => ChapterAction::RemoveDirectory { name: self.name.clone() },
            ChapterPhase::Archived => ChapterAction::Finished(Ok(())),
            ChapterPhase::Failed => ChapterAction::Finished(
                Err(
                    match self.failure {
                        Some(error) => error,
                        None => ChapterError::Resource,
                    },
                ),
            ),
        }
    }

    /// Takes the report on an attempt to fetch page `index`, and says what is
    /// to be done with the page: store it, ask for a fresh session to fetch
    /// it again, or drop it.
    pub fn page_attempted(&mut self, index: usize, attempt: &Attempt) -> (verdict: PageVerdict)
        requires
            old(self).wf(),
        ensures
            final(self).wf(),
            (final(self)@, verdict@) == old(self)@.after_attempt(index, *attempt),
    {
        if self.phase != ChapterPhase::Fetching || index >= self.states.len() {
            return PageVerdict::Ignored;
        }
        if self.states[index].phase != PagePhase::Attempted {
            return PageVerdict::Ignored;
        }
        let outcome = attempt_outcome(index, attempt);
        let (state, _) = self.states[index].advance(PageEvent::Outcome(outcome));
        proof {
            lemma_count_update(self.states@, index as int, state);
            lemma_pages_in_flight_bounded(self@);
        }
        self.states.set(index, state);
        match state.phase {
            PagePhase::Delivered => {
                self.pool.finish();
                PageVerdict::Delivered
            },
            PagePhase::PermanentlyFailed => {
                self.pool.finish();
                PageVerdict::GaveUp
            },
            _ => PageVerdict::Retry { session_url: at_home_url(self.id.as_str()) },
        }
    }

    /// Takes the report on the fresh session that was asked for page `index`.
    /// Where a session came that still has the page, orders the page fetched
    /// again, from where that session serves it; else gives the page up.
    pub fn session_refreshed(&mut self, index: usize, reply: SessionReply) -> (order: Option<
        FetchOrder,
    >)
        requires
            old(self).wf(),
        ensures
            final(self).wf(),
            final(self)@ == old(self)@.after_refresh(index, reply).0,
            match order {
                Some(o) => old(self)@.after_refresh(index, reply).1 == Some(o@),
                None => old(self)@.after_refresh(index, reply).1 is None,
            },
    {
        if self.phase != ChapterPhase::Fetching || index >= self.states.len() {
            return None;
        }
        if self.states[index].phase != PagePhase::Retrying {
            return None;
        }
        proof {
            lemma_pages_in_flight_bounded(self@);
        }
        let usable = match resolve_session(reply) {
            Ok(session) => {
                if index < session.page_filenames.len() {
                    Some((session.frame_url(index), session.page_filenames[index].clone()))
                } else {
                    None
                }
            },
            Err(_) => None,
        };
        match usable {
            Some((url, source)) => {
                let (pending, _) = self.states[index].advance(PageEvent::Refreshed { usable: true });
                let (state, _) = pending.advance(PageEvent::Dispatch);
                proof {
                    lemma_count_update(self.states@, index as int, state);
                    assert(each_chars(self.sources@.update(index as int, source)) =~= each_chars(
                        self.sources@,
                    ).update(index as int, source@));
                    assert(each_chars(self.urls@.update(index as int, url)) =~= each_chars(
                        self.urls@,
                    ).update(index as int, url@));
                }
                self.states.set(index, state);
                let order_url = url.clone();
                self.sources.set(index, source);
                self.urls.set(index, url);
                let order = FetchOrder {
                    index,
                    url: order_url,
                    file_name: self.page_file_name(index),
                };
                Some(order)
            },
            None => {
                let (state, _) = self.states[index].advance(PageEvent::Refreshed { usable: false });
                proof {
                    lemma_count_update(self.states@, index as int, state);
                }
                self.states.set(index, state);
                self.pool.finish();
                None
            },
        }
    }

    /// Takes the report on the writing of the archive.
    pub fn archived(&mut self, packed: bool)
        requires
            old(self).wf(),
        ensures
            final(self).wf(),
            final(self)@ == old(self)@.after_archive(packed),
    {
        if self.phase != ChapterPhase::Archiving {
            return ;
        }
        if packed {
            self.phase = ChapterPhase::Cleaning;
        } else {
            self.phase = ChapterPhase::Failed;
            self.failure = Some(ChapterError::Packaging);
        }
    }

    /// Takes the report on the removal of the working directory.
    pub fn directory_removed(&mut self, removed: bool)
        requires
            old(self).wf(),
        ensures
            final(self).wf(),
            final(self)@ == old(self)@.after_removal(removed),
    {
        if self.phase != ChapterPhase::Cleaning {
            return ;
        }
        if removed {
            self.phase = ChapterPhase::Archived;
        } else {
            self.phase = ChapterPhase::Failed;
            self.failure = Some(ChapterError::Resource);
        }
    }
}

} // verus!
