use manga_fetcher::pool::{Pool, CONCURRENT_CHAPTERS, CONCURRENT_FRAMES};
use manga_fetcher::retry::{PageAction, PageEvent, PagePhase, PageState, MAX_FRAME_RETRIES};
use manga_fetcher::telemetry::FetchOutcome;

#[test]
fn default_bounds() {
    assert_eq!(CONCURRENT_FRAMES, 30);
    assert_eq!(CONCURRENT_CHAPTERS, 100);
}

#[test]
fn pool_never_runs_more_than_its_cap() {
    let cap = 30;
    let total = 1000;
    let mut pool = Pool::new(cap, total);
    let mut started = Vec::new();
    let mut running = 0usize;
    let mut step = 0usize;
    while !pool.is_drained() {
        step += 1;
        // An uneven interleaving: mostly starts, a finish now and then, and
        // bursts of finishes.
        let finish_now = step % 7 == 0 || (step / 50) % 3 == 2;
        if finish_now && running > 0 {
            assert!(pool.finish());
            running -= 1;
        } else {
            match pool.try_start() {
                Some(task) => {
                    started.push(task);
                    running += 1;
                },
                None => {
                    assert!(running == cap || started.len() == total);
                    assert!(pool.finish());
                    running -= 1;
                },
            }
        }
        assert_eq!(pool.in_flight(), running);
        assert!(pool.in_flight() <= cap);
    }
    assert_eq!(started, (0..total).collect::<Vec<usize>>());
    assert_eq!(pool.in_flight(), 0);
    assert!(pool.try_start().is_none());
    assert!(!pool.finish());
}

#[test]
fn pool_fills_up_to_its_cap_and_no_further() {
    let mut pool = Pool::new(3, 10);
    assert_eq!(pool.try_start(), Some(0));
    assert_eq!(pool.try_start(), Some(1));
    assert_eq!(pool.try_start(), Some(2));
    assert_eq!(pool.try_start(), None);
    assert_eq!(pool.in_flight(), 3);
    assert!(pool.finish());
    assert_eq!(pool.try_start(), Some(3));
    assert_eq!(pool.try_start(), None);
}

#[test]
fn pool_with_cap_zero_runs_one_at_a_time() {
    let mut pool = Pool::new(0, 2);
    assert_eq!(pool.cap(), 1);
    assert_eq!(pool.try_start(), Some(0));
    assert_eq!(pool.try_start(), None);
    assert!(pool.finish());
    assert_eq!(pool.try_start(), Some(1));
}

#[test]
fn pool_without_tasks_is_drained() {
    let mut pool = Pool::new(5, 0);
    assert!(pool.is_drained());
    assert_eq!(pool.try_start(), None);
    assert!(!pool.finish());
}

#[test]
fn a_page_that_is_delivered_at_once() {
    let page = PageState::new();
    assert_eq!(page.phase, PagePhase::Pending);
    assert_eq!(page.retries_remaining, MAX_FRAME_RETRIES);
    let (page, action) = page.advance(PageEvent::Dispatch);
    assert_eq!(page.phase, PagePhase::Attempted);
    assert_eq!(action, PageAction::Fetch);
    let (page, action) = page.advance(PageEvent::Outcome(FetchOutcome::Delivered(0)));
    assert_eq!(page.phase, PagePhase::Delivered);
    assert_eq!(action, PageAction::Nothing);
    assert_eq!(page.retries_remaining, MAX_FRAME_RETRIES);
}

#[test]
fn a_page_is_retried_once_per_failure_until_none_is_left() {
    let (mut page, _) = PageState::new().advance(PageEvent::Dispatch);
    let mut resolutions = 0;
    for round in 0..MAX_FRAME_RETRIES {
        let failure = if round % 2 == 0 {
            FetchOutcome::Rejected(0)
        } else {
            FetchOutcome::TransportError
        };
        let (next, action) = page.advance(PageEvent::Outcome(failure));
        assert_eq!(next.phase, PagePhase::Retrying);
        assert_eq!(action, PageAction::ResolveSession);
        assert_eq!(next.retries_remaining, MAX_FRAME_RETRIES - round - 1);
        resolutions += 1;
        let (next, action) = next.advance(PageEvent::Refreshed { usable: true });
        assert_eq!(next.phase, PagePhase::Pending);
        assert_eq!(action, PageAction::Nothing);
        let (next, action) = next.advance(PageEvent::Dispatch);
        assert_eq!(next.phase, PagePhase::Attempted);
        assert_eq!(action, PageAction::Fetch);
        page = next;
    }
    assert_eq!(resolutions, MAX_FRAME_RETRIES);
    assert_eq!(page.retries_remaining, 0);
    let (page, action) = page.advance(PageEvent::Outcome(FetchOutcome::TransportError));
    assert_eq!(page.phase, PagePhase::PermanentlyFailed);
    assert_eq!(action, PageAction::Nothing);
}

#[test]
fn a_page_without_a_fresh_session_is_given_up() {
    let (page, _) = PageState::new().advance(PageEvent::Dispatch);
    let (page, _) = page.advance(PageEvent::Outcome(FetchOutcome::Rejected(0)));
    let (page, action) = page.advance(PageEvent::Refreshed { usable: false });
    assert_eq!(page.phase, PagePhase::PermanentlyFailed);
    assert_eq!(action, PageAction::Nothing);
    assert_eq!(page.retries_remaining, MAX_FRAME_RETRIES - 1);
}

#[test]
fn events_that_do_not_fit_change_nothing() {
    let fresh = PageState::new();
    for event in [
        PageEvent::Outcome(FetchOutcome::Delivered(0)),
        PageEvent::Outcome(FetchOutcome::TransportError),
        PageEvent::Refreshed { usable: true },
    ] {
        assert_eq!(fresh.advance(event), (fresh, PageAction::Nothing));
    }
    let delivered = PageState { phase: PagePhase::Delivered, retries_remaining: 2 };
    let failed = PageState { phase: PagePhase::PermanentlyFailed, retries_remaining: 0 };
    for settled in [delivered, failed] {
        for event in [
            PageEvent::Dispatch,
            PageEvent::Outcome(FetchOutcome::Delivered(0)),
            PageEvent::Outcome(FetchOutcome::Rejected(0)),
            PageEvent::Refreshed { usable: true },
            PageEvent::Refreshed { usable: false },
        ] {
            assert_eq!(settled.advance(event), (settled, PageAction::Nothing));
        }
    }
}
