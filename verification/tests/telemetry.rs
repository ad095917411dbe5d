use manga_fetcher::session::{
    at_home_url, get_frame_url, is_success, resolve_session, Session, SessionError, SessionReply,
};
use manga_fetcher::model::at_home::{AtHomeResponse, ChapterData};
use manga_fetcher::telemetry::{
    after_store, attempt_outcome, delivery_report, has_origin_domain, must_store, Attempt,
    FetchOutcome, ResponseMeta,
};

fn response(host: Option<&str>, status: u16) -> ResponseMeta {
    ResponseMeta {
        url: "https://node.example.net/data-saver/hash/1.jpg".to_string(),
        host: host.map(|h| h.to_string()),
        status,
        content_length: Some(4096),
        cache_header: Some("HIT from edge".to_string()),
    }
}

fn at_home() -> AtHomeResponse {
    AtHomeResponse {
        base_url: "https://node.example.net".to_string(),
        chapter: ChapterData {
            hash: "abc123".to_string(),
            data_saver: vec!["1-x.jpg".to_string(), "2-y.png".to_string()],
        },
    }
}

#[test]
fn success_is_the_two_hundreds() {
    assert!(!is_success(199));
    assert!(is_success(200));
    assert!(is_success(204));
    assert!(is_success(299));
    assert!(!is_success(300));
    assert!(!is_success(404));
    assert!(!is_success(0));
}

#[test]
fn urls_of_sessions_and_pages() {
    assert_eq!(at_home_url("c-1"), "https://api.mangadex.org/at-home/server/c-1");
    assert_eq!(
        get_frame_url("https://node.example.net", "abc123", "1-x.jpg"),
        "https://node.example.net/data-saver/abc123/1-x.jpg"
    );
    let session = Session::from_at_home(at_home());
    assert_eq!(session.frame_url(1), "https://node.example.net/data-saver/abc123/2-y.png");
}

#[test]
fn a_decoded_answer_is_a_session() {
    let session =
        resolve_session(SessionReply::Answered { status: 200, body: Some(at_home()) }).ok().unwrap();
    assert_eq!(session.base_url, "https://node.example.net");
    assert_eq!(session.content_hash, "abc123");
    assert_eq!(session.page_filenames, vec!["1-x.jpg", "2-y.png"]);
}

#[test]
fn an_unknown_chapter_is_not_found() {
    let missing = resolve_session(SessionReply::Answered { status: 404, body: None });
    assert_eq!(missing.err(), Some(SessionError::NotFound));
    let with_body = resolve_session(SessionReply::Answered { status: 404, body: Some(at_home()) });
    assert_eq!(with_body.err(), Some(SessionError::NotFound));
}

#[test]
fn anything_else_that_fails_is_an_upstream_error() {
    assert_eq!(resolve_session(SessionReply::Unreachable).err(), Some(SessionError::UpstreamError));
    assert_eq!(
        resolve_session(SessionReply::Answered { status: 200, body: None }).err(),
        Some(SessionError::UpstreamError)
    );
    assert_eq!(
        resolve_session(SessionReply::Answered { status: 503, body: Some(at_home()) }).err(),
        Some(SessionError::UpstreamError)
    );
}

#[test]
fn responses_of_the_origin_are_not_reported() {
    for host in ["mangadex.org", "uploads.mangadex.org", "api.mangadex.org", "a.b.mangadex.org"] {
        let meta = response(Some(host), 200);
        assert!(has_origin_domain(&meta));
        assert!(delivery_report(&meta, 12).is_none());
        let failed = response(Some(host), 500);
        assert!(delivery_report(&failed, 12).is_none());
    }
}

#[test]
fn responses_of_other_nodes_are_reported() {
    let others = [
        Some("node.example.net"),
        Some("mangadex.network"),
        Some("mangadex.org.cdn.example.net"),
        Some("cmdxd98sb0x3yprd.mangadex.org.example"),
        Some("notmangadex.org"),
        Some("mangadex.org."),
        Some(".org"),
        Some("org"),
        Some(""),
        None,
    ];
    for host in others {
        for status in [200u16, 404, 502] {
            let meta = response(host, status);
            assert!(!has_origin_domain(&meta));
            let report = delivery_report(&meta, 321).unwrap();
            assert_eq!(report.url, "https://node.example.net/data-saver/hash/1.jpg");
            assert_eq!(report.success, status == 200);
            assert!(report.cached);
            assert_eq!(report.bytes, 4096);
            assert_eq!(report.duration, 321);
        }
    }
}

#[test]
fn a_mirror_that_holds_the_name_of_the_origin_is_reported() {
    let meta = ResponseMeta {
        url: "https://mangadex.org.cdn.example.net/data-saver/h/1.jpg".to_string(),
        host: Some("mangadex.org.cdn.example.net".to_string()),
        status: 200,
        content_length: Some(10),
        cache_header: None,
    };
    let report = delivery_report(&meta, 5).unwrap();
    assert_eq!(report.url, "https://mangadex.org.cdn.example.net/data-saver/h/1.jpg");
    assert!(report.success);
    let unreported = Attempt::Answered { response: meta, report_posted: false };
    assert_eq!(attempt_outcome(0, &unreported), FetchOutcome::TransportError);
}

#[test]
fn report_of_a_response_without_length_or_cache_header() {
    let mut meta = response(Some("node.example.net"), 200);
    meta.content_length = None;
    meta.cache_header = None;
    let report = delivery_report(&meta, 0).unwrap();
    assert_eq!(report.bytes, 0);
    assert!(!report.cached);

    meta.cache_header = Some("MISS".to_string());
    assert!(!delivery_report(&meta, 0).unwrap().cached);
    meta.cache_header = Some("hit".to_string());
    assert!(!delivery_report(&meta, 0).unwrap().cached);
}

#[test]
fn verdicts_on_attempts() {
    assert_eq!(attempt_outcome(3, &Attempt::Failed), FetchOutcome::TransportError);

    let delivered =
        Attempt::Answered { response: response(Some("node.example.net"), 200), report_posted: true };
    assert_eq!(attempt_outcome(3, &delivered), FetchOutcome::Delivered(3));

    let rejected =
        Attempt::Answered { response: response(Some("node.example.net"), 403), report_posted: true };
    assert_eq!(attempt_outcome(3, &rejected), FetchOutcome::Rejected(3));

    let unreported =
        Attempt::Answered { response: response(Some("node.example.net"), 200), report_posted: false };
    assert_eq!(attempt_outcome(3, &unreported), FetchOutcome::TransportError);

    let origin =
        Attempt::Answered { response: response(Some("uploads.mangadex.org"), 200), report_posted: false };
    assert_eq!(attempt_outcome(3, &origin), FetchOutcome::Delivered(3));

    let origin_rejected =
        Attempt::Answered { response: response(Some("uploads.mangadex.org"), 500), report_posted: false };
    assert_eq!(attempt_outcome(3, &origin_rejected), FetchOutcome::Rejected(3));
}

#[test]
fn a_page_that_could_not_be_stored_counts_as_failed() {
    let served = || Attempt::Answered {
        response: response(Some("node.example.net"), 200),
        report_posted: true,
    };
    let rejected = || Attempt::Answered {
        response: response(Some("node.example.net"), 404),
        report_posted: true,
    };
    assert!(must_store(2, &served()));
    assert!(!must_store(2, &rejected()));
    assert!(!must_store(2, &Attempt::Failed));

    assert_eq!(attempt_outcome(2, &after_store(2, served(), true)), FetchOutcome::Delivered(2));
    assert_eq!(attempt_outcome(2, &after_store(2, served(), false)), FetchOutcome::TransportError);
    assert_eq!(attempt_outcome(2, &after_store(2, rejected(), false)), FetchOutcome::Rejected(2));
    assert_eq!(attempt_outcome(2, &after_store(2, rejected(), true)), FetchOutcome::Rejected(2));
    assert_eq!(
        attempt_outcome(2, &after_store(2, Attempt::Failed, true)),
        FetchOutcome::TransportError
    );
}
