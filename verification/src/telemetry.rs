//! Delivery telemetry and the verdict on one fetch attempt.
//!
//! Every response that a delivery node outside the catalogue's own domain
//! gave is reported back to the catalogue, which routes by these reports. A
//! response from the catalogue's own domain is never reported.

use crate::session::{is_success, status_is_success};
use crate::text::{contains, contains_text, ends_with, is_suffix, str_eq};
use vstd::prelude::*;

verus! {

/// Where delivery reports are posted.
pub const MANGADEX_REPORT_URL: &'static str = "https://api.mangadex.network/report";

/// The domain of the catalogue itself. A host of this domain is not reported
/// on.
pub const ORIGIN_DOMAIN: &'static str = "mangadex.org";

/// The ending of the hosts below the catalogue's domain: a dot and the
/// domain.
pub const ORIGIN_SUBDOMAIN: &'static str = ".mangadex.org";

/// The value fragment of the cache header that marks a cache hit.
pub const CACHE_HIT: &'static str = "HIT";

/// The name of the response header that tells whether the node served the
/// page from its cache.
pub const CACHE_HEADER: &'static str = "X-Cache";

/// What the verdict on a fetch attempt reads from the response to it.
pub struct ResponseMeta {
    /// The URL that answered, after redirects.
    pub url: String,
    /// The host of that URL, where it has one.
    pub host: Option<String>,
    /// The status code.
    pub status: u16,
    /// The length of the body as the response announces it.
    pub content_length: Option<u64>,
    /// The value of the cache header, where the response has one that is text.
    pub cache_header: Option<String>,
}

/// One delivery report, as the catalogue takes it.
pub struct DeliveryReport {
    pub url: String,
    pub success: bool,
    pub cached: bool,
    pub bytes: u64,
    pub duration: u64,
}

/// How a fetch attempt ended.
#[derive(Clone, Copy, Debug, PartialEq, Eq, Structural)]
pub enum FetchOutcome {
    /// The page was served; its bytes are good to store.
    Delivered(usize),
    /// The node answered, but not with success.
    Rejected(usize),
    /// No answer was had, or the report on it could not be posted.
    TransportError,
}

/// What the caller observed of one attempt.
pub enum Attempt {
    /// The request failed before any response.
    Failed,
    /// A response came. `report_posted` tells whether a delivery report on it
    /// was posted and accepted.
    Answered { response: ResponseMeta, report_posted: bool },
}

/// Whether a host name lies in the catalogue's own domain: it is the domain,
/// or ends with a dot and the domain. A host that merely holds the domain's
/// name somewhere, as a mirror may, does not.
pub open spec fn in_origin_domain(host: Seq<char>) -> bool {
    host == ORIGIN_DOMAIN@ || is_suffix(host, ORIGIN_SUBDOMAIN@)
}

/// Whether a host belongs to the catalogue's own domain. A response without
/// a host does not.
pub open spec fn is_origin_host(host: Option<String>) -> bool {
    match host {
        Some(h) => in_origin_domain(h@),
        None => false,
    }
}

/// Whether a cache header value marks a hit.
pub open spec fn is_cache_hit(header: Option<String>) -> bool {
    match header {
        Some(h) => contains_text(h@, CACHE_HIT@),
        None => false,
    }
}

/// The number of bytes a response announces, zero where it announces none.
pub open spec fn announced_bytes(content_length: Option<u64>) -> u64 {
    match content_length {
        Some(n) => n,
        None => 0,
    }
}

/// Whether the response came from the catalogue's own domain.
pub fn has_origin_domain(response: &ResponseMeta) -> (origin: bool)
    ensures
        origin == is_origin_host(response.host),
{
    match &response.host {
        Some(h) => str_eq(h.as_str(), ORIGIN_DOMAIN) || ends_with(h.as_str(), ORIGIN_SUBDOMAIN),
        None => false,
    }
}

/// The report that is owed on a response: none for one from the catalogue's
/// own domain, and for every other response one that tells whether the status
/// was a success, whether the node had the page cached, how many bytes it
/// announced and how long it took to answer.
pub fn delivery_report(response: &ResponseMeta, duration_ms: u64) -> (report: Option<DeliveryReport>)
    ensures
        report is Some <==> !is_origin_host(response.host),
        report matches Some(r) ==> {
            &&& r.url@ == response.url@
            &&& r.success == status_is_success(response.status)
            &&& r.cached == is_cache_hit(response.cache_header)
            &&& r.bytes == announced_bytes(response.content_length)
            &&& r.duration == duration_ms
        },
{
    if has_origin_domain(response) {
        return None;
    }
    let cached = match &response.cache_header {
        Some(h) => contains(h.as_str(), CACHE_HIT),
        None => false,
    };
    let bytes = match response.content_length {
        Some(n) => n,
        None => 0,
    };
    Some(
        DeliveryReport {
            url: response.url.clone(),
            success: is_success(response.status),
            cached,
            bytes,
            duration: duration_ms,
        },
    )
}

/// The verdict that `attempt_outcome` gives.
pub open spec fn outcome_of(index: usize, attempt: Attempt) -> FetchOutcome {
    match attempt {
        Attempt::Failed => FetchOutcome::TransportError,
        Attempt::Answered { response, report_posted } => if !is_origin_host(response.host)
            && !report_posted {
            FetchOutcome::TransportError
        } else if status_is_success(response.status) {
            FetchOutcome::Delivered(index)
        } else {
            FetchOutcome::Rejected(index)
        },
    }
}

/// The verdict on one attempt to fetch page `index`. A request without a
/// response is a transport error, and so is a response whose owed report was
/// not posted: the attempt counts as failed rather than the report as lost.
/// Otherwise the status decides between delivered and rejected.
pub fn attempt_outcome(index: usize, attempt: &Attempt) -> (outcome: FetchOutcome)
    ensures
        outcome == outcome_of(index, *attempt),
{
    match attempt {
        Attempt::Failed => FetchOutcome::TransportError,
        Attempt::Answered { response, report_posted } => {
            if !has_origin_domain(response) && !*report_posted {
                FetchOutcome::TransportError
            } else if is_success(response.status) {
                FetchOutcome::Delivered(index)
            } else {
                FetchOutcome::Rejected(index)
            }
        },
    }
}

/// Whether the page of an attempt is to be stored: the attempt counts as
/// delivered.
pub fn must_store(index: usize, attempt: &Attempt) -> (store: bool)
    ensures
        store == (outcome_of(index, *attempt) is Delivered),
{
    match attempt_outcome(index, attempt) {
        FetchOutcome::Delivered(_) => true,
        _ => false,
    }
}

/// An attempt as it counts once its page was stored, or was not: a page that
/// was served but could not be read or stored counts as a request that
/// failed, and everything else as it was.
pub open spec fn stored_of(index: usize, attempt: Attempt, stored: bool) -> Attempt {
    if outcome_of(index, attempt) is Delivered && !stored {
        Attempt::Failed
    } else {
        attempt
    }
}

/// The attempt to report on page `index`, given whether its page was stored.
/// An attempt whose page was not stored never counts as delivered.
pub fn after_store(index: usize, attempt: Attempt, stored: bool) -> (settled: Attempt)
    ensures
        settled == stored_of(index, attempt, stored),
        !stored ==> !(outcome_of(index, settled) is Delivered),
{
    if !stored && must_store(index, &attempt) {
        Attempt::Failed
    } else {
        attempt
    }
}

/// A report is owed exactly on the responses that did not come from the
/// catalogue's own domain, and an attempt whose owed report was not posted is
/// never counted as delivered.
pub proof fn lemma_reports_follow_origin(index: usize, response: ResponseMeta, report_posted: bool)
    ensures
        is_origin_host(response.host) ==> outcome_of(
            index,
            Attempt::Answered { response, report_posted },
        ) == outcome_of(index, Attempt::Answered { response, report_posted: !report_posted }),
        !is_origin_host(response.host) && !report_posted ==> outcome_of(
            index,
            Attempt::Answered { response, report_posted },
        ) == FetchOutcome::TransportError,
{
}

} // verus!
