//! Image-serving sessions of a chapter.
//!
//! The catalogue hands out, per chapter, a short-lived session: the base URL
//! of a delivery node, a content hash, and the ordered file names of the
//! pages. A session is asked for once when a chapter download starts and once
//! more for every retry of a page, since node and token may have changed.

use crate::model::at_home::AtHomeResponse;
use vstd::prelude::*;

verus! {

/// Root of the catalogue API.
pub const MANGADEX_API: &'static str = "https://api.mangadex.org";

/// Whether an HTTP status code reports success: the codes 200 to 299.
pub open spec fn status_is_success(status: u16) -> bool {
    200 <= status < 300
}

/// Whether an HTTP status code reports success.
pub fn is_success(status: u16) -> (ok: bool)
    ensures
        ok == status_is_success(status),
{
    200 <= status && status < 300
}

/// What a session holds: where and under which names the pages of one
/// chapter are served right now.
pub struct Session {
    pub base_url: String,
    pub content_hash: String,
    pub page_filenames: Vec<String>,
}

impl Session {
    /// The number of pages of the chapter.
    pub open spec fn page_count(&self) -> nat {
        self.page_filenames@.len()
    }

    /// The session that the catalogue's answer describes.
    pub fn from_at_home(response: AtHomeResponse) -> (session: Session)
        ensures
            session.base_url == response.base_url,
            session.content_hash == response.chapter.hash,
            session.page_filenames == response.chapter.data_saver,
    {
        Session {
            base_url: response.base_url,
            content_hash: response.chapter.hash,
            page_filenames: response.chapter.data_saver,
        }
    }

    /// The URL of page `index` under this session.
    pub fn frame_url(&self, index: usize) -> (url: String)
        requires
            index < self.page_count(),
        ensures
            url@ == frame_url_of(
                self.base_url@,
                self.content_hash@,
                self.page_filenames@[index as int]@,
            ),
    {
        get_frame_url(
            self.base_url.as_str(),
            self.content_hash.as_str(),
            self.page_filenames[index].as_str(),
        )
    }
}

/// Why no session could be had.
#[derive(Clone, Copy, Debug, PartialEq, Eq, Structural)]
pub enum SessionError {
    /// The request failed, was refused, or its answer could not be read.
    UpstreamError,
    /// The catalogue does not know the chapter.
    NotFound,
}

/// What came back from the session endpoint.
pub enum SessionReply {
    /// The request could not be sent or was not answered.
    Unreachable,
    /// An answer with its status code, and its body where it could be decoded.
    Answered { status: u16, body: Option<AtHomeResponse> },
}

/// The URL of the session endpoint for a chapter.
pub open spec fn at_home_url_of(chapter_id: Seq<char>) -> Seq<char> {
    MANGADEX_API@ + "/at-home/server/"@ + chapter_id
}

/// The URL of one page: base URL, quality tier, content hash and file name.
pub open spec fn frame_url_of(base_url: Seq<char>, hash: Seq<char>, file_name: Seq<char>) -> Seq<
    char,
> {
    base_url + "/data-saver/"@ + hash + "/"@ + file_name
}

/// The URL from which a session for `chapter_id` is requested.
pub fn at_home_url(chapter_id: &str) -> (url: String)
    ensures
        url@ == at_home_url_of(chapter_id@),
{
    let mut url = String::new();
    url.append(MANGADEX_API);
    url.append("/at-home/server/");
    url.append(chapter_id);
    assert(url@ =~= at_home_url_of(chapter_id@));
    url
}

/// The URL from which a page is fetched.
pub fn get_frame_url(base_url: &str, hash: &str, file_name: &str) -> (url: String)
    ensures
        url@ == frame_url_of(base_url@, hash@, file_name@),
{
    let mut url = String::new();
    url.append(base_url);
    url.append("/data-saver/");
    url.append(hash);
    url.append("/");
    url.append(file_name);
    assert(url@ =~= frame_url_of(base_url@, hash@, file_name@));
    url
}

/// What `resolve_session` makes of a reply.
pub open spec fn session_of(reply: SessionReply) -> Result<Session, SessionError> {
    match reply {
        SessionReply::Unreachable => Err(SessionError::UpstreamError),
        SessionReply::Answered { status, body } => if status == 404 {
            Err(SessionError::NotFound)
        } else if !status_is_success(status) {
            Err(SessionError::UpstreamError)
        } else {
            match body {
                Some(response) => Ok(
                    Session {
                        base_url: response.base_url,
                        content_hash: response.chapter.hash,
                        page_filenames: response.chapter.data_saver,
                    },
                ),
                None => Err(SessionError::UpstreamError),
            }
        },
    }
}

/// Turns the reply of the session endpoint into a session: a chapter that the
/// catalogue does not know (status 404) is `NotFound`; a request that failed,
/// any other status outside 200 to 299, and a body that could not be decoded
/// are `UpstreamError`.
pub fn resolve_session(reply: SessionReply) -> (session: Result<Session, SessionError>)
    ensures
        session == session_of(reply),
{
    match reply {
        SessionReply::Unreachable => Err(SessionError::UpstreamError),
        SessionReply::Answered { status, body } => {
            if status == 404 {
                Err(SessionError::NotFound)
            } else if !is_success(status) {
                Err(SessionError::UpstreamError)
            } else {
                match body {
                    Some(response) => Ok(Session::from_at_home(response)),
                    None => Err(SessionError::UpstreamError),
                }
            }
        },
    }
}

} // verus!
