//! The answer of the session endpoint.

use vstd::prelude::*;

verus! {

/// What the session endpoint answers for a chapter.
pub struct AtHomeResponse {
    pub base_url: String,
    pub chapter: ChapterData,
}

/// The content hash of a chapter and the file names of its pages, in page
/// order, in the data-saving quality tier.
pub struct ChapterData {
    pub hash: String,
    pub data_saver: Vec<String>,
}

} // verus!
