//! One chapter as the catalogue's feed lists it.

use vstd::prelude::*;

verus! {

/// A chapter of the feed: its id, what it is, and what it is related to.
#[derive(Debug)]
pub struct FeedData {
    pub id: String,
    pub attributes: ChapterAttributes,
    pub relationships: Vec<ChapterRelationship>,
}

/// What the feed says of a chapter itself.
#[derive(Debug)]
pub struct ChapterAttributes {
    pub volume: Option<String>,
    pub chapter: String,
    pub title: Option<String>,
    pub pages: u32,
    pub external_url: Option<String>,
}

/// Something a chapter is related to: a scanlation group, an uploader, the
/// title it belongs to.
#[derive(Debug)]
pub struct ChapterRelationship {
    pub id: String,
    pub rel_type: String,
    pub attributes: Option<ChapterRelationshipAttributes>,
}

/// What the feed says of a related thing, as far as it was asked to.
#[derive(Debug)]
pub struct ChapterRelationshipAttributes {
    pub name: Option<String>,
    pub website: Option<String>,
    pub description: Option<String>,
}

} // verus!
