//! Chapters as this library hands them on: the feed's chapters, each with the
//! group that scanlated it.

use crate::model::feed_data::{ChapterRelationship, FeedData};
use crate::model::response::{
    errors_view, missing_field, ApiResponse, ResponseError, ServiceError, ServiceErrorView,
};
use crate::text::{clone_opt, opt_chars, str_eq};
use vstd::prelude::*;

verus! {

/// The relationship type of a scanlation group.
pub const SCANLATION_GROUP: &'static str = "scanlation_group";

/// The tag under which failures of the feed are reported.
pub const FEED_TAG: &'static str = "feed";

/// A chapter that the caller wants downloaded: its id, and the name under
/// which it is stored.
pub struct ChapterProps {
    pub id: String,
    pub fullname: String,
}

/// One page of the feed: its chapters, and where the page stands in the
/// whole listing.
#[derive(Debug)]
pub struct ChaptersResponse {
    pub chapters: Vec<Chapter>,
    pub limit: u32,
    pub offset: u32,
    pub total: u32,
}

/// A chapter.
#[derive(Debug)]
pub struct Chapter {
    pub id: String,
    pub chapter: String,
    pub volume: Option<String>,
    pub title: Option<String>,
    pub scan_group: Option<ScanGroup>,
    pub pages: u32,
    pub external_url: Option<String>,
}

/// The group that scanlated a chapter.
#[derive(Debug)]
pub struct ScanGroup {
    pub name: String,
    pub id: String,
    pub website: Option<String>,
    pub description: Option<String>,
}

/// Whether a relationship names a scanlation group: it is of that type and
/// carries a name.
pub open spec fn is_scan_group(rel: ChapterRelationship) -> bool {
    &&& rel.rel_type@ == SCANLATION_GROUP@
    &&& rel.attributes is Some
    &&& rel.attributes->0.name is Some
}

/// Whether none of the relationships names a scanlation group.
pub open spec fn no_scan_group(rels: Seq<ChapterRelationship>) -> bool {
    forall|i: int| 0 <= i < rels.len() ==> !is_scan_group(#[trigger] rels[i])
}

/// Whether `i` is the first relationship that names a scanlation group.
pub open spec fn is_first_scan_group(rels: Seq<ChapterRelationship>, i: int) -> bool {
    &&& 0 <= i < rels.len()
    &&& is_scan_group(rels[i])
    &&& no_scan_group(rels.take(i))
}

impl ScanGroup {
    /// Whether this is the group that the relationship names.
    pub open spec fn is_named_by(&self, rel: ChapterRelationship) -> bool {
        &&& is_scan_group(rel)
        &&& self.id@ == rel.id@
        &&& self.name@ == rel.attributes->0.name->0@
        &&& opt_chars(self.website) == opt_chars(rel.attributes->0.website)
        &&& opt_chars(self.description) == opt_chars(rel.attributes->0.description)
    }

    /// Whether this is the group of a chapter with these relationships: the
    /// one that the first of them that names a group names.
    pub open spec fn is_group_of(&self, rels: Seq<ChapterRelationship>) -> bool {
        exists|i: int| is_first_scan_group(rels, i) && self.is_named_by(#[trigger] rels[i])
    }

    /// The scanlation group of a chapter: the first of its relationships that
    /// is of the group type and carries a name, with the website and the
    /// description where it carries them. Fails where there is none.
    pub fn try_from(data: &FeedData) -> (group: Result<ScanGroup, ()>)
        ensures
            match group {
                Ok(g) => g.is_group_of(data.relationships@),
                Err(_) => no_scan_group(data.relationships@),
            },
    {
        let rels = &data.relationships;
        let mut i: usize = 0;
        while i < rels.len()
            invariant
                i <= rels@.len(),
                rels@ == data.relationships@,
                no_scan_group(rels@.take(i as int)),
            decreases rels@.len() - i,
        {
            let rel = &rels[i];
            if str_eq(rel.rel_type.as_str(), SCANLATION_GROUP) {
                match &rel.attributes {
                    Some(attributes) => match &attributes.name {
                        Some(name) => {
                            let group = ScanGroup {
                                id: rel.id.clone(),
                                name: name.clone(),
                                website: clone_opt(&attributes.website),
                                description: clone_opt(&attributes.description),
                            };
                            assert(is_first_scan_group(rels@, i as int));
                            assert(group.is_named_by(rels@[i as int]));
                            return Ok(group);
                        },
                        None => {},
                    },
                    None => {},
                }
            }
            assert(!is_scan_group(rels@[i as int]));
            assert forall|k: int| 0 <= k < i + 1 implies !is_scan_group(
                #[trigger] rels@.take(i + 1)[k],
            ) by {
                if k < i {
                    assert(rels@.take(i + 1)[k] == rels@.take(i as int)[k]);
                }
            }
            i += 1;
        }
        assert(rels@.take(i as int) =~= rels@);
        Err(())
    }
}

impl Chapter {
    /// Whether this is the chapter that the feed entry describes.
    pub open spec fn describes(&self, data: FeedData) -> bool {
        &&& self.id@ == data.id@
        &&& self.chapter@ == data.attributes.chapter@
        &&& opt_chars(self.volume) == opt_chars(data.attributes.volume)
        &&& opt_chars(self.title) == opt_chars(data.attributes.title)
        &&& self.pages == data.attributes.pages
        &&& opt_chars(self.external_url) == opt_chars(data.attributes.external_url)
        &&& match self.scan_group {
            Some(g) => g.is_group_of(data.relationships@),
            None => no_scan_group(data.relationships@),
        }
    }

    /// The chapter that a feed entry describes, with its scanlation group
    /// where the entry names one.
    pub fn from(data: &FeedData) -> (chapter: Chapter)
        ensures
            chapter.describes(*data),
    {
        let scan_group = match ScanGroup::try_from(data) {
            Ok(g) => Some(g),
            Err(_) => None,
        };
        Chapter {
            id: data.id.clone(),
            chapter: data.attributes.chapter.clone(),
            volume: clone_opt(&data.attributes.volume),
            title: clone_opt(&data.attributes.title),
            pages: data.attributes.pages,
            external_url: clone_opt(&data.attributes.external_url),
            scan_group,
        }
    }
}

/// The failure that `ChaptersResponse::try_from` reports for an answer, or
/// `None` where the answer is good: the first of the paging numbers `limit`,
/// `offset` and `total` that is missing, else what keeps the data from being
/// had.
pub open spec fn feed_failure(value: ApiResponse<Vec<FeedData>>) -> Option<ServiceErrorView> {
    if value.limit is None {
        Some(ServiceErrorView::ApiError { errors: seq![missing_field("limit"@)], tag: FEED_TAG@ })
    } else if value.offset is None {
        Some(ServiceErrorView::ApiError { errors: seq![missing_field("offset"@)], tag: FEED_TAG@ })
    } else if value.total is None {
        Some(ServiceErrorView::ApiError { errors: seq![missing_field("total"@)], tag: FEED_TAG@ })
    } else if !(value.is_ok() && value.data is Some) {
        Some(ServiceErrorView::ApiError { errors: value.reported_errors(), tag: FEED_TAG@ })
    } else {
        None
    }
}

fn missing_in_feed(name: &str) -> (error: ServiceError)
    ensures
        error@ == (ServiceErrorView::ApiError { errors: seq![missing_field(name@)], tag: FEED_TAG@ }),
{
    let mut errors: Vec<ResponseError> = Vec::new();
    errors.push(ResponseError::missing(name));
    assert(errors_view(errors@) =~= seq![missing_field(name@)]);
    ServiceError::ApiError { errors, tag: FEED_TAG.to_owned() }
}

impl ChaptersResponse {
    /// Whether this is the page of the feed that the answer holds.
    pub open spec fn is_page_of(&self, value: ApiResponse<Vec<FeedData>>) -> bool {
        &&& value.limit == Some(self.limit)
        &&& value.offset == Some(self.offset)
        &&& value.total == Some(self.total)
        &&& value.data is Some
        &&& self.chapters@.len() == value.data->0@.len()
        &&& forall|i: int|
            0 <= i < self.chapters@.len() ==> (#[trigger] self.chapters@[i]).describes(
                value.data->0@[i],
            )
    }

    /// The page of the feed that an answer holds: its chapters in the
    /// answer's order, and its paging numbers. Fails as `feed_failure` says.
    pub fn try_from(value: ApiResponse<Vec<FeedData>>) -> (page: Result<
        ChaptersResponse,
        ServiceError,
    >)
        ensures
            match page {
                Ok(p) => feed_failure(value) is None && p.is_page_of(value),
                Err(e) => feed_failure(value) == Some(e@),
            },
    {
        let limit = match value.limit {
            Some(limit) => limit,
            None => {
                return Err(missing_in_feed("limit"));
            },
        };
        let offset = match value.offset {
            Some(offset) => offset,
            None => {
                return Err(missing_in_feed("offset"));
            },
        };
        let total = match value.total {
            Some(total) => total,
            None => {
                return Err(missing_in_feed("total"));
            },
        };
        let feed_data = match value.result(FEED_TAG) {
            Ok(feed_data) => feed_data,
            Err(error) => {
                return Err(error);
            },
        };
        let mut chapters: Vec<Chapter> = Vec::new();
        let mut i: usize = 0;
        while i < feed_data.len()
            invariant
                i <= feed_data@.len(),
                chapters@.len() == i,
                forall|k: int| 0 <= k < i ==> (#[trigger] chapters@[k]).describes(feed_data@[k]),
            decreases feed_data@.len() - i,
        {
            chapters.push(Chapter::from(&feed_data[i]));
            i += 1;
        }
        Ok(ChaptersResponse { chapters, limit, offset, total })
    }
}

} // verus!
