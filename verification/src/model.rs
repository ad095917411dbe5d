//! The catalogue's data: what its endpoints answer, and what this library
//! makes of it for display.

pub mod aggregate;
pub mod at_home;
pub mod chapter;
pub mod feed_data;
pub mod manga;
pub mod manga_data;
pub mod manga_view;
pub mod response;

pub use aggregate::{AggregateResponse, ChapterAggregate, VolumeAggregate};
pub use at_home::{AtHomeResponse, ChapterData};
pub use chapter::{Chapter, ChapterProps, ChaptersResponse, ScanGroup};
pub use feed_data::{
    ChapterAttributes, ChapterRelationship, ChapterRelationshipAttributes, FeedData,
};
pub use manga::Manga;
pub use manga_data::{
    MangaAttributes, MangaData, Relationship, RelationshipAttributes, Tag, TagAttributes,
    Translation,
};
pub use manga_view::MangaView;
pub use response::{ApiResponse, ResponseError, ServiceError};
