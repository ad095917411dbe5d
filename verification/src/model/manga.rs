//! A title with all that its own page shows.

use crate::model::manga_data::{find_related_name, first_name_of_type, MangaData};
use crate::model::manga_view::MangaView;
use crate::text::opt_chars;
use vstd::prelude::*;

verus! {

/// The relationship type of an author.
pub const AUTHOR: &'static str = "author";

/// A title as its own page shows it. The average score, which the catalogue
/// keeps apart from the title, is added by the caller.
#[derive(Debug)]
pub struct Manga {
    pub view: MangaView,
    pub year: Option<u32>,
    pub author: Option<String>,
}

impl Manga {
    /// What the page of a title shows: what a listing shows of it, the year
    /// it first appeared, and the name of its author, taken from the first
    /// author relationship that carries a name.
    pub fn new(data: &MangaData) -> (manga: Manga)
        ensures
            manga.view.shows(*data),
            manga.year == data.attributes.year,
            opt_chars(manga.author) == first_name_of_type(data.relationships@, AUTHOR@),
    {
        Manga {
            view: MangaView::from(data),
            year: data.attributes.year,
            author: find_related_name(&data.relationships, AUTHOR),
        }
    }
}

} // verus!
