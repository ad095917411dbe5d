//! The catalogue's endpoints: the URL of each request, and what is made of
//! each answer. Sending the requests is left to the caller.

use crate::model::chapter::{feed_failure, ChaptersResponse};
use crate::model::feed_data::FeedData;
use crate::model::manga::Manga;
use crate::model::manga_data::{first_name_of_type, MangaData};
use crate::model::manga_view::MangaView;
use crate::model::response::{ApiResponse, ServiceError, ServiceErrorView};
use crate::session::MANGADEX_API;
use crate::text::{decimal, opt_chars, push_zero_padded};
use vstd::prelude::*;

verus! {

/// The tag under which failures of a search are reported.
pub const SEARCH_TAG: &'static str = "search";

/// The tag under which failures of fetching a title are reported.
pub const MANGA_TAG: &'static str = "fetch_manga";

/// What a search with an empty query is refused with.
pub const EMPTY_QUERY: &'static str = "query is empty";

/// The URL of a search for titles.
pub open spec fn search_url_of(query: Seq<char>) -> Seq<char> {
    MANGADEX_API@ + "/manga?title="@ + query + "&includes[]=cover_art&limit=5"@
}

/// The URL of a title with its author and cover.
pub open spec fn manga_url_of(id: Seq<char>) -> Seq<char> {
    MANGADEX_API@ + "/manga/"@ + id + "?includes[]=author&includes[]=cover_art"@
}

/// The URL of the statistics of a title.
pub open spec fn statistics_url_of(id: Seq<char>) -> Seq<char> {
    MANGADEX_API@ + "/statistics/manga/"@ + id
}

/// The URL of one page of the feed of a title: `limit` chapters from
/// `offset` on, in the language `lang`, by volume and chapter.
pub open spec fn feed_url_of(id: Seq<char>, lang: Seq<char>, limit: u32, offset: u32) -> Seq<char> {
    MANGADEX_API@ + "/manga/"@ + id + "/feed?limit="@ + decimal(limit as nat) + "&offset="@
        + decimal(offset as nat) + "&translatedLanguage[]="@ + lang
        + "&includes[]=scanlation_group&order[volume]=asc&order[chapter]=asc"@
}

/// The URL of the chapters of a title in the language `lang`, by volume.
pub open spec fn aggregate_url_of(id: Seq<char>, lang: Seq<char>) -> Seq<char> {
    MANGADEX_API@ + "/manga/"@ + id + "/aggregate?translatedLanguage[]="@ + lang
}

/// The URL of a search for `query`. An empty query is refused.
pub fn search_url(query: &str) -> (url: Result<String, ServiceError>)
    ensures
        match url {
            Ok(u) => query@.len() > 0 && u@ == search_url_of(query@),
            Err(e) => query@.len() == 0 && e@ == ServiceErrorView::InvalidArguments(EMPTY_QUERY@),
        },
{
    if query.is_empty() {
        return Err(ServiceError::InvalidArguments(EMPTY_QUERY.to_owned()));
    }
    let mut url = String::new();
    url.append(MANGADEX_API);
    url.append("/manga?title=");
    url.append(query);
    url.append("&includes[]=cover_art&limit=5");
    assert(url@ =~= search_url_of(query@));
    Ok(url)
}

/// The URL from which a title is fetched.
pub fn manga_url(id: &str) -> (url: String)
    ensures
        url@ == manga_url_of(id@),
{
    let mut url = String::new();
    url.append(MANGADEX_API);
    url.append("/manga/");
    url.append(id);
    url.append("?includes[]=author&includes[]=cover_art");
    assert(url@ =~= manga_url_of(id@));
    url
}

/// The URL from which the statistics of a title are fetched.
pub fn statistics_url(id: &str) -> (url: String)
    ensures
        url@ == statistics_url_of(id@),
{
    let mut url = String::new();
    url.append(MANGADEX_API);
    url.append("/statistics/manga/");
    url.append(id);
    assert(url@ =~= statistics_url_of(id@));
    url
}

/// The URL from which one page of the feed of a title is fetched.
pub fn feed_url(id: &str, lang: &str, limit: u32, offset: u32) -> (url: String)
    ensures
        url@ == feed_url_of(id@, lang@, limit, offset),
{
    let mut url = String::new();
    url.append(MANGADEX_API);
    url.append("/manga/");
    url.append(id);
    url.append("/feed?limit=");
    push_zero_padded(&mut url, limit as usize, 0);
    url.append("&offset=");
    push_zero_padded(&mut url, offset as usize, 0);
    url.append("&translatedLanguage[]=");
    url.append(lang);
    url.append("&includes[]=scanlation_group&order[volume]=asc&order[chapter]=asc");
    assert(url@ =~= feed_url_of(id@, lang@, limit, offset));
    url
}

/// The URL from which the chapters of a title are fetched, by volume.
pub fn aggregate_url(id: &str, lang: &str) -> (url: String)
    ensures
        url@ == aggregate_url_of(id@, lang@),
{
    let mut url = String::new();
    url.append(MANGADEX_API);
    url.append("/manga/");
    url.append(id);
    url.append("/aggregate?translatedLanguage[]=");
    url.append(lang);
    assert(url@ =~= aggregate_url_of(id@, lang@));
    url
}

/// What a search found: what a listing shows of each title of the answer, in
/// the answer's order. An answer without usable data fails as
/// `ApiResponse::result` says, under the tag of the search.
pub fn search_results(response: ApiResponse<Vec<MangaData>>) -> (found: Result<
    Vec<MangaView>,
    ServiceError,
>)
    ensures
        match found {
            Ok(views) => {
                &&& response.is_ok()
                &&& response.data is Some
                &&& views@.len() == response.data->0@.len()
                &&& forall|i: int|
                    0 <= i < views@.len() ==> (#[trigger] views@[i]).shows(response.data->0@[i])
            },
            Err(e) => !(response.is_ok() && response.data is Some) && e@ == (
            ServiceErrorView::ApiError { errors: response.reported_errors(), tag: SEARCH_TAG@ }),
        },
{
    let titles = match response.result(SEARCH_TAG) {
        Ok(titles) => titles,
        Err(error) => {
            return Err(error);
        },
    };
    let mut views: Vec<MangaView> = Vec::new();
    let mut i: usize = 0;
    while i < titles.len()
        invariant
            i <= titles@.len(),
            views@.len() == i,
            forall|k: int| 0 <= k < i ==> (#[trigger] views@[k]).shows(titles@[k]),
        decreases titles@.len() - i,
    {
        views.push(MangaView::from(&titles[i]));
        i += 1;
    }
    Ok(views)
}

/// The page of a title, from the answer to the request for it. An answer
/// without usable data fails as `ApiResponse::result` says, under the tag of
/// the request.
pub fn get_manga(response: ApiResponse<MangaData>) -> (manga: Result<Manga, ServiceError>)
    ensures
        match manga {
            Ok(m) => {
                &&& response.is_ok()
                &&& response.data is Some
                &&& m.view.shows(response.data->0)
                &&& m.year == response.data->0.attributes.year
                &&& opt_chars(m.author) == first_name_of_type(
                    response.data->0.relationships@,
                    crate::model::manga::AUTHOR@,
                )
            },
            Err(e) => !(response.is_ok() && response.data is Some) && e@ == (
            ServiceErrorView::ApiError { errors: response.reported_errors(), tag: MANGA_TAG@ }),
        },
{
    match response.result(MANGA_TAG) {
        Ok(data) => Ok(Manga::new(&data)),
        Err(error) => Err(error),
    }
}

/// One page of the feed of a title, from the answer to the request for it.
pub fn fetch_feed(response: ApiResponse<Vec<FeedData>>) -> (page: Result<
    ChaptersResponse,
    ServiceError,
>)
    ensures
        match page {
            Ok(p) => feed_failure(response) is None && p.is_page_of(response),
            Err(e) => feed_failure(response) == Some(e@),
        },
{
    ChaptersResponse::try_from(response)
}

} // verus!
