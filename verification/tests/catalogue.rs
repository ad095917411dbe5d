use manga_fetcher::commands::CommandError;
use manga_fetcher::model::manga::Manga;
use manga_fetcher::model::manga_data::{
    MangaAttributes, MangaData, Relationship, RelationshipAttributes, Tag, TagAttributes,
    Translation,
};
use manga_fetcher::model::manga_view::{lang_code, MangaView};
use manga_fetcher::model::response::{ApiResponse, ResponseError, ServiceError};
use manga_fetcher::service::{
    aggregate_url, feed_url, get_manga, manga_url, search_results, search_url, statistics_url,
};

fn texts(pairs: &[(&str, &str)]) -> Vec<Translation> {
    pairs
        .iter()
        .map(|(lang, text)| Translation { lang: lang.to_string(), text: text.to_string() })
        .collect()
}

fn tag(group: &str, names: &[(&str, &str)]) -> Tag {
    Tag { attributes: TagAttributes { group: group.to_string(), name: texts(names) } }
}

fn related(rel_type: &str, file_name: Option<&str>, name: Option<&str>) -> Relationship {
    Relationship {
        rel_type: rel_type.to_string(),
        attributes: Some(RelationshipAttributes {
            file_name: file_name.map(|f| f.to_string()),
            name: name.map(|n| n.to_string()),
        }),
    }
}

fn title() -> MangaData {
    MangaData {
        id: "m-1".to_string(),
        attributes: MangaAttributes {
            status: "ongoing".to_string(),
            title: texts(&[("ja", "Nihongo"), ("en", "English")]),
            description: texts(&[("fr", "Une histoire"), ("de", "Eine Geschichte")]),
            translations: vec![
                "en".to_string(),
                "zh-hk".to_string(),
                "pt-br".to_string(),
                "fr".to_string(),
                "zh".to_string(),
                "-x".to_string(),
            ],
            year: Some(1999),
            tags: vec![
                tag("genre", &[("en", "Action")]),
                tag("theme", &[("en", "School")]),
                tag("genre", &[("ja", "no english name")]),
                tag("genre", &[("fr", "Drame"), ("en", "Drama")]),
            ],
        },
        relationships: vec![
            related("author", None, None),
            related("cover_art", Some("cover.png"), None),
            related("author", None, Some("First Author")),
            related("cover_art", Some("other.png"), None),
            related("author", None, Some("Second Author")),
        ],
    }
}

#[test]
fn view_prefers_english_and_falls_back_to_the_first_text() {
    let view = MangaView::from(&title());
    assert_eq!(view.id, "m-1");
    assert_eq!(view.status, "ongoing");
    assert_eq!(view.title, "English");
    assert_eq!(view.description, Some("Une histoire".to_string()));
}

#[test]
fn view_of_a_title_without_texts() {
    let mut data = title();
    data.attributes.title = vec![];
    data.attributes.description = vec![];
    let view = MangaView::from(&data);
    assert_eq!(view.title, "");
    assert_eq!(view.description, None);
}

#[test]
fn view_takes_the_cover_of_the_first_cover_relationship() {
    let view = MangaView::from(&title());
    assert_eq!(
        view.cover_url,
        Some("https://uploads.mangadex.org/covers/m-1/cover.png.512.jpg".to_string())
    );

    let mut data = title();
    data.relationships = vec![
        Relationship { rel_type: "cover_art".to_string(), attributes: None },
        related("cover_art", Some("late.png"), None),
    ];
    assert_eq!(MangaView::from(&data).cover_url, None);

    data.relationships = vec![related("author", Some("not-a-cover.png"), Some("x"))];
    assert_eq!(MangaView::from(&data).cover_url, None);
}

#[test]
fn view_lists_the_genres_that_have_an_english_name() {
    let view = MangaView::from(&title());
    assert_eq!(view.genres, vec!["Action".to_string(), "Drama".to_string()]);
}

#[test]
fn view_lists_the_flags_of_the_translations() {
    let view = MangaView::from(&title());
    assert_eq!(view.lang_codes, vec!["gb", "cn", "pt", "fr", "cn", ""]);
}

#[test]
fn lang_code_cuts_at_the_first_dash() {
    assert_eq!(lang_code("en"), "gb");
    assert_eq!(lang_code("en-us"), "gb");
    assert_eq!(lang_code("zh"), "cn");
    assert_eq!(lang_code("es-la-x"), "es");
    assert_eq!(lang_code("eng"), "eng");
    assert_eq!(lang_code(""), "");
}

#[test]
fn manga_takes_the_first_author_with_a_name() {
    let manga = Manga::new(&title());
    assert_eq!(manga.author, Some("First Author".to_string()));
    assert_eq!(manga.year, Some(1999));
    assert_eq!(manga.view.title, "English");

    let mut data = title();
    data.relationships = vec![related("artist", None, Some("An Artist"))];
    assert_eq!(Manga::new(&data).author, None);
}

#[test]
fn search_url_refuses_the_empty_query() {
    match search_url("") {
        Err(ServiceError::InvalidArguments(text)) => assert_eq!(text, "query is empty"),
        _ => panic!("an empty query must be refused"),
    }
    assert_eq!(
        search_url("one piece").ok().unwrap(),
        "https://api.mangadex.org/manga?title=one piece&includes[]=cover_art&limit=5"
    );
}

#[test]
fn request_urls() {
    assert_eq!(
        manga_url("abc"),
        "https://api.mangadex.org/manga/abc?includes[]=author&includes[]=cover_art"
    );
    assert_eq!(statistics_url("abc"), "https://api.mangadex.org/statistics/manga/abc");
    assert_eq!(
        feed_url("abc", "en", 100, 0),
        "https://api.mangadex.org/manga/abc/feed?limit=100&offset=0&translatedLanguage[]=en&includes[]=scanlation_group&order[volume]=asc&order[chapter]=asc"
    );
    assert_eq!(
        feed_url("abc", "pt-br", 4294967295, 1234567890),
        "https://api.mangadex.org/manga/abc/feed?limit=4294967295&offset=1234567890&translatedLanguage[]=pt-br&includes[]=scanlation_group&order[volume]=asc&order[chapter]=asc"
    );
    assert_eq!(
        aggregate_url("abc", "en"),
        "https://api.mangadex.org/manga/abc/aggregate?translatedLanguage[]=en"
    );
}

#[test]
fn search_results_show_every_title_in_order() {
    let mut second = title();
    second.id = "m-2".to_string();
    let answer = ApiResponse {
        result: "ok".to_string(),
        data: Some(vec![title(), second]),
        errors: None,
        limit: None,
        offset: None,
        total: None,
    };
    let views = search_results(answer).ok().unwrap();
    assert_eq!(views.len(), 2);
    assert_eq!(views[0].id, "m-1");
    assert_eq!(views[1].id, "m-2");
}

#[test]
fn failed_answers_fail_under_the_tag_of_the_call() {
    let answer: ApiResponse<Vec<MangaData>> = ApiResponse {
        result: "error".to_string(),
        data: None,
        errors: None,
        limit: None,
        offset: None,
        total: None,
    };
    match search_results(answer) {
        Err(ServiceError::ApiError { tag, .. }) => assert_eq!(tag, "search"),
        _ => panic!("a failed answer must fail the search"),
    }
    let answer: ApiResponse<MangaData> = ApiResponse {
        result: "error".to_string(),
        data: None,
        errors: None,
        limit: None,
        offset: None,
        total: None,
    };
    match get_manga(answer) {
        Err(ServiceError::ApiError { tag, .. }) => assert_eq!(tag, "fetch_manga"),
        _ => panic!("a failed answer must fail the request"),
    }
}

#[test]
fn get_manga_of_a_good_answer() {
    let answer = ApiResponse {
        result: "ok".to_string(),
        data: Some(title()),
        errors: None,
        limit: None,
        offset: None,
        total: None,
    };
    let manga = get_manga(answer).ok().unwrap();
    assert_eq!(manga.view.id, "m-1");
    assert_eq!(manga.author, Some("First Author".to_string()));
}

#[test]
fn service_errors_in_words() {
    assert_eq!(
        ServiceError::InvalidArguments("query is empty".to_string()).message(),
        "invalid arguments: query is empty"
    );
    assert_eq!(ServiceError::HttpError("timed out".to_string()).message(), "failed http requests");
    assert_eq!(
        ServiceError::Internal("disk full".to_string()).message(),
        "something went wrong: disk full"
    );
    let api = ServiceError::ApiError {
        errors: vec![
            ResponseError::new(404, "not found", "no such title"),
            ResponseError::new(500, "oops", "again"),
        ],
        tag: "feed".to_string(),
    };
    assert_eq!(
        api.message(),
        "failed call to api \"feed\", errors: 404 not found: no such title;500 oops: again;"
    );
}

#[test]
fn command_errors_keep_bad_arguments_and_wrap_the_rest() {
    match CommandError::from(ServiceError::InvalidArguments("query is empty".to_string())) {
        CommandError::InvalidArguments(text) => assert_eq!(text, "query is empty"),
        _ => panic!("bad arguments stay bad arguments"),
    }
    match CommandError::from(ServiceError::Internal("disk full".to_string())) {
        CommandError::Internal(text) => assert_eq!(text, "something went wrong: disk full"),
        _ => panic!("an internal error stays internal"),
    }
    match CommandError::from(ServiceError::HttpError("reset".to_string())) {
        CommandError::Internal(text) => assert_eq!(text, "failed http requests"),
        _ => panic!("a transport error becomes internal"),
    }
}
