use manga_fetcher::model::{
    ApiResponse, Chapter, ChapterAttributes, ChapterRelationship, ChapterRelationshipAttributes,
    ChaptersResponse, FeedData, ResponseError, ScanGroup, ServiceError,
};

fn create_scan_group_feed(
    name: Option<String>,
    description: Option<String>,
    website: Option<String>,
) -> FeedData {
    FeedData {
        id: "id".to_string(),
        attributes: ChapterAttributes {
            chapter: "".to_string(),
            pages: 0,
            external_url: None,
            title: None,
            volume: None,
        },
        relationships: vec![ChapterRelationship {
            id: "id".to_string(),
            rel_type: "scanlation_group".to_string(),
            attributes: Some(ChapterRelationshipAttributes {
                name,
                description,
                website,
            }),
        }],
    }
}

fn relationship(id: &str, rel_type: &str, name: Option<&str>) -> ChapterRelationship {
    ChapterRelationship {
        id: id.to_string(),
        rel_type: rel_type.to_string(),
        attributes: Some(ChapterRelationshipAttributes {
            name: name.map(|n| n.to_string()),
            description: None,
            website: None,
        }),
    }
}

fn feed_entry(id: &str, relationships: Vec<ChapterRelationship>) -> FeedData {
    FeedData {
        id: id.to_string(),
        attributes: ChapterAttributes {
            chapter: "12".to_string(),
            pages: 24,
            external_url: Some("https://example.org/read".to_string()),
            title: Some("The Title".to_string()),
            volume: Some("3".to_string()),
        },
        relationships,
    }
}

fn feed_answer(result: &str, data: Option<Vec<FeedData>>) -> ApiResponse<Vec<FeedData>> {
    ApiResponse {
        result: result.to_string(),
        data,
        errors: None,
        limit: Some(10),
        offset: Some(20),
        total: Some(300),
    }
}

fn api_error(error: ServiceError) -> (Vec<ResponseError>, String) {
    match error {
        ServiceError::ApiError { errors, tag } => (errors, tag),
        other => panic!("not an api error: {}", other.message()),
    }
}

#[test]
fn empty_scan_group() {
    let name = "scan_group_name";

    let feed_data = create_scan_group_feed(Some(name.to_string()), None, None);
    let scan_group = ScanGroup::try_from(&feed_data).ok();

    assert!(scan_group.is_some());

    let unwrapped = scan_group.as_ref().unwrap();

    assert_eq!(unwrapped.name, name.to_string());
    assert_eq!(unwrapped.website, None);
    assert_eq!(unwrapped.description, None);
}

#[test]
fn no_scan_group() {
    let feed_data = create_scan_group_feed(None, None, None);
    let scan_group = ScanGroup::try_from(&feed_data).ok();

    assert!(scan_group.is_none());
}

#[test]
fn full_scan_group() {
    let name = "scan_group_name";
    let website = "some_url";
    let description = "scan_group_description";

    let feed_data = create_scan_group_feed(
        Some(name.to_string()),
        Some(description.to_string()),
        Some(website.to_string()),
    );
    let scan_group = ScanGroup::try_from(&feed_data).ok();

    assert!(scan_group.is_some());

    let unwrapped = scan_group.as_ref().unwrap();

    assert_eq!(unwrapped.name, name.to_string());
    assert_eq!(unwrapped.website, Some(website.to_string()));
    assert_eq!(unwrapped.description, Some(description.to_string()));
}

#[test]
fn scan_group_is_the_first_that_carries_a_name() {
    let feed_data = feed_entry(
        "chapter",
        vec![
            relationship("u1", "user", Some("uploader")),
            relationship("g0", "scanlation_group", None),
            ChapterRelationship {
                id: "g1".to_string(),
                rel_type: "scanlation_group".to_string(),
                attributes: None,
            },
            relationship("g2", "scanlation_group", Some("second")),
            relationship("g3", "scanlation_group", Some("third")),
        ],
    );
    let group = ScanGroup::try_from(&feed_data).unwrap();
    assert_eq!(group.id, "g2");
    assert_eq!(group.name, "second");
}

#[test]
fn scan_group_needs_its_relationship_type() {
    let feed_data = feed_entry("chapter", vec![relationship("u1", "user", Some("uploader"))]);
    assert!(ScanGroup::try_from(&feed_data).is_err());
    let none = feed_entry("chapter", vec![]);
    assert!(ScanGroup::try_from(&none).is_err());
}

#[test]
fn chapter_takes_over_the_feed_entry() {
    let feed_data = feed_entry("c-1", vec![relationship("g", "scanlation_group", Some("group"))]);
    let chapter = Chapter::from(&feed_data);
    assert_eq!(chapter.id, "c-1");
    assert_eq!(chapter.chapter, "12");
    assert_eq!(chapter.volume, Some("3".to_string()));
    assert_eq!(chapter.title, Some("The Title".to_string()));
    assert_eq!(chapter.pages, 24);
    assert_eq!(chapter.external_url, Some("https://example.org/read".to_string()));
    assert_eq!(chapter.scan_group.unwrap().name, "group");

    let lonely = Chapter::from(&feed_entry("c-2", vec![]));
    assert!(lonely.scan_group.is_none());
}

#[test]
fn feed_page_keeps_order_and_paging() {
    let answer = feed_answer(
        "ok",
        Some(vec![feed_entry("a", vec![]), feed_entry("b", vec![]), feed_entry("c", vec![])]),
    );
    let page = ChaptersResponse::try_from(answer).ok().unwrap();
    assert_eq!(page.limit, 10);
    assert_eq!(page.offset, 20);
    assert_eq!(page.total, 300);
    let ids: Vec<&str> = page.chapters.iter().map(|c| c.id.as_str()).collect();
    assert_eq!(ids, vec!["a", "b", "c"]);
}

#[test]
fn feed_page_names_the_first_missing_number() {
    let mut answer = feed_answer("ok", Some(vec![]));
    answer.offset = None;
    answer.total = None;
    let (errors, tag) = api_error(ChaptersResponse::try_from(answer).err().unwrap());
    assert_eq!(tag, "feed");
    assert_eq!(errors.len(), 1);
    assert_eq!(errors[0].status, 500);
    assert_eq!(errors[0].title, "not enough data fetcher");
    assert_eq!(errors[0].detail, "offset was not provided by API");

    let mut answer = feed_answer("error", None);
    answer.limit = None;
    let (errors, _) = api_error(ChaptersResponse::try_from(answer).err().unwrap());
    assert_eq!(errors[0].detail, "limit was not provided by API");

    let mut answer = feed_answer("ok", Some(vec![]));
    answer.total = None;
    let (errors, _) = api_error(ChaptersResponse::try_from(answer).err().unwrap());
    assert_eq!(errors[0].detail, "total was not provided by API");
}

#[test]
fn feed_page_hands_on_the_errors_of_the_answer() {
    let mut answer = feed_answer("error", None);
    answer.errors = Some(vec![ResponseError::new(404, "not found", "no such title")]);
    let (errors, tag) = api_error(ChaptersResponse::try_from(answer).err().unwrap());
    assert_eq!(tag, "feed");
    assert_eq!(errors.len(), 1);
    assert_eq!(errors[0].status, 404);
    assert_eq!(errors[0].title, "not found");
    assert_eq!(errors[0].detail, "no such title");
}

#[test]
fn result_gives_the_data_of_a_good_answer() {
    let answer: ApiResponse<u32> = ApiResponse {
        result: "ok".to_string(),
        data: Some(7),
        errors: None,
        limit: None,
        offset: None,
        total: None,
    };
    assert_eq!(answer.result("tag").ok(), Some(7));
}

#[test]
fn result_of_a_good_answer_without_data_is_an_error() {
    let answer: ApiResponse<u32> = ApiResponse {
        result: "ok".to_string(),
        data: None,
        errors: None,
        limit: None,
        offset: None,
        total: None,
    };
    let (errors, tag) = api_error(answer.result("search").err().unwrap());
    assert_eq!(tag, "search");
    assert_eq!(errors.len(), 1);
    assert_eq!(errors[0].detail, "data was not provided by API");
}

#[test]
fn result_of_a_failed_answer_without_errors_is_the_unknown_error() {
    let answer: ApiResponse<u32> = ApiResponse {
        result: "error".to_string(),
        data: Some(7),
        errors: None,
        limit: None,
        offset: None,
        total: None,
    };
    let (errors, tag) = api_error(answer.result("fetch_manga").err().unwrap());
    assert_eq!(tag, "fetch_manga");
    assert_eq!(errors.len(), 1);
    assert_eq!(errors[0].id, "");
    assert_eq!(errors[0].status, 500);
    assert_eq!(errors[0].title, "unknown error");
    assert_eq!(errors[0].detail, "something went wrong");
}

#[test]
fn response_error_new_and_default() {
    let error = ResponseError::new(418, "teapot", "short and stout");
    assert_eq!(error.id, "");
    assert_eq!(error.status, 418);
    assert_eq!(error.title, "teapot");
    assert_eq!(error.detail, "short and stout");

    let unknown = ResponseError::default();
    assert_eq!(unknown.status, 500);
    assert_eq!(unknown.title, "unknown error");
}
