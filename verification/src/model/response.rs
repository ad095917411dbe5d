//! The envelope of the catalogue's answers, and the errors of this library.

use crate::text::join2;
use vstd::prelude::*;

verus! {

/// The `result` value with which the catalogue marks a good answer.
pub const RESULT_OK: &'static str = "ok";

/// One error as the catalogue reports it.
#[derive(Debug)]
pub struct ResponseError {
    pub id: String,
    pub status: u32,
    pub title: String,
    pub detail: String,
}

/// A `ResponseError` as plain values.
pub struct ResponseErrorView {
    pub id: Seq<char>,
    pub status: u32,
    pub title: Seq<char>,
    pub detail: Seq<char>,
}

impl View for ResponseError {
    type V = ResponseErrorView;

    open spec fn view(&self) -> ResponseErrorView {
        ResponseErrorView {
            id: self.id@,
            status: self.status,
            title: self.title@,
            detail: self.detail@,
        }
    }
}

/// The error that stands in where the catalogue reported a failure without
/// saying which.
pub open spec fn unknown_error() -> ResponseErrorView {
    ResponseErrorView {
        id: Seq::empty(),
        status: 500,
        title: "unknown error"@,
        detail: "something went wrong"@,
    }
}

/// The error for an answer that lacks the field `name`.
pub open spec fn missing_field(name: Seq<char>) -> ResponseErrorView {
    ResponseErrorView {
        id: Seq::empty(),
        status: 500,
        title: "not enough data fetcher"@,
        detail: name + " was not provided by API"@,
    }
}

impl ResponseError {
    /// An error with the given status, title and detail, and no id.
    pub fn new(status: u32, title: &str, detail: &str) -> (error: ResponseError)
        ensures
            error@ == (ResponseErrorView {
                id: Seq::empty(),
                status,
                title: title@,
                detail: detail@,
            }),
    {
        ResponseError {
            id: String::new(),
            status,
            title: title.to_owned(),
            detail: detail.to_owned(),
        }
    }

    /// The error for an answer that lacks the field `name`.
    pub fn missing(name: &str) -> (error: ResponseError)
        ensures
            error@ == missing_field(name@),
    {
        let detail = join2(name, " was not provided by API");
        ResponseError::new(500, "not enough data fetcher", detail.as_str())
    }
}

impl Default for ResponseError {
    fn default() -> (error: ResponseError)
        ensures
            error@ == unknown_error(),
    {
        ResponseError::new(500, "unknown error", "something went wrong")
    }
}

/// The views of a list of errors.
pub open spec fn errors_view(errors: Seq<ResponseError>) -> Seq<ResponseErrorView> {
    errors.map_values(|e: ResponseError| e@)
}

/// What can go wrong in this library's dealings with the catalogue.
pub enum ServiceError {
    /// The caller's arguments are not usable.
    InvalidArguments(String),
    /// The catalogue answered with errors, or with an answer that lacks what
    /// was asked for. `tag` names the call.
    ApiError { errors: Vec<ResponseError>, tag: String },
    /// A request failed in transport. The text is that of the transport error.
    HttpError(String),
    /// Anything else.
    Internal(String),
}

/// A `ServiceError` as plain values.
pub enum ServiceErrorView {
    InvalidArguments(Seq<char>),
    ApiError { errors: Seq<ResponseErrorView>, tag: Seq<char> },
    HttpError(Seq<char>),
    Internal(Seq<char>),
}

impl View for ServiceError {
    type V = ServiceErrorView;

    open spec fn view(&self) -> ServiceErrorView {
        match self {
            ServiceError::InvalidArguments(text) => ServiceErrorView::InvalidArguments(text@),
            ServiceError::ApiError { errors, tag } => ServiceErrorView::ApiError {
                errors: errors_view(errors@),
                tag: tag@,
            },
            ServiceError::HttpError(text) => ServiceErrorView::HttpError(text@),
            ServiceError::Internal(text) => ServiceErrorView::Internal(text@),
        }
    }
}

/// An answer of the catalogue: a result marker, and then either the data
/// asked for or the errors. Listings carry paging numbers too.
pub struct ApiResponse<T> {
    pub result: String,
    pub data: Option<T>,
    pub errors: Option<Vec<ResponseError>>,
    pub limit: Option<u32>,
    pub offset: Option<u32>,
    pub total: Option<u32>,
}

impl<T> ApiResponse<T> {
    /// Whether the answer is marked as good.
    pub open spec fn is_ok(&self) -> bool {
        self.result@ == RESULT_OK@
    }

    /// The errors that `result` reports for an answer that is not usable.
    pub open spec fn reported_errors(&self) -> Seq<ResponseErrorView> {
        if self.is_ok() {
            seq![missing_field("data"@)]
        } else {
            match self.errors {
                Some(errors) => errors_view(errors@),
                None => seq![unknown_error()],
            }
        }
    }

    /// The data of the answer. An answer that is not marked as good gives an
    /// `ApiError` under `tag` with the errors it carries, or with one unknown
    /// error where it carries none. An answer that is marked as good and has
    /// no data gives an `ApiError` that says so.
    pub fn result(self, tag: &str) -> (data: Result<T, ServiceError>)
        ensures
            self.is_ok() && self.data is Some ==> data == Ok::<T, ServiceError>(self.data->0),
            !(self.is_ok() && self.data is Some) ==> data is Err && data->Err_0@ == (
            ServiceErrorView::ApiError { errors: self.reported_errors(), tag: tag@ }),
    {
        let ok = crate::text::str_eq(self.result.as_str(), RESULT_OK);
        if ok {
            match self.data {
                Some(data) => Ok(data),
                None => {
                    let mut errors: Vec<ResponseError> = Vec::new();
                    errors.push(ResponseError::missing("data"));
                    assert(errors_view(errors@) =~= seq![missing_field("data"@)]);
                    Err(ServiceError::ApiError { errors, tag: tag.to_owned() })
                },
            }
        } else {
            let errors = match self.errors {
                Some(errors) => errors,
                None => {
                    let mut errors: Vec<ResponseError> = Vec::new();
                    errors.push(ResponseError::default());
                    assert(errors_view(errors@) =~= seq![unknown_error()]);
                    errors
                },
            };
            Err(ServiceError::ApiError { errors, tag: tag.to_owned() })
        }
    }
}

} // verus!
