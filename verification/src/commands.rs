//! What the commands of the application answer with when they fail.

use crate::model::response::{
    ResponseError, ResponseErrorView, ServiceError, ServiceErrorView,
};
use crate::text::{decimal, push_zero_padded};
use vstd::prelude::*;

verus! {

/// The failure of a command, as the caller of the application sees it.
#[derive(Debug)]
pub enum CommandError {
    /// The arguments of the command are not usable.
    InvalidArguments(String),
    /// The command failed inside the application.
    Internal(String),
}

/// A `CommandError` as plain values.
pub enum CommandErrorView {
    InvalidArguments(Seq<char>),
    Internal(Seq<char>),
}

impl View for CommandError {
    type V = CommandErrorView;

    open spec fn view(&self) -> CommandErrorView {
        match self {
            CommandError::InvalidArguments(text) => CommandErrorView::InvalidArguments(text@),
            CommandError::Internal(text) => CommandErrorView::Internal(text@),
        }
    }
}

/// One reported error in words: its status and title, then its detail.
pub open spec fn error_text(error: ResponseErrorView) -> Seq<char> {
    decimal(error.status as nat) + " "@ + error.title + ": "@ + error.detail
}

/// A list of reported errors in words, each closed by a semicolon.
pub open spec fn errors_text(errors: Seq<ResponseErrorView>) -> Seq<char>
    decreases errors.len(),
{
    if errors.len() == 0 {
        Seq::empty()
    } else {
        errors_text(errors.drop_last()) + error_text(errors.last()) + ";"@
    }
}

/// A service error in words.
pub open spec fn message_of(error: ServiceErrorView) -> Seq<char> {
    match error {
        ServiceErrorView::InvalidArguments(text) => "invalid arguments: "@ + text,
        ServiceErrorView::ApiError { errors, tag } => "failed call to api \""@ + tag
            + "\", errors: "@ + errors_text(errors),
        ServiceErrorView::HttpError(_) => "failed http requests"@,
        ServiceErrorView::Internal(text) => "something went wrong: "@ + text,
    }
}

/// The command error that a service error becomes: unusable arguments stay
/// what they are, and everything else is an internal failure that carries
/// the service error in words.
pub open spec fn command_error_of(error: ServiceErrorView) -> CommandErrorView {
    match error {
        ServiceErrorView::InvalidArguments(text) => CommandErrorView::InvalidArguments(text),
        _ => CommandErrorView::Internal(message_of(error)),
    }
}

fn push_errors(out: &mut String, errors: &Vec<ResponseError>)
    ensures
        final(out)@ == old(out)@ + errors_text(crate::model::response::errors_view(errors@)),
{
    let ghost start = out@;
    let ghost views = crate::model::response::errors_view(errors@);
    let mut i: usize = 0;
    assert(out@ =~= start + errors_text(views.take(0)));
    while i < errors.len()
        invariant
            i <= errors@.len(),
            views == crate::model::response::errors_view(errors@),
            out@ == start + errors_text(views.take(i as int)),
        decreases errors@.len() - i,
    {
        let error = &errors[i];
        let ghost before = out@;
        push_zero_padded(out, error.status as usize, 0);
        out.append(" ");
        out.append(error.title.as_str());
        out.append(": ");
        out.append(error.detail.as_str());
        out.append(";");
        proof {
            assert(views.take(i + 1).drop_last() =~= views.take(i as int));
            assert(views.take(i + 1).last() == error@);
            assert(out@ =~= before + (error_text(error@) + ";"@));
            assert(out@ =~= start + errors_text(views.take(i + 1)));
        }
        i += 1;
    }
    assert(views.take(i as int) =~= views);
}

impl ServiceError {
    /// The error in words.
    pub fn message(&self) -> (text: String)
        ensures
            text@ == message_of(self@),
    {
        let mut text = String::new();
        match self {
            ServiceError::InvalidArguments(detail) => {
                text.append("invalid arguments: ");
                text.append(detail.as_str());
                assert(text@ =~= message_of(self@));
            },
            ServiceError::ApiError { errors, tag } => {
                text.append("failed call to api \"");
                text.append(tag.as_str());
                text.append("\", errors: ");
                push_errors(&mut text, errors);
                assert(text@ =~= message_of(self@));
            },
            ServiceError::HttpError(_) => {
                text.append("failed http requests");
                assert(text@ =~= message_of(self@));
            },
            ServiceError::Internal(detail) => {
                text.append("something went wrong: ");
                text.append(detail.as_str());
                assert(text@ =~= message_of(self@));
            },
        }
        text
    }
}

impl CommandError {
    /// The command error that a service error becomes.
    pub fn from(error: ServiceError) -> (command_error: CommandError)
        ensures
            command_error@ == command_error_of(error@),
    {
        match error {
            ServiceError::InvalidArguments(text) => CommandError::InvalidArguments(text),
            other => CommandError::Internal(other.message()),
        }
    }
}

} // verus!
