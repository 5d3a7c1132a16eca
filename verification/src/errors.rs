//! What can go wrong, by kind. Nothing is retried here: a failure is
//! reported to the caller under the kind that tells it apart.

use crate::views::views;
use vstd::prelude::*;
use vstd::string::StringExecFns;

verus! {

#[derive(Debug, PartialEq, Eq)]
pub enum ExpressionError {
    /// The payload does not have the shape of an expression.
    Serialization,
    /// The caller's input is malformed or names what cannot be read.
    RequestError(String),
    /// The substrate failed, or data that had to be there was missing.
    InternalError(String),
    /// The recipient has not granted the capability to deliver to it.
    Unauthorized,
    /// The recipient could not be reached.
    NetworkUnreachable,
    /// Any other fault of the remote call, with the remote's own words.
    Remote(String),
}

pub enum ErrorView {
    Serialization,
    RequestError(Seq<char>),
    InternalError(Seq<char>),
    Unauthorized,
    NetworkUnreachable,
    Remote(Seq<char>),
}

impl View for ExpressionError {
    type V = ErrorView;

    open spec fn view(&self) -> ErrorView {
        match self {
            ExpressionError::Serialization => ErrorView::Serialization,
            ExpressionError::RequestError(s) => ErrorView::RequestError(s@),
            ExpressionError::InternalError(s) => ErrorView::InternalError(s@),
            ExpressionError::Unauthorized => ErrorView::Unauthorized,
            ExpressionError::NetworkUnreachable => ErrorView::NetworkUnreachable,
            ExpressionError::Remote(s) => ErrorView::Remote(s@),
        }
    }
}

pub type ExpressionResult<T> = Result<T, ExpressionError>;

/// A result by its views.
pub open spec fn result_of<T: View>(result: Result<T, ExpressionError>) -> Result<T::V, ErrorView> {
    match result {
        Ok(value) => Ok(value@),
        Err(e) => Err(e@),
    }
}

/// A result that is a list, by the views of its items.
pub open spec fn list_result_of<T: View>(result: Result<Vec<T>, ExpressionError>) -> Result<
    Seq<T::V>,
    ErrorView,
> {
    match result {
        Ok(list) => Ok(views(list@)),
        Err(e) => Err(e@),
    }
}

/// A result that may be nothing, by its view.
pub open spec fn optional_result_of<T: View>(result: Result<Option<T>, ExpressionError>) -> Result<
    Option<T::V>,
    ErrorView,
> {
    match result {
        Ok(Some(value)) => Ok(Some(value@)),
        Ok(None) => Ok(None),
        Err(e) => Err(e@),
    }
}

impl ErrorView {
    /// The text shown to a user for this error.
    pub open spec fn message(self) -> Seq<char> {
        match self {
            ErrorView::Serialization => "Could not serialized content into ShortForm expression type"@,
            ErrorView::RequestError(s) => "Invalid Request Data. Error: "@ + s,
            ErrorView::InternalError(s) => "Internal Error. Error: "@ + s,
            ErrorView::Unauthorized => "recipient is not accepting private messages"@,
            ErrorView::NetworkUnreachable => "recipient is currently unreachable"@,
            ErrorView::Remote(s) => s,
        }
    }
}

impl ExpressionError {
    pub fn request(detail: &str) -> (e: ExpressionError)
        ensures
            e@ == ErrorView::RequestError(detail@),
    {
        ExpressionError::RequestError(detail.to_owned())
    }

    pub fn internal(detail: &str) -> (e: ExpressionError)
        ensures
            e@ == ErrorView::InternalError(detail@),
    {
        ExpressionError::InternalError(detail.to_owned())
    }

    /// The text shown to a user for this error.
    pub fn message(&self) -> (text: String)
        ensures
            text@ == self@.message(),
    {
        match self {
            ExpressionError::Serialization => {
                "Could not serialized content into ShortForm expression type".to_owned()
            },
            ExpressionError::RequestError(s) => {
                "Invalid Request Data. Error: ".to_owned().concat(s.as_str())
            },
            ExpressionError::InternalError(s) => {
                "Internal Error. Error: ".to_owned().concat(s.as_str())
            },
            ExpressionError::Unauthorized => {
                "recipient is not accepting private messages".to_owned()
            },
            ExpressionError::NetworkUnreachable => "recipient is currently unreachable".to_owned(),
            ExpressionError::Remote(s) => s.clone(),
        }
    }
}

} // verus!
