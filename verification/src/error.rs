//! The library's error type.

use vstd::prelude::*;
use vstd::string::*;

verus! {

/// Why a command could not be completed.
#[derive(Debug)]
pub enum CalError {
    /// A filesystem operation failed.
    Io(String),
    /// A provider's response could not be decoded.
    Json(String),
    /// The request to a provider failed.
    Http(String),
    /// A month and year do not name a representable month.
    InvalidDate(String),
    /// The country option is not a valid code.
    Config(String),
    /// A cache file is oversized or not decodable.
    Cache(String),
}

/// The view of an error: its detail text by kind.
pub enum ErrorView {
    Io(Seq<char>),
    Json(Seq<char>),
    Http(Seq<char>),
    InvalidDate(Seq<char>),
    Config(Seq<char>),
    Cache(Seq<char>),
}

impl View for CalError {
    type V = ErrorView;

    open spec fn view(&self) -> ErrorView {
        match *self {
            CalError::Io(s) => ErrorView::Io(s@),
            CalError::Json(s) => ErrorView::Json(s@),
            CalError::Http(s) => ErrorView::Http(s@),
            CalError::InvalidDate(s) => ErrorView::InvalidDate(s@),
            CalError::Config(s) => ErrorView::Config(s@),
            CalError::Cache(s) => ErrorView::Cache(s@),
        }
    }
}

/// The one-line message of an error: the kind's label, a colon and the detail.
pub open spec fn message_text(e: ErrorView) -> Seq<char> {
    match e {
        ErrorView::Io(s) => "I/O error: "@ + s,
        ErrorView::Json(s) => "JSON error: "@ + s,
        ErrorView::Http(s) => "HTTP error: "@ + s,
        ErrorView::InvalidDate(s) => "invalid date: "@ + s,
        ErrorView::Config(s) => "configuration error: "@ + s,
        ErrorView::Cache(s) => "cache error: "@ + s,
    }
}

impl CalError {
    /// The message shown to the user for this error.
    pub fn message(&self) -> (out: String)
        ensures
            out@ == message_text(self@),
    {
        let (label, detail) = match self {
            CalError::Io(s) => ("I/O error: ", s),
            CalError::Json(s) => ("JSON error: ", s),
            CalError::Http(s) => ("HTTP error: ", s),
            CalError::InvalidDate(s) => ("invalid date: ", s),
            CalError::Config(s) => ("configuration error: ", s),
            CalError::Cache(s) => ("cache error: ", s),
        };
        let mut out = String::from_str(label);
        out.append(detail.as_str());
        out
    }
}

} // verus!
