//! The failures that the library reports.

use vstd::prelude::*;

verus! {

/// A failure, by kind, with a detail text.
#[derive(Debug)]
pub enum AppError {
    Database(String),
    WebSocket(String),
    Serialization(String),
    NotFound(String),
    InvalidUrl(String),
    Connection(String),
    Credential(String),
}

/// A failure with its detail as a sequence of characters.
pub enum AppErrorView {
    Database(Seq<char>),
    WebSocket(Seq<char>),
    Serialization(Seq<char>),
    NotFound(Seq<char>),
    InvalidUrl(Seq<char>),
    Connection(Seq<char>),
    Credential(Seq<char>),
}

impl View for AppError {
    type V = AppErrorView;

    open spec fn view(&self) -> AppErrorView {
        match self {
            AppError::Database(d) => AppErrorView::Database(d@),
            AppError::WebSocket(d) => AppErrorView::WebSocket(d@),
            AppError::Serialization(d) => AppErrorView::Serialization(d@),
            AppError::NotFound(d) => AppErrorView::NotFound(d@),
            AppError::InvalidUrl(d) => AppErrorView::InvalidUrl(d@),
            AppError::Connection(d) => AppErrorView::Connection(d@),
            AppError::Credential(d) => AppErrorView::Credential(d@),
        }
    }
}

impl AppErrorView {
    /// The words that introduce this kind of failure.
    pub open spec fn prefix(self) -> Seq<char> {
        match self {
            AppErrorView::Database(_) => "Database error: "@,
            AppErrorView::WebSocket(_) => "WebSocket error: "@,
            AppErrorView::Serialization(_) => "Serialization error: "@,
            AppErrorView::NotFound(_) => "Not found: "@,
            AppErrorView::InvalidUrl(_) => "Invalid URL: "@,
            AppErrorView::Connection(_) => "Connection error: "@,
            AppErrorView::Credential(_) => "Credential error: "@,
        }
    }

    /// The detail text.
    pub open spec fn detail(self) -> Seq<char> {
        match self {
            AppErrorView::Database(d) => d,
            AppErrorView::WebSocket(d) => d,
            AppErrorView::Serialization(d) => d,
            AppErrorView::NotFound(d) => d,
            AppErrorView::InvalidUrl(d) => d,
            AppErrorView::Connection(d) => d,
            AppErrorView::Credential(d) => d,
        }
    }

    /// The message shown to a user: the kind's words, then the detail.
    pub open spec fn message(self) -> Seq<char> {
        self.prefix() + self.detail()
    }
}

impl AppError {
    /// The message shown to a user.
    pub fn to_string(&self) -> (r: String)
        ensures
            r@ == self@.message(),
    {
        match self {
            AppError::Database(d) => crate::text::concat2("Database error: ", d.as_str()),
            AppError::WebSocket(d) => crate::text::concat2("WebSocket error: ", d.as_str()),
            AppError::Serialization(d) => crate::text::concat2("Serialization error: ", d.as_str()),
            AppError::NotFound(d) => crate::text::concat2("Not found: ", d.as_str()),
            AppError::InvalidUrl(d) => crate::text::concat2("Invalid URL: ", d.as_str()),
            AppError::Connection(d) => crate::text::concat2("Connection error: ", d.as_str()),
            AppError::Credential(d) => crate::text::concat2("Credential error: ", d.as_str()),
        }
    }
}

} // verus!
