//! The library's error type.

use vstd::prelude::*;
use crate::text::{push_decimal, spec_decimal};

verus! {

/// Why an operation failed.
#[derive(Debug)]
pub enum Error {
    /// A system, release, edition, language or link could not be found.
    NotFound(String),
    /// Any other failure, with its explanation.
    Other(String),
    /// A response or page could not be read.
    Parse(String),
    /// A configuration key or file was wrong.
    Config(String),
    /// A transport-level failure.
    Http(String),
    /// A server answered with a status outside `200..400`.
    HttpStatus { status: u16, url: String, body: String },
}

/// An error as plain values.
pub enum ErrorView {
    NotFound(Seq<char>),
    Other(Seq<char>),
    Parse(Seq<char>),
    Config(Seq<char>),
    Http(Seq<char>),
    HttpStatus(u16, Seq<char>, Seq<char>),
}

impl View for Error {
    type V = ErrorView;

    open spec fn view(&self) -> ErrorView {
        match self {
            Error::NotFound(m) => ErrorView::NotFound(m@),
            Error::Other(m) => ErrorView::Other(m@),
            Error::Parse(m) => ErrorView::Parse(m@),
            Error::Config(m) => ErrorView::Config(m@),
            Error::Http(m) => ErrorView::Http(m@),
            Error::HttpStatus { status, url, body } => ErrorView::HttpStatus(*status, url@, body@),
        }
    }
}

impl Error {
    /// The explanation an error carries (for `HttpStatus`, its body text).
    pub open spec fn text(self) -> Seq<char> {
        match self {
            Error::NotFound(m) => m@,
            Error::Other(m) => m@,
            Error::Parse(m) => m@,
            Error::Config(m) => m@,
            Error::Http(m) => m@,
            Error::HttpStatus { body, .. } => body@,
        }
    }

    /// The line an error is reported with: its explanation, and for a
    /// server's refusal the status and the URL first.
    pub open spec fn spec_message(self) -> Seq<char> {
        match self {
            Error::HttpStatus { status, url, body } => "HTTP "@ + spec_decimal(status as nat) + " for "@ + url@
                + ": "@ + body@,
            _ => self.text(),
        }
    }

    /// The line an error is reported with (see `spec_message`).
    pub fn message(&self) -> (r: String)
        ensures
            r@ == self.spec_message(),
    {
        match self {
            Error::NotFound(m) => m.clone(),
            Error::Other(m) => m.clone(),
            Error::Parse(m) => m.clone(),
            Error::Config(m) => m.clone(),
            Error::Http(m) => m.clone(),
            Error::HttpStatus { status, url, body } => {
                let mut r = String::from_str("HTTP ");
                push_decimal(&mut r, *status as u128);
                r.append(" for ");
                r.append(url.as_str());
                r.append(": ");
                r.append(body.as_str());
                r
            },
        }
    }

    /// A `NotFound` error whose text is `msg`.
    pub open spec fn is_not_found(self, msg: Seq<char>) -> bool {
        self is NotFound && self.text() == msg
    }

    /// An `Other` error whose text is `msg`.
    pub open spec fn is_other(self, msg: Seq<char>) -> bool {
        self is Other && self.text() == msg
    }

    /// A `Parse` error whose text is `msg`.
    pub open spec fn is_parse(self, msg: Seq<char>) -> bool {
        self is Parse && self.text() == msg
    }
}

} // verus!
