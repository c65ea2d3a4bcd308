//! The ways in which a document can fail to parse.

use vstd::prelude::*;
use vstd::string::StringExecFns;

verus! {

/// Why a document was refused.
#[derive(Debug, Clone, PartialEq, Eq)]
pub enum ParseError {
    /// The text does not begin with a marker line that a later marker line
    /// answers.
    MissingHeader,
    /// The text between the marker lines is not the metadata of a persona.
    HeaderDecodeError { reason: String },
    /// An opening marker in the body has no name, or no closing marker.
    MalformedSegment { context: String },
}

/// A `ParseError` as plain values.
pub enum ErrorView {
    MissingHeader,
    HeaderDecodeError { reason: Seq<char> },
    MalformedSegment { context: Seq<char> },
}

impl View for ParseError {
    type V = ErrorView;

    open spec fn view(&self) -> ErrorView {
        match self {
            ParseError::MissingHeader => ErrorView::MissingHeader,
            ParseError::HeaderDecodeError { reason } => ErrorView::HeaderDecodeError {
                reason: reason@,
            },
            ParseError::MalformedSegment { context } => ErrorView::MalformedSegment {
                context: context@,
            },
        }
    }
}

impl ErrorView {
    /// The error in words.
    pub open spec fn message(self) -> Seq<char> {
        match self {
            ErrorView::MissingHeader => "couldn't locate the header"@,
            ErrorView::HeaderDecodeError { reason } => "couldn't decode the header: "@ + reason,
            ErrorView::MalformedSegment { context } => "couldn't read the body: "@ + context,
        }
    }
}

impl ParseError {
    /// The error in words, for a person to read.
    pub fn message(&self) -> (r: String)
        ensures
            r@ == self@.message(),
    {
        match self {
            ParseError::MissingHeader => String::from_str("couldn't locate the header"),
            ParseError::HeaderDecodeError { reason } => {
                String::from_str("couldn't decode the header: ").concat(reason.as_str())
            },
            ParseError::MalformedSegment { context } => {
                String::from_str("couldn't read the body: ").concat(context.as_str())
            },
        }
    }
}

} // verus!
