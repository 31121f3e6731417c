//! What a failed read reports.

use vstd::prelude::*;
use vstd::string::*;
use crate::validator::error::{BiValidationError, ValidationFault};

verus! {

/// Why a field could not be read.
#[derive(Debug)]
pub enum BiParserError {
    /// The input ended before a whole marker was read.
    UnexpectedEof(String),
    /// The input ended inside a field, after its marker.
    ReadError(String),
    /// What was read breaks a rule of the format.
    ValidationError(BiValidationError),
}

/// The mathematical content of a [`BiParserError`].
pub ghost enum ParseFault {
    UnexpectedEof(Seq<char>),
    ReadError(Seq<char>),
    ValidationError(ValidationFault),
}

impl View for BiParserError {
    type V = ParseFault;

    open spec fn view(&self) -> ParseFault {
        match *self {
            BiParserError::UnexpectedEof(m) => ParseFault::UnexpectedEof(m@),
            BiParserError::ReadError(m) => ParseFault::ReadError(m@),
            BiParserError::ValidationError(e) => ParseFault::ValidationError(e@),
        }
    }
}

impl ParseFault {
    /// Whether this wraps the fault of bytes that are not UTF-8.
    pub open spec fn is_utf8(self) -> bool {
        self matches ParseFault::ValidationError(fault) && fault.is_utf8()
    }

    /// The sentence that reports this fault; `detail` as in
    /// [`ValidationFault::message`].
    pub open spec fn message(self, detail: Seq<char>) -> Seq<char> {
        match self {
            ParseFault::UnexpectedEof(msg) => "Unexpected end of file: "@ + msg,
            ParseFault::ReadError(msg) => "Error reading input: "@ + msg,
            ParseFault::ValidationError(fault) => fault.message(detail),
        }
    }
}

impl BiParserError {
    /// The sentence that reports this error.
    pub fn message(&self) -> (text: String)
        ensures
            exists|detail: Seq<char>| text@ == #[trigger] self@.message(detail),
            !self@.is_utf8() ==> text@ == self@.message(Seq::empty()),
    {
        match self {
            BiParserError::UnexpectedEof(msg) => {
                let mut text = String::from_str("Unexpected end of file: ");
                text.append(msg.as_str());
                assert(text@ == self@.message(Seq::empty()));
                text
            },
            BiParserError::ReadError(msg) => {
                let mut text = String::from_str("Error reading input: ");
                text.append(msg.as_str());
                assert(text@ == self@.message(Seq::empty()));
                text
            },
            BiParserError::ValidationError(e) => {
                let text = e.message();
                proof {
                    let detail = choose|detail: Seq<char>| text@ == #[trigger] e@.message(detail);
                    assert(text@ == self@.message(detail));
                }
                text
            },
        }
    }
}

impl From<BiValidationError> for BiParserError {
    fn from(e: BiValidationError) -> (res: BiParserError) {
        BiParserError::ValidationError(e)
    }
}

impl vstd::std_specs::convert::FromSpecImpl<BiValidationError> for BiParserError {
    open spec fn obeys_from_spec() -> bool {
        true
    }

    open spec fn from_spec(e: BiValidationError) -> BiParserError {
        BiParserError::ValidationError(e)
    }
}

} // verus!
