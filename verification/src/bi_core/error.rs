//! The error that reader and writer hand to their callers.

use vstd::prelude::*;
use vstd::string::*;
use crate::parser::error::{BiParserError, ParseFault};
use crate::validator::error::{BiValidationError, ValidationFault};
use crate::writer::error::{BiWriterError, WriteFault};

verus! {

/// Any failure of the library, by the layer it comes from.
#[derive(Debug)]
pub enum BiError {
    /// The byte source or sink failed; holds its message.
    IoError(String),
    /// A field could not be read.
    ParseError(BiParserError),
    /// A field could not be written.
    WriteError(BiWriterError),
    /// A value breaks a rule of the format.
    ValidationError(BiValidationError),
}

/// The mathematical content of a [`BiError`].
pub ghost enum Fault {
    IoError(Seq<char>),
    ParseError(ParseFault),
    WriteError(WriteFault),
    ValidationError(ValidationFault),
}

impl View for BiError {
    type V = Fault;

    open spec fn view(&self) -> Fault {
        match *self {
            BiError::IoError(m) => Fault::IoError(m@),
            BiError::ParseError(e) => Fault::ParseError(e@),
            BiError::WriteError(e) => Fault::WriteError(e@),
            BiError::ValidationError(e) => Fault::ValidationError(e@),
        }
    }
}

impl Fault {
    /// Whether this wraps the fault of bytes that are not UTF-8.
    pub open spec fn is_utf8(self) -> bool {
        match self {
            Fault::IoError(_) => false,
            Fault::ParseError(fault) => fault.is_utf8(),
            Fault::WriteError(fault) => fault.is_utf8(),
            Fault::ValidationError(fault) => fault.is_utf8(),
        }
    }

    /// The sentence that reports this fault: the layer it comes from, then
    /// that layer's own sentence; `detail` as in
    /// [`ValidationFault::message`].
    pub open spec fn message(self, detail: Seq<char>) -> Seq<char> {
        match self {
            Fault::IoError(msg) => "IO error: "@ + msg,
            Fault::ParseError(fault) => "Parse error: "@ + fault.message(detail),
            Fault::WriteError(fault) => "Write error: "@ + fault.message(detail),
            Fault::ValidationError(fault) => "Validation error: "@ + fault.message(detail),
        }
    }
}

impl BiError {
    /// The sentence that reports this error.
    pub fn message(&self) -> (text: String)
        ensures
            exists|detail: Seq<char>| text@ == #[trigger] self@.message(detail),
            !self@.is_utf8() ==> text@ == self@.message(Seq::empty()),
    {
        match self {
            BiError::IoError(msg) => {
                let mut text = String::from_str("IO error: ");
                text.append(msg.as_str());
                assert(text@ == self@.message(Seq::empty()));
                text
            },
            BiError::ParseError(e) => {
                let inner = e.message();
                let mut text = String::from_str("Parse error: ");
                text.append(inner.as_str());
                proof {
                    let detail = choose|detail: Seq<char>| inner@ == #[trigger] e@.message(detail);
                    assert(text@ == self@.message(detail));
                }
                text
            },
            BiError::WriteError(e) => {
                let inner = e.message();
                let mut text = String::from_str("Write error: ");
                text.append(inner.as_str());
                proof {
                    let detail = choose|detail: Seq<char>| inner@ == #[trigger] e@.message(detail);
                    assert(text@ == self@.message(detail));
                }
                text
            },
            BiError::ValidationError(e) => {
                let inner = e.message();
                let mut text = String::from_str("Validation error: ");
                text.append(inner.as_str());
                proof {
                    let detail = choose|detail: Seq<char>| inner@ == #[trigger] e@.message(detail);
                    assert(text@ == self@.message(detail));
                }
                text
            },
        }
    }
}

impl From<BiParserError> for BiError {
    fn from(e: BiParserError) -> (res: BiError) {
        BiError::ParseError(e)
    }
}

impl vstd::std_specs::convert::FromSpecImpl<BiParserError> for BiError {
    open spec fn obeys_from_spec() -> bool {
        true
    }

    open spec fn from_spec(e: BiParserError) -> BiError {
        BiError::ParseError(e)
    }
}

impl From<BiWriterError> for BiError {
    fn from(e: BiWriterError) -> (res: BiError) {
        BiError::WriteError(e)
    }
}

impl vstd::std_specs::convert::FromSpecImpl<BiWriterError> for BiError {
    open spec fn obeys_from_spec() -> bool {
        true
    }

    open spec fn from_spec(e: BiWriterError) -> BiError {
        BiError::WriteError(e)
    }
}

impl From<BiValidationError> for BiError {
    fn from(e: BiValidationError) -> (res: BiError) {
        BiError::ValidationError(e)
    }
}

impl vstd::std_specs::convert::FromSpecImpl<BiValidationError> for BiError {
    open spec fn obeys_from_spec() -> bool {
        true
    }

    open spec fn from_spec(e: BiValidationError) -> BiError {
        BiError::ValidationError(e)
    }
}

} // verus!
