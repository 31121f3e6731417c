//! What a failed write reports.

use vstd::prelude::*;
use vstd::string::*;
use crate::validator::error::{BiValidationError, ValidationFault};

verus! {

/// Why a field could not be written.
#[derive(Debug)]
pub enum BiWriterError {
    /// The sink refused the bytes.
    WriteError(String),
    /// The field breaks a rule of the format.
    ValidationError(BiValidationError),
}

/// The mathematical content of a [`BiWriterError`].
pub ghost enum WriteFault {
    WriteError(Seq<char>),
    ValidationError(ValidationFault),
}

impl View for BiWriterError {
    type V = WriteFault;

    open spec fn view(&self) -> WriteFault {
        match *self {
            BiWriterError::WriteError(m) => WriteFault::WriteError(m@),
            BiWriterError::ValidationError(e) => WriteFault::ValidationError(e@),
        }
    }
}

impl WriteFault {
    /// Whether this wraps the fault of bytes that are not UTF-8.
    pub open spec fn is_utf8(self) -> bool {
        self matches WriteFault::ValidationError(fault) && fault.is_utf8()
    }

    /// The sentence that reports this fault; `detail` as in
    /// [`ValidationFault::message`].
    pub open spec fn message(self, detail: Seq<char>) -> Seq<char> {
        match self {
            WriteFault::WriteError(msg) => "Error writing output: "@ + msg,
            WriteFault::ValidationError(fault) => fault.message(detail),
        }
    }
}

impl BiWriterError {
    /// The sentence that reports this error.
    pub fn message(&self) -> (text: String)
        ensures
            exists|detail: Seq<char>| text@ == #[trigger] self@.message(detail),
            !self@.is_utf8() ==> text@ == self@.message(Seq::empty()),
    {
        match self {
            BiWriterError::WriteError(msg) => {
                let mut text = String::from_str("Error writing output: ");
                text.append(msg.as_str());
                assert(text@ == self@.message(Seq::empty()));
                text
            },
            BiWriterError::ValidationError(e) => {
                let text = e.message();
                proof {
                    let detail = choose|detail: Seq<char>| text@ == #[trigger] e@.message(detail);
                    assert(text@ == self@.message(detail));
                }
                text
            },
        }
    }
}

impl From<BiValidationError> for BiWriterError {
    fn from(e: BiValidationError) -> (res: BiWriterError) {
        BiWriterError::ValidationError(e)
    }
}

impl vstd::std_specs::convert::FromSpecImpl<BiValidationError> for BiWriterError {
    open spec fn obeys_from_spec() -> bool {
        true
    }

    open spec fn from_spec(e: BiValidationError) -> BiWriterError {
        BiWriterError::ValidationError(e)
    }
}

} // verus!
