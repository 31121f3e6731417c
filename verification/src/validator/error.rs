//! What a failed check reports.

use vstd::prelude::*;
use vstd::string::*;
use crate::bi_core::text::{push_char, utf8_error_text};
use crate::bi_core::BIDOCS;

verus! {

/// A violation of the format's rules, with the offending character or text.
#[derive(Debug)]
pub enum BiValidationError {
    /// The marker does not start with the marker symbol; holds what stood
    /// there instead.
    InvalidMarkerSymbol(char),
    /// The marker's third byte is not the separator.
    InvalidMarkerFormat(String),
    /// The marker's type character stands for no field kind; holds the
    /// character.
    InvalidMarkerType(char),
    /// The field name is empty.
    InvalidFieldName(String),
    /// The text is not a decimal integer of the expected width; holds the
    /// text, or the reason where there is no text to show.
    InvalidInteger(String),
    /// The blob's content has the wrong length or lacks its terminator.
    InvalidBlob(String),
    /// The bytes are not well-formed UTF-8.
    Utf8Error(core::str::Utf8Error),
}

/// The mathematical content of a [`BiValidationError`].
pub ghost enum ValidationFault {
    InvalidMarkerSymbol(char),
    InvalidMarkerFormat(Seq<char>),
    InvalidMarkerType(char),
    InvalidFieldName(Seq<char>),
    InvalidInteger(Seq<char>),
    InvalidBlob(Seq<char>),
    Utf8Error,
}

impl View for BiValidationError {
    type V = ValidationFault;

    open spec fn view(&self) -> ValidationFault {
        match *self {
            BiValidationError::InvalidMarkerSymbol(c) => ValidationFault::InvalidMarkerSymbol(c),
            BiValidationError::InvalidMarkerFormat(m) => ValidationFault::InvalidMarkerFormat(m@),
            BiValidationError::InvalidMarkerType(c) => ValidationFault::InvalidMarkerType(c),
            BiValidationError::InvalidFieldName(m) => ValidationFault::InvalidFieldName(m@),
            BiValidationError::InvalidInteger(m) => ValidationFault::InvalidInteger(m@),
            BiValidationError::InvalidBlob(m) => ValidationFault::InvalidBlob(m@),
            BiValidationError::Utf8Error(_) => ValidationFault::Utf8Error,
        }
    }
}

impl ValidationFault {
    /// Whether this is the fault of bytes that are not UTF-8, of which the
    /// library knows only what the standard library says.
    pub open spec fn is_utf8(self) -> bool {
        self is Utf8Error
    }

    /// The sentence that reports this fault. `detail` is what the standard
    /// library says of bytes that are not UTF-8; it is used for that fault
    /// alone.
    pub open spec fn message(self, detail: Seq<char>) -> Seq<char> {
        match self {
            ValidationFault::InvalidMarkerSymbol(found) => "Invalid marker symbol: expected `:`, found `"@.push(
                found,
            ) + "`"@,
            ValidationFault::InvalidMarkerFormat(msg) => "Invalid marker format: "@ + msg
                + "\nRefer to "@ + BIDOCS@,
            ValidationFault::InvalidMarkerType(found) => "Invalid field marker: expected `:i`, `:s` or `:b`, found `"@.push(
                found,
            ) + "`"@,
            ValidationFault::InvalidFieldName(name) => "Invalid field name: "@ + name,
            ValidationFault::InvalidInteger(found) => "Invalid integer: "@ + found,
            ValidationFault::InvalidBlob(msg) => "Invalid blob: "@ + msg,
            ValidationFault::Utf8Error => "UTF-8 decoding error: "@ + detail,
        }
    }
}

impl BiValidationError {
    /// The sentence that reports this error.
    pub fn message(&self) -> (text: String)
        ensures
            exists|detail: Seq<char>| text@ == #[trigger] self@.message(detail),
            !self@.is_utf8() ==> text@ == self@.message(Seq::empty()),
    {
        match self {
            BiValidationError::InvalidMarkerSymbol(found) => {
                let mut text = String::from_str("Invalid marker symbol: expected `:`, found `");
                push_char(&mut text, *found);
                text.append("`");
                assert(text@ == self@.message(Seq::empty()));
                text
            },
            BiValidationError::InvalidMarkerFormat(msg) => {
                let mut text = String::from_str("Invalid marker format: ");
                text.append(msg.as_str());
                text.append("\nRefer to ");
                text.append(BIDOCS);
                assert(text@ == self@.message(Seq::empty()));
                text
            },
            BiValidationError::InvalidMarkerType(found) => {
                let mut text = String::from_str(
                    "Invalid field marker: expected `:i`, `:s` or `:b`, found `",
                );
                push_char(&mut text, *found);
                text.append("`");
                assert(text@ == self@.message(Seq::empty()));
                text
            },
            BiValidationError::InvalidFieldName(name) => {
                let mut text = String::from_str("Invalid field name: ");
                text.append(name.as_str());
                assert(text@ == self@.message(Seq::empty()));
                text
            },
            BiValidationError::InvalidInteger(found) => {
                let mut text = String::from_str("Invalid integer: ");
                text.append(found.as_str());
                assert(text@ == self@.message(Seq::empty()));
                text
            },
            BiValidationError::InvalidBlob(msg) => {
                let mut text = String::from_str("Invalid blob: ");
                text.append(msg.as_str());
                assert(text@ == self@.message(Seq::empty()));
                text
            },
            BiValidationError::Utf8Error(e) => {
                let detail = utf8_error_text(e);
                let mut text = String::from_str("UTF-8 decoding error: ");
                text.append(detail.as_str());
                assert(text@ == self@.message(detail@));
                text
            },
        }
    }
}

} // verus!
