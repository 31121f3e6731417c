//! What each part of a field has to be, part by part: the marker, the name,
//! the text of a value, the size of a blob and its raw content.

use vstd::prelude::*;
use vstd::slice::{slice_subrange, slice_to_vec};
use vstd::string::*;
use vstd::utf8::*;
use crate::bi_core::decimal::{
    parse_i64, parse_u64, parse_usize, spec_parse_i64, spec_parse_u64, spec_parse_usize,
};
use crate::bi_core::text::text_of;
use crate::bi_core::types::{BiField, FieldMarker, FieldValue};
use crate::parser::error::{BiParserError, ParseFault};
use crate::validator::error::{BiValidationError, ValidationFault};
use crate::validator::utils::{
    spec_validate_blob, spec_validate_field_name, spec_validate_integer, spec_validate_marker,
    spec_validate_signed_integer, validate_blob, validate_field_name, validate_integer,
    validate_marker, validate_signed_integer,
};

verus! {

/// The failure of a check of the validator, as a failure to read.
pub open spec fn refused<T>(fault: ValidationFault) -> Result<T, ParseFault> {
    Err(ParseFault::ValidationError(fault))
}

/// What stands where the input ended inside the part called `part`.
pub open spec fn cut_in(part: Seq<char>) -> ParseFault {
    ParseFault::ReadError("unexpected end of input while reading "@ + part)
}

/// The failure of a read that met the end of the input inside the part
/// called `part`.
pub fn truncated(part: &str) -> (e: BiParserError)
    ensures
        e@ == cut_in(part@),
{
    let mut msg = String::from_str("unexpected end of input while reading ");
    msg.append(part);
    BiParserError::ReadError(msg)
}

/// The kind of field that the three bytes of a marker announce. With
/// `validate` the symbol and the separator are checked first; the type
/// character has to stand for a field kind either way.
pub open spec fn spec_marker_kind(marker: Seq<u8>, validate: bool) -> Result<
    FieldMarker,
    ParseFault,
> {
    if validate && spec_validate_marker(marker, false) is Err {
        refused(spec_validate_marker(marker, false)->Err_0)
    } else {
        match FieldMarker::spec_from_byte(marker[1]) {
            Some(kind) => Ok(kind),
            None => refused(ValidationFault::InvalidMarkerType(marker[1] as char)),
        }
    }
}

/// Tells the kind of field that a marker announces.
pub fn marker_kind(marker: [u8; 3], validate: bool) -> (res: Result<FieldMarker, BiParserError>)
    ensures
        match spec_marker_kind(marker@, validate) {
            Ok(kind) => res == Ok::<FieldMarker, BiParserError>(kind),
            Err(fault) => res matches Err(e) && e@ == fault,
        },
{
    if validate {
        match validate_marker(marker, false) {
            Ok(()) => {},
            Err(e) => {
                return Err(BiParserError::ValidationError(e));
            },
        }
    }
    match FieldMarker::from_byte(marker[1]) {
        Some(kind) => Ok(kind),
        None => Err(
            BiParserError::ValidationError(BiValidationError::InvalidMarkerType(marker[1] as char)),
        ),
    }
}

/// Whether a name is accepted: always without `validate`, and with it
/// where the validator accepts the name.
pub open spec fn spec_accept_name(name: Seq<u8>, validate: bool) -> Result<(), ParseFault> {
    if validate && spec_validate_field_name(name) is Err {
        refused(spec_validate_field_name(name)->Err_0)
    } else {
        Ok(())
    }
}

/// Accepts or refuses the name of a field.
pub fn accept_name(name: &[u8], validate: bool) -> (res: Result<(), BiParserError>)
    ensures
        match spec_accept_name(name@, validate) {
            Ok(()) => res is Ok,
            Err(fault) => res matches Err(e) && e@ == fault,
        },
{
    if validate {
        match validate_field_name(name) {
            Ok(()) => {},
            Err(e) => {
                return Err(BiParserError::ValidationError(e));
            },
        }
    }
    Ok(())
}

/// The number that the text of a value denotes, as a wide integer: with
/// `validate` the validator looks at the text first; then the text has to
/// be UTF-8 and a number of the field's width, with or without `validate`.
pub open spec fn spec_integer_text(text: Seq<u8>, signed: bool, validate: bool) -> Result<
    int,
    ParseFault,
> {
    let check = if signed {
        spec_validate_signed_integer(text)
    } else {
        spec_validate_integer(text)
    };
    let parsed: Option<int> = if signed {
        match spec_parse_i64(text) {
            Some(value) => Some(value as int),
            None => None,
        }
    } else {
        match spec_parse_u64(text) {
            Some(value) => Some(value as int),
            None => None,
        }
    };
    if validate && check is Err {
        refused(check->Err_0)
    } else if !valid_utf8(text) {
        refused(ValidationFault::Utf8Error)
    } else {
        match parsed {
            Some(value) => Ok(value),
            None => refused(ValidationFault::InvalidInteger(decode_utf8(text))),
        }
    }
}

/// The integer field that a name and the text of a value make.
pub open spec fn spec_integer_field(
    name: Seq<u8>,
    text: Seq<u8>,
    signed: bool,
    validate: bool,
) -> Result<FieldValue, ParseFault> {
    match spec_integer_text(text, signed, validate) {
        Ok(value) => if signed {
            Ok(FieldValue::SignedInteger { name, value: value as i64 })
        } else {
            Ok(FieldValue::Integer { name, value: value as u64 })
        },
        Err(fault) => Err(fault),
    }
}

/// Makes an integer field of a name and the text of a value, which is
/// given without its terminator.
pub fn integer_field(name: Vec<u8>, text: &[u8], signed: bool, validate: bool) -> (res: Result<
    BiField,
    BiParserError,
>)
    ensures
        match spec_integer_field(name@, text@, signed, validate) {
            Ok(field) => res matches Ok(f) && f@ == field,
            Err(fault) => res matches Err(e) && e@ == fault,
        },
{
    if validate {
        let check = if signed {
            validate_signed_integer(text)
        } else {
            validate_integer(text)
        };
        match check {
            Ok(()) => {},
            Err(e) => {
                return Err(BiParserError::ValidationError(e));
            },
        }
    }
    let shown = match text_of(text) {
        Ok(shown) => shown,
        Err(e) => {
            return Err(BiParserError::ValidationError(BiValidationError::Utf8Error(e)));
        },
    };
    if signed {
        match parse_i64(text) {
            Some(value) => Ok(BiField::SignedInteger { name, value }),
            None => Err(
                BiParserError::ValidationError(BiValidationError::InvalidInteger(shown)),
            ),
        }
    } else {
        match parse_u64(text) {
            Some(value) => Ok(BiField::Integer { name, value }),
            None => Err(
                BiParserError::ValidationError(BiValidationError::InvalidInteger(shown)),
            ),
        }
    }
}

/// The size that the text in front of a blob's content denotes: with
/// `validate` the validator looks at the text first; then the text has to
/// be UTF-8 and a size, with or without `validate`.
pub open spec fn spec_blob_size(text: Seq<u8>, validate: bool) -> Result<usize, ParseFault> {
    if validate && spec_validate_integer(text) is Err {
        refused(spec_validate_integer(text)->Err_0)
    } else if !valid_utf8(text) {
        refused(ValidationFault::Utf8Error)
    } else {
        match spec_parse_usize(text) {
            Some(size) => Ok(size),
            None => refused(ValidationFault::InvalidInteger(decode_utf8(text))),
        }
    }
}

/// Reads the size of a blob from its text, which is given without its
/// terminator.
pub fn blob_size(text: &[u8], validate: bool) -> (res: Result<usize, BiParserError>)
    ensures
        match spec_blob_size(text@, validate) {
            Ok(size) => res == Ok::<usize, BiParserError>(size),
            Err(fault) => res matches Err(e) && e@ == fault,
        },
{
    if validate {
        match validate_integer(text) {
            Ok(()) => {},
            Err(e) => {
                return Err(BiParserError::ValidationError(e));
            },
        }
    }
    let shown = match text_of(text) {
        Ok(shown) => shown,
        Err(e) => {
            return Err(BiParserError::ValidationError(BiValidationError::Utf8Error(e)));
        },
    };
    match parse_usize(text) {
        Some(size) => Ok(size),
        None => Err(BiParserError::ValidationError(BiValidationError::InvalidInteger(shown))),
    }
}


/// The blob field that a name and the raw content make, where the content
/// is what was read for `size` bytes and a terminator: it has to be longer
/// than `size`; with `validate` it has to be exactly `size` bytes and the
/// terminator; the field's data is its first `size` bytes.
pub open spec fn spec_blob_field(name: Seq<u8>, content: Seq<u8>, size: usize, validate: bool) -> Result<
    FieldValue,
    ParseFault,
> {
    if content.len() <= size {
        Err(cut_in("blob content"@))
    } else if validate && spec_validate_blob(content, size as nat) is Err {
        refused(spec_validate_blob(content, size as nat)->Err_0)
    } else {
        Ok(FieldValue::Blob { name, data: content.take(size as int) })
    }
}

/// Makes a blob field of a name and its raw content, terminator included.
pub fn blob_field(name: Vec<u8>, content: &[u8], size: usize, validate: bool) -> (res: Result<
    BiField,
    BiParserError,
>)
    ensures
        match spec_blob_field(name@, content@, size, validate) {
            Ok(field) => res matches Ok(f) && f@ == field,
            Err(fault) => res matches Err(e) && e@ == fault,
        },
{
    if content.len() <= size {
        return Err(truncated("blob content"));
    }
    if validate {
        match validate_blob(content, size) {
            Ok(()) => {},
            Err(e) => {
                return Err(BiParserError::ValidationError(e));
            },
        }
    }
    let data = slice_to_vec(slice_subrange(content, 0, size));
    assert(data@ =~= content@.take(size as int));
    Ok(BiField::Blob { name, data })
}

} // verus!
