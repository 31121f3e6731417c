//! The checks themselves.

use vstd::prelude::*;
use vstd::string::*;
use vstd::utf8::*;
use crate::bi_core::decimal::{
    is_digit, lemma_decimal_digits, parse_i64, parse_u64, push_decimal, spec_decimal,
    spec_parse_i64, spec_parse_u64,
};
use crate::bi_core::text::{ascii_text, is_ascii_bytes, text_of};
use crate::bi_core::types::FieldMarker;
use crate::bi_core::{MARKER_SYM, NEWLINE, SPACE};
use crate::validator::error::{BiValidationError, ValidationFault};

verus! {

/// What [`validate_marker`] decides: the symbol first, then the separator,
/// then, on request, the type character.
pub open spec fn spec_validate_marker(marker: Seq<u8>, full: bool) -> Result<(), ValidationFault> {
    if marker[0] != MARKER_SYM {
        Err(ValidationFault::InvalidMarkerSymbol(marker[0] as char))
    } else if marker[2] != SPACE {
        Err(ValidationFault::InvalidMarkerFormat("expected single space after marker"@))
    } else if full && FieldMarker::spec_from_byte(marker[1]) is None {
        Err(ValidationFault::InvalidMarkerType(marker[1] as char))
    } else {
        Ok(())
    }
}

/// Checks the three bytes of a marker. With `full_validation` the type
/// character must stand for a field kind; without it only the symbol and the
/// separator are looked at.
pub fn validate_marker(marker: [u8; 3], full_validation: bool) -> (res: Result<
    (),
    BiValidationError,
>)
    ensures
        res is Ok <==> spec_validate_marker(marker@, full_validation) is Ok,
        res matches Err(e) ==> spec_validate_marker(marker@, full_validation) == Err::<
            (),
            ValidationFault,
        >(e@),
{
    if marker[0] != MARKER_SYM {
        return Err(BiValidationError::InvalidMarkerSymbol(marker[0] as char));
    }
    if marker[2] != SPACE {
        return Err(
            BiValidationError::InvalidMarkerFormat("expected single space after marker".to_owned()),
        );
    }
    if full_validation {
        if FieldMarker::from_byte(marker[1]).is_none() {
            return Err(BiValidationError::InvalidMarkerType(marker[1] as char));
        }
    }
    Ok(())
}

/// What [`validate_field_name`] decides: a name is not empty and is
/// well-formed UTF-8.
pub open spec fn spec_validate_field_name(name: Seq<u8>) -> Result<(), ValidationFault> {
    if name.len() == 0 {
        Err(ValidationFault::InvalidFieldName("empty field name"@))
    } else if !valid_utf8(name) {
        Err(ValidationFault::Utf8Error)
    } else {
        Ok(())
    }
}

/// Checks a field name.
pub fn validate_field_name(name_bytes: &[u8]) -> (res: Result<(), BiValidationError>)
    ensures
        res is Ok <==> spec_validate_field_name(name_bytes@) is Ok,
        res matches Err(e) ==> spec_validate_field_name(name_bytes@) == Err::<
            (),
            ValidationFault,
        >(e@),
{
    if name_bytes.len() == 0 {
        return Err(BiValidationError::InvalidFieldName("empty field name".to_owned()));
    }
    match core::str::from_utf8(name_bytes) {
        Ok(_) => Ok(()),
        Err(e) => Err(BiValidationError::Utf8Error(e)),
    }
}

/// The fault of an integer text that is empty (`empty` says how), is not
/// UTF-8, or denotes no number (`parsed` says whether it does).
pub open spec fn spec_integer_fault(bytes: Seq<u8>, parsed: bool, empty: Seq<char>) -> Result<
    (),
    ValidationFault,
> {
    if bytes.len() == 0 {
        Err(ValidationFault::InvalidInteger(empty))
    } else if !valid_utf8(bytes) {
        Err(ValidationFault::InvalidInteger("integer is not valid UTF-8"@))
    } else if !parsed {
        Err(ValidationFault::InvalidInteger(decode_utf8(bytes)))
    } else {
        Ok(())
    }
}

/// What [`validate_integer`] decides: the text denotes an unsigned 64-bit
/// number.
pub open spec fn spec_validate_integer(bytes: Seq<u8>) -> Result<(), ValidationFault> {
    spec_integer_fault(bytes, spec_parse_u64(bytes) is Some, "empty integer"@)
}

/// What [`validate_signed_integer`] decides: the text denotes a signed
/// 64-bit number.
pub open spec fn spec_validate_signed_integer(bytes: Seq<u8>) -> Result<(), ValidationFault> {
    spec_integer_fault(bytes, spec_parse_i64(bytes) is Some, "empty signed integer"@)
}

/// Checks that `bytes` is the decimal text of an unsigned 64-bit number.
/// Leading zeros are accepted.
pub fn validate_integer(bytes: &[u8]) -> (res: Result<(), BiValidationError>)
    ensures
        res is Ok <==> spec_validate_integer(bytes@) is Ok,
        res matches Err(e) ==> spec_validate_integer(bytes@) == Err::<(), ValidationFault>(e@),
{
    if bytes.len() == 0 {
        return Err(BiValidationError::InvalidInteger("empty integer".to_owned()));
    }
    match text_of(bytes) {
        Err(_) => Err(BiValidationError::InvalidInteger("integer is not valid UTF-8".to_owned())),
        Ok(text) => {
            if parse_u64(bytes).is_none() {
                Err(BiValidationError::InvalidInteger(text))
            } else {
                Ok(())
            }
        },
    }
}

/// Checks that `bytes` is the decimal text of a signed 64-bit number, with
/// an optional sign in front.
pub fn validate_signed_integer(bytes: &[u8]) -> (res: Result<(), BiValidationError>)
    ensures
        res is Ok <==> spec_validate_signed_integer(bytes@) is Ok,
        res matches Err(e) ==> spec_validate_signed_integer(bytes@) == Err::<
            (),
            ValidationFault,
        >(e@),
{
    if bytes.len() == 0 {
        return Err(BiValidationError::InvalidInteger("empty signed integer".to_owned()));
    }
    match text_of(bytes) {
        Err(_) => Err(BiValidationError::InvalidInteger("integer is not valid UTF-8".to_owned())),
        Ok(text) => {
            if parse_i64(bytes).is_none() {
                Err(BiValidationError::InvalidInteger(text))
            } else {
                Ok(())
            }
        },
    }
}

/// The text of a blob whose content, terminator included, has `actual`
/// bytes where `expected` were announced.
pub open spec fn spec_size_mismatch(actual: nat, expected: nat) -> Seq<char> {
    "actual size ("@ + decode_utf8(spec_decimal(actual)) + ") doesn't match expected size ("@
        + decode_utf8(spec_decimal(expected)) + ")"@
}

/// What [`validate_blob`] decides: the content is `expected_size` bytes and
/// one terminator.
pub open spec fn spec_validate_blob(content: Seq<u8>, expected_size: nat) -> Result<
    (),
    ValidationFault,
> {
    if content.len() != expected_size + 1 {
        Err(ValidationFault::InvalidBlob(spec_size_mismatch(content.len(), expected_size + 1)))
    } else if content.last() != NEWLINE {
        Err(ValidationFault::InvalidBlob("missing trailing newline"@))
    } else {
        Ok(())
    }
}

/// The decimal text of `n` as a string.
fn decimal_text(n: u128) -> (text: String)
    ensures
        text@ == decode_utf8(spec_decimal(n as nat)),
{
    let mut digits: Vec<u8> = Vec::new();
    push_decimal(&mut digits, n);
    proof {
        lemma_decimal_digits(n as nat);
        assert(digits@ =~= spec_decimal(n as nat));
        assert(is_ascii_bytes(digits@)) by {
            assert forall|i: int| 0 <= i < digits@.len() implies #[trigger] digits@[i] < 0x80 by {
                assert(is_digit(digits@[i]));
            }
        }
    }
    ascii_text(digits.as_slice())
}

/// Checks the raw content of a blob, terminator included, against the size
/// that was announced for it.
pub fn validate_blob(content: &[u8], expected_size: usize) -> (res: Result<(), BiValidationError>)
    ensures
        res is Ok <==> spec_validate_blob(content@, expected_size as nat) is Ok,
        res matches Err(e) ==> spec_validate_blob(content@, expected_size as nat) == Err::<
            (),
            ValidationFault,
        >(e@),
{
    let expected: u128 = expected_size as u128 + 1;
    if content.len() as u128 != expected {
        let mut msg = String::from_str("actual size (");
        msg.append(decimal_text(content.len() as u128).as_str());
        msg.append(") doesn't match expected size (");
        msg.append(decimal_text(expected).as_str());
        msg.append(")");
        return Err(BiValidationError::InvalidBlob(msg));
    }
    if content[content.len() - 1] != NEWLINE {
        return Err(BiValidationError::InvalidBlob("missing trailing newline".to_owned()));
    }
    Ok(())
}

} // verus!
