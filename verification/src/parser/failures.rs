//! What the decoder refuses, stated for every input: damaged markers,
//! missing names, and streams that end too early.

use vstd::prelude::*;
use crate::bi_core::decimal::{
    lemma_parse_decimal_unsigned, spec_decimal, spec_decimal_signed, spec_parse_usize,
};
use crate::bi_core::types::{spec_marker, valid_name, FieldMarker, FieldValue};
use crate::bi_core::{MARKER_LEN, MARKER_SYM, NEWLINE, SPACE};
use crate::parser::error::ParseFault;
use crate::parser::reader::{
    failed, find_from, rejected, spec_read_blob, spec_read_body, spec_read_field, ReadOutcome,
};
use crate::parser::roundtrip::{lemma_decimal_plain, lemma_find_from_absent, lemma_find_from_first};
use crate::validator::error::ValidationFault;
use crate::validator::utils::spec_validate_marker;

verus! {

/// Input that ends inside the marker fails as an unexpected end of input,
/// with or without validation, and the read takes what there was.
pub proof fn lemma_short_input(s: Seq<u8>, validate: bool)
    requires
        s.len() < MARKER_LEN,
    ensures
        spec_read_field(s, validate) == failed(
            ParseFault::UnexpectedEof("while reading marker"@),
            s.len(),
        ),
{
}

/// With validation, a stream of at least a marker's length whose first
/// byte is not the marker symbol fails on that byte, whatever follows.
pub proof fn lemma_wrong_symbol(s: Seq<u8>)
    requires
        s.len() >= MARKER_LEN,
        s[0] != MARKER_SYM,
    ensures
        spec_read_field(s, true) == rejected(
            ValidationFault::InvalidMarkerSymbol(s[0] as char),
            MARKER_LEN as nat,
        ),
{
}

/// A marker whose type character stands for no field kind fails on that
/// character whether or not validation is on, whatever follows.
pub proof fn lemma_unknown_type(s: Seq<u8>, validate: bool)
    requires
        s.len() >= MARKER_LEN,
        s[0] == MARKER_SYM,
        s[2] == SPACE,
        FieldMarker::spec_from_byte(s[1]) is None,
    ensures
        spec_read_field(s, validate) == rejected(
            ValidationFault::InvalidMarkerType(s[1] as char),
            MARKER_LEN as nat,
        ),
{
    assert(spec_validate_marker(s.take(MARKER_LEN as int), false) is Ok);
}

/// With validation, a well-formed marker that the separator follows at
/// once, so that the name is empty, fails as an invalid field name,
/// whatever follows.
pub proof fn lemma_empty_name(s: Seq<u8>)
    requires
        s.len() > MARKER_LEN,
        s[0] == MARKER_SYM,
        s[2] == SPACE,
        FieldMarker::spec_from_byte(s[1]) is Some,
        s[3] == SPACE,
    ensures
        spec_read_field(s, true) == rejected(
            ValidationFault::InvalidFieldName("empty field name"@),
            (MARKER_LEN + 1) as nat,
        ),
{
    reveal(spec_read_body);
    assert(spec_validate_marker(s.take(MARKER_LEN as int), false) is Ok);
    assert(s.subrange(MARKER_LEN as int, MARKER_LEN as int) =~= Seq::<u8>::empty());
}

/// Whether a read failed because the input ended inside a field.
pub open spec fn cut_short(outcome: ReadOutcome) -> bool {
    outcome.result matches Err(ParseFault::ReadError(_))
}

/// The search for a terminator inside the decimal text of `i` that stands
/// at `at` and runs to the end of `s`, or beyond it, finds none.
proof fn lemma_text_cut(s: Seq<u8>, at: int, i: int)
    requires
        0 <= at <= s.len() <= at + spec_decimal_signed(i).len(),
        forall|j: int| at <= j < s.len() ==> s[j] == spec_decimal_signed(i)[j - at],
    ensures
        find_from(s, NEWLINE, at) == s.len(),
{
    lemma_decimal_plain(i);
    let text = spec_decimal_signed(i);
    assert forall|j: int| at <= j < s.len() implies #[trigger] s[j] != NEWLINE by {
        assert(s[j] == text[j - at]);
    }
    lemma_find_from_absent(s, NEWLINE, at);
}

/// A stream that ends inside a field, after its marker, fails as a read
/// error and not as an unexpected end of input: every proper prefix of the
/// bytes of a well-formed field that holds the whole marker is refused so,
/// with or without validation, and the read takes all of it.
pub proof fn lemma_truncated_field(field: FieldValue, k: int, validate: bool)
    requires
        field.wf(),
        MARKER_LEN <= k < field.encoding().len(),
    ensures
        cut_short(spec_read_field(field.encoding().take(k), validate)),
        spec_read_field(field.encoding().take(k), validate).consumed == k,
{
    reveal(spec_read_body);
    let enc = field.encoding();
    let s = enc.take(k);
    let name = field.name();
    let kind = field.marker();
    let payload = field.payload();
    let sep = MARKER_LEN as int + name.len();
    let at = sep + 1;
    assert(s.take(MARKER_LEN as int) =~= spec_marker(kind));
    assert(s[1] == kind.spec_to_byte());
    assert(FieldMarker::spec_from_byte(s[1]) == Some(kind));
    assert(spec_read_field(s, validate) == spec_read_body(s, kind, validate));
    if k <= sep {
        assert forall|j: int| MARKER_LEN as int <= j < s.len() implies #[trigger] s[j]
            != SPACE by {
            assert(s[j] == name[j - MARKER_LEN as int]);
        }
        lemma_find_from_absent(s, SPACE, MARKER_LEN as int);
    } else {
        assert forall|j: int| MARKER_LEN as int <= j < sep implies #[trigger] s[j] != SPACE by {
            assert(s[j] == name[j - MARKER_LEN as int]);
        }
        assert(s[sep] == SPACE);
        lemma_find_from_first(s, SPACE, MARKER_LEN as int, sep);
        assert(s.subrange(MARKER_LEN as int, sep) =~= name);
        assert(enc.len() == at + payload.len());
        assert forall|j: int| at <= j < k implies s[j] == payload[j - at] by {
            assert(s[j] == enc[j]);
        }
        match field {
            FieldValue::Integer { value, .. } => {
                let text = spec_decimal(value as nat);
                lemma_decimal_plain(value as int);
                assert forall|j: int| at <= j < s.len() implies s[j] == text[j - at] by {
                    assert(s[j] == payload[j - at]);
                }
                lemma_text_cut(s, at, value as int);
            },
            FieldValue::SignedInteger { value, .. } => {
                let text = spec_decimal_signed(value as int);
                assert forall|j: int| at <= j < s.len() implies s[j] == text[j - at] by {
                    assert(s[j] == payload[j - at]);
                }
                lemma_text_cut(s, at, value as int);
            },
            FieldValue::Blob { data, .. } => {
                let text = spec_decimal(data.len());
                let end = at + text.len();
                lemma_decimal_plain(data.len() as int);
                if k <= end {
                    assert forall|j: int| at <= j < s.len() implies s[j] == text[j - at] by {
                        assert(s[j] == payload[j - at]);
                    }
                    lemma_text_cut(s, at, data.len() as int);
                } else {
                    assert forall|j: int| at <= j < end implies #[trigger] s[j] != NEWLINE by {
                        assert(s[j] == payload[j - at]);
                        assert(payload[j - at] == text[j - at]);
                    }
                    assert(s[end] == payload[end - at]);
                    assert(s[end] == NEWLINE);
                    lemma_find_from_first(s, NEWLINE, at, end);
                    assert(s.subrange(at, end) =~= text) by {
                        assert forall|j: int| 0 <= j < text.len() implies s[at + j] == text[j] by {
                            assert(s[at + j] == payload[j]);
                        }
                    }
                    lemma_parse_decimal_unsigned(data.len(), u64::MAX as nat);
                    lemma_parse_decimal_unsigned(data.len(), usize::MAX as nat);
                    assert(spec_parse_usize(text) == Some(data.len() as usize));
                }
            },
        }
    }
}

/// With validation, a blob field whose raw bytes are not followed by a
/// terminator where its size says they end fails as an invalid blob: here
/// `raw` is what stands behind the size line, longer than `size`, with
/// another byte than the terminator at `size`.
pub proof fn lemma_blob_without_terminator(name: Seq<u8>, size: usize, raw: Seq<u8>)
    requires
        valid_name(name),
        size < raw.len(),
        raw[size as int] != NEWLINE,
    ensures
        spec_read_field(
            spec_marker(FieldMarker::Blob) + name.push(SPACE) + spec_decimal(size as nat).push(
                NEWLINE,
            ) + raw,
            true,
        ) == rejected(
            ValidationFault::InvalidBlob("missing trailing newline"@),
            (MARKER_LEN + name.len() + 1 + spec_decimal(size as nat).len() + 1 + size + 1) as nat,
        ),
{
    reveal(spec_read_body);
    let text = spec_decimal(size as nat);
    let s = spec_marker(FieldMarker::Blob) + name.push(SPACE) + text.push(NEWLINE) + raw;
    let sep = MARKER_LEN as int + name.len();
    let at = sep + 1;
    let end = at + text.len();
    let next = end + 1;
    lemma_decimal_plain(size as int);
    assert(s.take(MARKER_LEN as int) =~= spec_marker(FieldMarker::Blob));
    assert(FieldMarker::spec_from_byte(s[1]) == Some(FieldMarker::Blob));
    assert forall|j: int| MARKER_LEN as int <= j < sep implies #[trigger] s[j] != SPACE by {
        assert(s[j] == name[j - MARKER_LEN as int]);
    }
    assert(s[sep] == SPACE);
    lemma_find_from_first(s, SPACE, MARKER_LEN as int, sep);
    assert(s.subrange(MARKER_LEN as int, sep) =~= name);
    assert forall|j: int| at <= j < end implies #[trigger] s[j] != NEWLINE by {
        assert(s[j] == text[j - at]);
    }
    assert(s[end] == NEWLINE);
    lemma_find_from_first(s, NEWLINE, at, end);
    assert(s.subrange(at, end) =~= text);
    lemma_parse_decimal_unsigned(size as nat, u64::MAX as nat);
    lemma_parse_decimal_unsigned(size as nat, usize::MAX as nat);
    assert(spec_parse_usize(text) == Some(size));
    let content = s.subrange(next, next + size + 1);
    assert(content.last() == raw[size as int]);
    assert(spec_read_field(s, true) == spec_read_body(s, FieldMarker::Blob, true));
    assert(spec_read_body(s, FieldMarker::Blob, true) == spec_read_blob(s, name, at, true));
}

} // verus!
