//! Reading undoes writing: the decoder, run on the bytes of a field, gives
//! the field back and stops where the field ends.

use vstd::prelude::*;
use vstd::utf8::*;
use crate::bi_core::decimal::{
    is_digit, lemma_decimal_digits, lemma_parse_decimal_signed, lemma_parse_decimal_unsigned,
    spec_decimal, spec_decimal_signed, spec_parse_u64, spec_parse_usize, MINUS,
};
use crate::bi_core::text::{is_ascii_bytes, lemma_ascii_is_utf8};
use crate::bi_core::types::{free_of, spec_marker, FieldMarker, FieldValue};
use crate::bi_core::{MARKER_LEN, NEWLINE, SPACE};
use crate::parser::reader::{
    find_from, spec_read_blob, spec_read_body, spec_read_field, spec_read_integer, ReadOutcome,
};
use crate::writer::error::WriteFault;
use crate::writer::writer::spec_write_field;

verus! {

/// Where `b` stands at `at` and nowhere between `from` and `at`, the search
/// from `from` ends at `at`.
pub proof fn lemma_find_from_first(s: Seq<u8>, b: u8, from: int, at: int)
    requires
        0 <= from <= at < s.len(),
        s[at] == b,
        forall|j: int| from <= j < at ==> #[trigger] s[j] != b,
    ensures
        find_from(s, b, from) == at,
    decreases at - from,
{
    if from < at {
        lemma_find_from_first(s, b, from + 1, at);
    }
}

/// Where `b` stands nowhere at or after `from`, the search from `from`
/// ends at the length of `s`.
pub proof fn lemma_find_from_absent(s: Seq<u8>, b: u8, from: int)
    requires
        0 <= from <= s.len(),
        forall|j: int| from <= j < s.len() ==> #[trigger] s[j] != b,
    ensures
        find_from(s, b, from) == s.len(),
    decreases s.len() - from,
{
    if from < s.len() {
        lemma_find_from_absent(s, b, from + 1);
    }
}

/// The decimal text of a number, signed or not, is ASCII without a
/// separator or a terminator in it.
pub proof fn lemma_decimal_plain(i: int)
    ensures
        spec_decimal_signed(i).len() > 0,
        is_ascii_bytes(spec_decimal_signed(i)),
        free_of(spec_decimal_signed(i), NEWLINE),
        free_of(spec_decimal_signed(i), SPACE),
        valid_utf8(spec_decimal_signed(i)),
        i >= 0 ==> spec_decimal_signed(i) == spec_decimal(i as nat),
{
    let text = spec_decimal_signed(i);
    if i < 0 {
        let digits = spec_decimal((-i) as nat);
        lemma_decimal_digits((-i) as nat);
        assert forall|k: int| 0 <= k < text.len() implies #[trigger] text[k] == MINUS || is_digit(
            text[k],
        ) by {
            if k > 0 {
                assert(text[k] == digits[k - 1]);
            }
        }
    } else {
        lemma_decimal_digits(i as nat);
    }
    assert forall|k: int| 0 <= k < text.len() implies #[trigger] text[k] < 0x80 && text[k]
        != NEWLINE && text[k] != SPACE by {
        assert(text[k] == MINUS || is_digit(text[k]));
    }
    lemma_ascii_is_utf8(text);
}

/// The search for a terminator from the start of a decimal text that a
/// terminator follows ends right behind the text.
proof fn lemma_text_end(s: Seq<u8>, at: int, i: int)
    requires
        0 <= at,
        at + spec_decimal_signed(i).len() < s.len(),
        s.subrange(at, at + spec_decimal_signed(i).len()) == spec_decimal_signed(i),
        s[at + spec_decimal_signed(i).len()] == NEWLINE,
    ensures
        find_from(s, NEWLINE, at) == at + spec_decimal_signed(i).len(),
{
    let text = spec_decimal_signed(i);
    lemma_decimal_plain(i);
    assert forall|j: int| at <= j < at + text.len() implies #[trigger] s[j] != NEWLINE by {
        assert(s[j] == text[j - at]);
    }
    lemma_find_from_first(s, NEWLINE, at, at + text.len());
}

/// Reading the value of an unsigned integer field whose canonical text,
/// followed by a terminator, stands at `at`.
proof fn lemma_read_unsigned(s: Seq<u8>, name: Seq<u8>, at: int, value: u64, validate: bool)
    requires
        0 <= at,
        at + spec_decimal(value as nat).len() < s.len(),
        s.subrange(at, at + spec_decimal(value as nat).len()) == spec_decimal(value as nat),
        s[at + spec_decimal(value as nat).len()] == NEWLINE,
    ensures
        spec_read_integer(s, false, name, at, validate) == (ReadOutcome {
            result: Ok(FieldValue::Integer { name, value }),
            consumed: (at + spec_decimal(value as nat).len() + 1) as nat,
        }),
{
    let text = spec_decimal(value as nat);
    lemma_decimal_plain(value as int);
    lemma_text_end(s, at, value as int);
    lemma_parse_decimal_unsigned(value as nat, u64::MAX as nat);
    assert(spec_parse_u64(text) == Some(value));
}

/// Reading the value of a signed integer field whose canonical text,
/// followed by a terminator, stands at `at`.
proof fn lemma_read_signed(s: Seq<u8>, name: Seq<u8>, at: int, value: i64, validate: bool)
    requires
        0 <= at,
        at + spec_decimal_signed(value as int).len() < s.len(),
        s.subrange(at, at + spec_decimal_signed(value as int).len()) == spec_decimal_signed(
            value as int,
        ),
        s[at + spec_decimal_signed(value as int).len()] == NEWLINE,
    ensures
        spec_read_integer(s, true, name, at, validate) == (ReadOutcome {
            result: Ok(FieldValue::SignedInteger { name, value }),
            consumed: (at + spec_decimal_signed(value as int).len() + 1) as nat,
        }),
{
    lemma_decimal_plain(value as int);
    lemma_text_end(s, at, value as int);
    lemma_parse_decimal_signed(value);
}

/// Reading the rest of a blob field whose size, a terminator, the raw
/// bytes and another terminator stand at `at`.
proof fn lemma_read_raw(s: Seq<u8>, name: Seq<u8>, at: int, data: Seq<u8>, validate: bool)
    requires
        0 <= at,
        data.len() <= usize::MAX,
        at + spec_decimal(data.len()).len() + 1 + data.len() < s.len(),
        s.subrange(at, at + spec_decimal(data.len()).len()) == spec_decimal(data.len()),
        s[at + spec_decimal(data.len()).len()] == NEWLINE,
        s.subrange(
            at + spec_decimal(data.len()).len() + 1,
            at + spec_decimal(data.len()).len() + 1 + data.len(),
        ) == data,
        s[at + spec_decimal(data.len()).len() + 1 + data.len()] == NEWLINE,
    ensures
        spec_read_blob(s, name, at, validate) == (ReadOutcome {
            result: Ok(FieldValue::Blob { name, data }),
            consumed: (at + spec_decimal(data.len()).len() + 1 + data.len() + 1) as nat,
        }),
{
    let text = spec_decimal(data.len());
    let next = at + text.len() + 1;
    let stop = next + data.len() + 1;
    lemma_decimal_plain(data.len() as int);
    lemma_text_end(s, at, data.len() as int);
    lemma_parse_decimal_unsigned(data.len(), u64::MAX as nat);
    lemma_parse_decimal_unsigned(data.len(), usize::MAX as nat);
    assert(spec_parse_usize(text) == Some(data.len() as usize));
    let content = s.subrange(next, stop);
    assert(content.take(data.len() as int) =~= data);
    assert(content.last() == NEWLINE);
}

/// Reading undoes writing. The bytes of a well-formed field, with anything
/// behind them, read back as that field, with or without validation, and
/// the read takes the field's bytes and no more.
pub proof fn lemma_read_after_encoding(field: FieldValue, rest: Seq<u8>, validate: bool)
    requires
        field.wf(),
    ensures
        spec_read_field(field.encoding() + rest, validate) == (ReadOutcome {
            result: Ok(field),
            consumed: field.encoding().len(),
        }),
{
    reveal(spec_read_body);
    let enc = field.encoding();
    let s = enc + rest;
    let name = field.name();
    let kind = field.marker();
    let payload = field.payload();
    let at = MARKER_LEN as int + name.len() + 1;
    assert(s.take(MARKER_LEN as int) =~= spec_marker(kind));
    assert(s[1] == kind.spec_to_byte());
    assert(FieldMarker::spec_from_byte(s[1]) == Some(kind));
    assert forall|j: int| MARKER_LEN as int <= j < at - 1 implies #[trigger] s[j] != SPACE by {
        assert(s[j] == name[j - MARKER_LEN as int]);
    }
    assert(s[at - 1] == SPACE);
    lemma_find_from_first(s, SPACE, MARKER_LEN as int, at - 1);
    assert(s.subrange(MARKER_LEN as int, at - 1) =~= name);
    assert(enc.len() == at + payload.len());
    assert(s.subrange(at, at + payload.len()) =~= payload);
    assert forall|j: int| 0 <= j < payload.len() implies s[at + j] == #[trigger] payload[j] by {
        assert(s.subrange(at, at + payload.len())[j] == s[at + j]);
    }
    match field {
        FieldValue::Integer { value, .. } => {
            let text = spec_decimal(value as nat);
            assert(payload[text.len() as int] == NEWLINE);
            assert(s.subrange(at, at + text.len()) =~= text) by {
                assert forall|j: int| 0 <= j < text.len() implies s[at + j] == text[j] by {
                    assert(payload[j] == text[j]);
                }
            }
            lemma_read_unsigned(s, name, at, value, validate);
        },
        FieldValue::SignedInteger { value, .. } => {
            let text = spec_decimal_signed(value as int);
            assert(payload[text.len() as int] == NEWLINE);
            assert(s.subrange(at, at + text.len()) =~= text) by {
                assert forall|j: int| 0 <= j < text.len() implies s[at + j] == text[j] by {
                    assert(payload[j] == text[j]);
                }
            }
            lemma_read_signed(s, name, at, value, validate);
        },
        FieldValue::Blob { data, .. } => {
            let text = spec_decimal(data.len());
            let next = at + text.len() + 1;
            assert(payload[text.len() as int] == NEWLINE);
            assert(payload[(text.len() + 1 + data.len()) as int] == NEWLINE);
            assert(s.subrange(at, at + text.len()) =~= text) by {
                assert forall|j: int| 0 <= j < text.len() implies s[at + j] == text[j] by {
                    assert(payload[j] == text[j]);
                }
            }
            assert(s.subrange(next, next + data.len()) =~= data) by {
                assert forall|j: int| 0 <= j < data.len() implies s[next + j] == data[j] by {
                    assert(payload[(text.len() + 1 + j) as int] == data[j]);
                }
            }
            lemma_read_raw(s, name, at, data, validate);
        },
    }
}

/// A whole write followed by a read. Whatever the two `validate` flags,
/// writing a well-formed field succeeds, and reading what was written,
/// with anything behind it, gives the field back and takes what was
/// written and no more.
pub proof fn lemma_write_then_read(
    field: FieldValue,
    rest: Seq<u8>,
    validate_write: bool,
    validate_read: bool,
)
    requires
        field.wf(),
    ensures
        spec_write_field(field, validate_write) == Ok::<Seq<u8>, WriteFault>(field.encoding()),
        spec_read_field(field.encoding() + rest, validate_read) == (ReadOutcome {
            result: Ok(field),
            consumed: field.encoding().len(),
        }),
{
    lemma_read_after_encoding(field, rest, validate_read);
}

} // verus!
