//! The decoder, and a reader that walks a buffer of bytes field by field.

use vstd::prelude::*;
use vstd::slice::{slice_subrange, slice_to_vec};
use crate::bi_core::error::{BiError, Fault};
use crate::bi_core::types::{BiField, FieldMarker, FieldValue};
use crate::bi_core::{MARKER_LEN, NEWLINE, SPACE};
use crate::parser::error::{BiParserError, ParseFault};
use crate::parser::grammar::{
    accept_name, blob_field, blob_size, cut_in, integer_field, marker_kind, spec_accept_name,
    spec_blob_field, spec_blob_size, spec_integer_field, spec_marker_kind, truncated,
};
use crate::validator::error::ValidationFault;

verus! {

/// What one read does to the input: the field or the failure, and how many
/// bytes it took.
pub ghost struct ReadOutcome {
    pub result: Result<FieldValue, ParseFault>,
    pub consumed: nat,
}

/// A read that failed with `fault` after taking `consumed` bytes.
pub open spec fn failed(fault: ParseFault, consumed: nat) -> ReadOutcome {
    ReadOutcome { result: Err(fault), consumed }
}

/// A read that failed a check of the validator after taking `consumed`
/// bytes.
pub open spec fn rejected(fault: ValidationFault, consumed: nat) -> ReadOutcome {
    failed(ParseFault::ValidationError(fault), consumed)
}

/// The first position at or after `from` where `b` stands in `s`, or the
/// length of `s` if there is none.
pub open spec fn find_from(s: Seq<u8>, b: u8, from: int) -> int
    decreases s.len() - from,
{
    if from < 0 || from >= s.len() {
        s.len() as int
    } else if s[from] == b {
        from
    } else {
        find_from(s, b, from + 1)
    }
}

/// The search from `from` ends at or after `from` and within `s`, passes no
/// `b`, and ends on a `b` unless it ends at the length of `s`.
pub proof fn lemma_find_from(s: Seq<u8>, b: u8, from: int)
    requires
        0 <= from <= s.len(),
    ensures
        from <= find_from(s, b, from) <= s.len(),
        forall|j: int| from <= j < find_from(s, b, from) ==> #[trigger] s[j] != b,
        find_from(s, b, from) < s.len() ==> s[find_from(s, b, from)] == b,
    decreases s.len() - from,
{
    if from < s.len() && s[from] != b {
        lemma_find_from(s, b, from + 1);
    }
}

/// Reading the value of an integer field whose text starts at `at`: the
/// text runs to the next terminator, which is taken too.
pub open spec fn spec_read_integer(
    s: Seq<u8>,
    signed: bool,
    name: Seq<u8>,
    at: int,
    validate: bool,
) -> ReadOutcome {
    let end = find_from(s, NEWLINE, at);
    if end >= s.len() {
        failed(cut_in("integer field value"@), s.len())
    } else {
        ReadOutcome {
            result: spec_integer_field(name, s.subrange(at, end), signed, validate),
            consumed: (end + 1) as nat,
        }
    }
}

/// Reading the rest of a blob field whose size text starts at `at`: the
/// size runs to the next terminator; then come that many raw bytes and one
/// more byte, the terminator.
pub open spec fn spec_read_blob(s: Seq<u8>, name: Seq<u8>, at: int, validate: bool) -> ReadOutcome {
    let end = find_from(s, NEWLINE, at);
    if end >= s.len() {
        failed(cut_in("blob size"@), s.len())
    } else {
        match spec_blob_size(s.subrange(at, end), validate) {
            Err(fault) => failed(fault, (end + 1) as nat),
            Ok(size) => {
                let stop = end + 1 + size + 1;
                if stop > s.len() {
                    failed(cut_in("blob content"@), s.len())
                } else {
                    ReadOutcome {
                        result: spec_blob_field(name, s.subrange(end + 1, stop), size, validate),
                        consumed: stop as nat,
                    }
                }
            },
        }
    }
}

/// Reading what follows the marker of a field of the given kind: the name
/// runs to the next separator, which is taken too; then comes the payload.
#[verifier::opaque]
pub open spec fn spec_read_body(s: Seq<u8>, kind: FieldMarker, validate: bool) -> ReadOutcome {
    let end = find_from(s, SPACE, MARKER_LEN as int);
    let name = s.subrange(MARKER_LEN as int, end);
    if end >= s.len() {
        failed(cut_in("field name"@), s.len())
    } else {
        match spec_accept_name(name, validate) {
            Err(fault) => failed(fault, (end + 1) as nat),
            Ok(()) => match kind {
                FieldMarker::Integer => spec_read_integer(s, false, name, end + 1, validate),
                FieldMarker::SignedInteger => spec_read_integer(s, true, name, end + 1, validate),
                FieldMarker::Blob => spec_read_blob(s, name, end + 1, validate),
            },
        }
    }
}

/// Reading one field from the front of `s`. The marker is three bytes; with
/// `validate` its symbol and separator are checked, and its type character
/// must stand for a field kind either way. Every later check of the
/// validator is made only with `validate`; input that ends early, and text
/// that is no number, fail without it too.
pub open spec fn spec_read_field(s: Seq<u8>, validate: bool) -> ReadOutcome {
    if s.len() < MARKER_LEN {
        failed(ParseFault::UnexpectedEof("while reading marker"@), s.len())
    } else {
        match spec_marker_kind(s.take(MARKER_LEN as int), validate) {
            Err(fault) => failed(fault, MARKER_LEN as nat),
            Ok(kind) => spec_read_body(s, kind, validate),
        }
    }
}

/// A read takes no more bytes than there are, and at least one byte where
/// there is any.
pub proof fn lemma_consumed_within(s: Seq<u8>, validate: bool)
    ensures
        spec_read_field(s, validate).consumed <= s.len(),
        s.len() > 0 ==> spec_read_field(s, validate).consumed > 0,
{
    reveal(spec_read_body);
    if s.len() >= MARKER_LEN {
        lemma_find_from(s, SPACE, MARKER_LEN as int);
        let end = find_from(s, SPACE, MARKER_LEN as int);
        if end < s.len() {
            lemma_find_from(s, NEWLINE, end + 1);
        }
    }
}

/// Whether what a read returned is what `outcome` describes.
pub open spec fn agrees(
    res: Result<BiField, BiParserError>,
    consumed: usize,
    outcome: ReadOutcome,
) -> bool {
    &&& consumed == outcome.consumed
    &&& match outcome.result {
        Ok(field) => res matches Ok(f) && f@ == field,
        Err(fault) => res matches Err(e) && e@ == fault,
    }
}

/// Finds the first `b` in `input` at or after `from`; gives the length of
/// `input` if there is none.
pub fn scan(input: &[u8], b: u8, from: usize) -> (at: usize)
    requires
        from <= input@.len(),
    ensures
        at == find_from(input@, b, from as int),
        from <= at <= input@.len(),
{
    let mut i: usize = from;
    while i < input.len() && input[i] != b
        invariant
            from <= i <= input@.len(),
            find_from(input@, b, from as int) == find_from(input@, b, i as int),
        decreases input@.len() - i,
    {
        i = i + 1;
    }
    i
}

/// Reads the value of an integer field whose text starts at `at`.
fn decode_integer(input: &[u8], signed: bool, name: Vec<u8>, at: usize, validate: bool) -> (out: (
    Result<BiField, BiParserError>,
    usize,
))
    requires
        at <= input@.len(),
    ensures
        agrees(out.0, out.1, spec_read_integer(input@, signed, name@, at as int, validate)),
        out.1 <= input@.len(),
{
    let end = scan(input, NEWLINE, at);
    if end >= input.len() {
        return (Err(truncated("integer field value")), input.len());
    }
    (integer_field(name, slice_subrange(input, at, end), signed, validate), end + 1)
}

/// Reads the rest of a blob field whose size text starts at `at`.
fn decode_blob(input: &[u8], name: Vec<u8>, at: usize, validate: bool) -> (out: (
    Result<BiField, BiParserError>,
    usize,
))
    requires
        at <= input@.len(),
    ensures
        agrees(out.0, out.1, spec_read_blob(input@, name@, at as int, validate)),
        out.1 <= input@.len(),
{
    let end = scan(input, NEWLINE, at);
    if end >= input.len() {
        return (Err(truncated("blob size")), input.len());
    }
    let next = end + 1;
    let size = match blob_size(slice_subrange(input, at, end), validate) {
        Ok(size) => size,
        Err(e) => {
            return (Err(e), next);
        },
    };
    if size >= input.len() - next {
        return (Err(truncated("blob content")), input.len());
    }
    let stop = next + size + 1;
    (blob_field(name, slice_subrange(input, next, stop), size, validate), stop)
}

/// Reads what follows the marker of a field of the given kind.
fn decode_body(input: &[u8], kind: FieldMarker, validate: bool) -> (out: (
    Result<BiField, BiParserError>,
    usize,
))
    requires
        MARKER_LEN <= input@.len(),
    ensures
        agrees(out.0, out.1, spec_read_body(input@, kind, validate)),
        out.1 <= input@.len(),
{
    reveal(spec_read_body);
    let end = scan(input, SPACE, MARKER_LEN);
    if end >= input.len() {
        return (Err(truncated("field name")), input.len());
    }
    let name = slice_subrange(input, MARKER_LEN, end);
    let next = end + 1;
    match accept_name(name, validate) {
        Ok(()) => {},
        Err(e) => {
            return (Err(e), next);
        },
    }
    let name = slice_to_vec(name);
    match kind {
        FieldMarker::Integer => decode_integer(input, false, name, next, validate),
        FieldMarker::SignedInteger => decode_integer(input, true, name, next, validate),
        FieldMarker::Blob => decode_blob(input, name, next, validate),
    }
}

/// Reads one field from the front of `input`, and says how many bytes of it
/// the read took.
pub fn decode_field(input: &[u8], validate: bool) -> (out: (
    Result<BiField, BiParserError>,
    usize,
))
    ensures
        agrees(out.0, out.1, spec_read_field(input@, validate)),
        out.1 <= input@.len(),
{
    if input.len() < MARKER_LEN {
        return (Err(BiParserError::UnexpectedEof("while reading marker".to_owned())), input.len());
    }
    let marker: [u8; 3] = [input[0], input[1], input[2]];
    assert(marker@ =~= input@.take(MARKER_LEN as int));
    match marker_kind(marker, validate) {
        Err(e) => (Err(e), MARKER_LEN),
        Ok(kind) => decode_body(input, kind, validate),
    }
}

/// Reads fields from a buffer of bytes, front to back.
pub struct BiReader {
    source: Vec<u8>,
    position: usize,
}

impl BiReader {
    #[verifier::type_invariant]
    spec fn within(&self) -> bool {
        self.position <= self.source@.len()
    }

    /// The bytes not yet read.
    pub closed spec fn remaining(&self) -> Seq<u8> {
        self.source@.skip(self.position as int)
    }

    /// A reader at the front of `source`.
    pub fn new(source: Vec<u8>) -> (reader: BiReader)
        ensures
            reader.remaining() == source@,
    {
        let reader = BiReader { source, position: 0 };
        assert(reader.remaining() =~= source@);
        reader
    }

    /// How many bytes are not yet read.
    pub fn remaining_len(&self) -> (n: usize)
        ensures
            n == self.remaining().len(),
    {
        proof {
            use_type_invariant(self);
        }
        self.source.len() - self.position
    }

    /// Reads the next field with every check of the validator.
    pub fn read_field_default(&mut self) -> (res: Result<BiField, BiError>)
        ensures
            reads(old(self).remaining(), true, res, final(self).remaining()),
    {
        self.read_field(true)
    }

    /// Reads the next field and moves past the bytes that the read took.
    /// Without `validate` the checks of the validator are left out; input
    /// that ends early, a type character that stands for no field kind and
    /// text that is no number fail all the same.
    pub fn read_field(&mut self, validate: bool) -> (res: Result<BiField, BiError>)
        ensures
            reads(old(self).remaining(), validate, res, final(self).remaining()),
    {
        proof {
            use_type_invariant(&*self);
        }
        let rest = slice_subrange(self.source.as_slice(), self.position, self.source.len());
        let (res, consumed) = decode_field(rest, validate);
        self.position = self.position + consumed;
        assert(self.remaining() =~= old(self).remaining().skip(consumed as int));
        match res {
            Ok(field) => Ok(field),
            Err(e) => Err(BiError::ParseError(e)),
        }
    }
}

/// Whether `res` and `after` are what reading one field from `before`
/// gives: the field or the failure, and the bytes that the read left.
pub open spec fn reads(
    before: Seq<u8>,
    validate: bool,
    res: Result<BiField, BiError>,
    after: Seq<u8>,
) -> bool {
    let outcome = spec_read_field(before, validate);
    &&& outcome.consumed <= before.len()
    &&& after == before.skip(outcome.consumed as int)
    &&& match outcome.result {
        Ok(field) => res matches Ok(f) && f@ == field,
        Err(fault) => res matches Err(e) && e@ == Fault::ParseError(fault),
    }
}

} // verus!
