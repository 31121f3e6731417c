//! Reading a field from a source that is asked for its bytes piece by
//! piece: the decoder says what it needs next, the caller fetches it, and
//! the decoder decides how to go on.

use vstd::prelude::*;
use vstd::slice::{slice_subrange, slice_to_vec};
use vstd::string::*;
use crate::bi_core::types::{BiField, FieldMarker, FieldValue};
use crate::bi_core::{MARKER_LEN, NEWLINE, SPACE};
use crate::parser::error::{BiParserError, ParseFault};
use crate::parser::reader::{
    failed, find_from, lemma_find_from, spec_read_blob, spec_read_body, spec_read_field,
    spec_read_integer, ReadOutcome,
};
use crate::parser::grammar::{
    accept_name, blob_field, blob_size, cut_in, integer_field, marker_kind, spec_accept_name,
    spec_blob_field, spec_blob_size, spec_integer_field, spec_marker_kind, truncated,
};

verus! {

/// What the decoder needs from the source next.
#[derive(Debug, Clone, Copy, PartialEq, Eq, Structural)]
pub enum Request {
    /// Exactly this many bytes.
    Exact(usize),
    /// Everything up to the next byte of this value, and that byte.
    Until(u8),
}

/// What the source gave.
#[derive(Debug)]
pub enum Event {
    /// The bytes asked for. Where everything up to some byte was asked for
    /// and the source ended before that byte came, these are the bytes that
    /// were left.
    Bytes(Vec<u8>),
    /// The source ended before it had as many bytes as were asked for.
    Ended,
    /// The source failed; holds what it said.
    Failed(String),
}

/// The mathematical content of an [`Event`].
pub ghost enum Answer {
    Bytes(Seq<u8>),
    Ended,
    Failed(Seq<char>),
}

impl View for Event {
    type V = Answer;

    open spec fn view(&self) -> Answer {
        match *self {
            Event::Bytes(bytes) => Answer::Bytes(bytes@),
            Event::Ended => Answer::Ended,
            Event::Failed(msg) => Answer::Failed(msg@),
        }
    }
}

/// How far the reading of a field has come.
#[derive(Debug)]
pub enum DecoderState {
    /// Nothing is read yet; the marker comes next.
    Marker,
    /// The marker is read; the name comes next.
    Name { kind: FieldMarker },
    /// The name of an integer field is read; the text of its value comes
    /// next.
    Value { signed: bool, name: Vec<u8> },
    /// The name of a blob field is read; the text of its size comes next.
    Size { name: Vec<u8> },
    /// The size of a blob is read; its raw content and terminator come
    /// next.
    Content { name: Vec<u8>, size: usize },
}

/// The mathematical content of a [`DecoderState`].
pub ghost enum Stage {
    Marker,
    Name { kind: FieldMarker },
    Value { signed: bool, name: Seq<u8> },
    Size { name: Seq<u8> },
    Content { name: Seq<u8>, size: usize },
}

impl View for DecoderState {
    type V = Stage;

    open spec fn view(&self) -> Stage {
        match *self {
            DecoderState::Marker => Stage::Marker,
            DecoderState::Name { kind } => Stage::Name { kind },
            DecoderState::Value { signed, name } => Stage::Value { signed, name: name@ },
            DecoderState::Size { name } => Stage::Size { name: name@ },
            DecoderState::Content { name, size } => Stage::Content { name: name@, size },
        }
    }
}

/// What the decoder decided.
#[derive(Debug)]
pub enum Step {
    /// More is needed; holds the state to go on from.
    Next(DecoderState),
    /// The field is read.
    Done(BiField),
    /// The field cannot be read.
    Failed(BiParserError),
}

/// The mathematical content of a [`Step`].
pub ghost enum Turn {
    Next(Stage),
    Done(FieldValue),
    Failed(ParseFault),
}

impl View for Step {
    type V = Turn;

    open spec fn view(&self) -> Turn {
        match *self {
            Step::Next(state) => Turn::Next(state@),
            Step::Done(field) => Turn::Done(field@),
            Step::Failed(e) => Turn::Failed(e@),
        }
    }
}

/// Whether `bytes` ends with the byte `b`.
pub open spec fn ends_with(bytes: Seq<u8>, b: u8) -> bool {
    bytes.len() > 0 && bytes.last() == b
}

/// The failure of a source that failed while the part called `part` was
/// read.
pub open spec fn source_failed(part: Seq<char>, said: Seq<char>) -> ParseFault {
    ParseFault::ReadError("error reading "@ + part + ": "@ + said)
}

impl Stage {
    /// What is needed in this state: three bytes for the marker; the name
    /// up to its separator; the text of a value or of a size up to its
    /// terminator; for a blob's content its size and one byte more, the
    /// terminator.
    pub open spec fn request(self) -> Request {
        match self {
            Stage::Marker => Request::Exact(MARKER_LEN),
            Stage::Name { .. } => Request::Until(SPACE),
            Stage::Value { .. } => Request::Until(NEWLINE),
            Stage::Size { .. } => Request::Until(NEWLINE),
            Stage::Content { size, .. } => Request::Exact(
                if size < usize::MAX {
                    (size + 1) as usize
                } else {
                    usize::MAX
                },
            ),
        }
    }

    /// The name of the part that is read in this state.
    pub open spec fn part(self) -> Seq<char> {
        match self {
            Stage::Marker => "marker"@,
            Stage::Name { .. } => "field name"@,
            Stage::Value { .. } => "integer field value"@,
            Stage::Size { .. } => "blob size"@,
            Stage::Content { .. } => "blob content"@,
        }
    }

    /// How the decoder goes on from this state once the bytes of its
    /// request are there.
    pub open spec fn take(self, bytes: Seq<u8>, validate: bool) -> Turn {
        match self {
            Stage::Marker => if bytes.len() != MARKER_LEN {
                Turn::Failed(ParseFault::UnexpectedEof("while reading marker"@))
            } else {
                match spec_marker_kind(bytes, validate) {
                    Ok(kind) => Turn::Next(Stage::Name { kind }),
                    Err(fault) => Turn::Failed(fault),
                }
            },
            Stage::Name { kind } => if !ends_with(bytes, SPACE) {
                Turn::Failed(cut_in(self.part()))
            } else {
                match spec_accept_name(bytes.drop_last(), validate) {
                    Ok(()) => Turn::Next(
                        match kind {
                            FieldMarker::Integer => Stage::Value {
                                signed: false,
                                name: bytes.drop_last(),
                            },
                            FieldMarker::SignedInteger => Stage::Value {
                                signed: true,
                                name: bytes.drop_last(),
                            },
                            FieldMarker::Blob => Stage::Size { name: bytes.drop_last() },
                        },
                    ),
                    Err(fault) => Turn::Failed(fault),
                }
            },
            Stage::Value { signed, name } => if !ends_with(bytes, NEWLINE) {
                Turn::Failed(cut_in(self.part()))
            } else {
                match spec_integer_field(name, bytes.drop_last(), signed, validate) {
                    Ok(field) => Turn::Done(field),
                    Err(fault) => Turn::Failed(fault),
                }
            },
            Stage::Size { name } => if !ends_with(bytes, NEWLINE) {
                Turn::Failed(cut_in(self.part()))
            } else {
                match spec_blob_size(bytes.drop_last(), validate) {
                    Ok(size) => Turn::Next(Stage::Content { name, size }),
                    Err(fault) => Turn::Failed(fault),
                }
            },
            Stage::Content { name, size } => match spec_blob_field(name, bytes, size, validate) {
                Ok(field) => Turn::Done(field),
                Err(fault) => Turn::Failed(fault),
            },
        }
    }

    /// How the decoder goes on from this state, given what the source
    /// answered to its request. A source that ends inside the marker is an
    /// unexpected end of input; one that ends later, or fails, is a read
    /// error.
    pub open spec fn advance(self, answer: Answer, validate: bool) -> Turn {
        match answer {
            Answer::Bytes(bytes) => self.take(bytes, validate),
            Answer::Ended => if self is Marker {
                Turn::Failed(ParseFault::UnexpectedEof("while reading marker"@))
            } else {
                Turn::Failed(cut_in(self.part()))
            },
            Answer::Failed(said) => Turn::Failed(source_failed(self.part(), said)),
        }
    }
}

/// Splits what was read up to some byte into the part before that byte,
/// where the last byte read is that byte.
fn until(bytes: &[u8], b: u8) -> (part: Option<&[u8]>)
    ensures
        match part {
            Some(front) => ends_with(bytes@, b) && front@ == bytes@.drop_last(),
            None => !ends_with(bytes@, b),
        },
{
    if bytes.len() > 0 && bytes[bytes.len() - 1] == b {
        Some(slice_subrange(bytes, 0, bytes.len() - 1))
    } else {
        None
    }
}

impl DecoderState {
    /// The state in which nothing of a field is read yet.
    pub fn new() -> (state: DecoderState)
        ensures
            state@ == Stage::Marker,
    {
        DecoderState::Marker
    }

    /// What the decoder needs from the source in this state.
    pub fn request(&self) -> (request: Request)
        ensures
            request == self@.request(),
    {
        match self {
            DecoderState::Marker => Request::Exact(MARKER_LEN),
            DecoderState::Name { .. } => Request::Until(SPACE),
            DecoderState::Value { .. } => Request::Until(NEWLINE),
            DecoderState::Size { .. } => Request::Until(NEWLINE),
            DecoderState::Content { size, .. } => Request::Exact(
                if *size < usize::MAX {
                    *size + 1
                } else {
                    usize::MAX
                },
            ),
        }
    }

    /// The name of the part that is read in this state.
    pub fn part(&self) -> (part: &'static str)
        ensures
            part@ == self@.part(),
    {
        match self {
            DecoderState::Marker => "marker",
            DecoderState::Name { .. } => "field name",
            DecoderState::Value { .. } => "integer field value",
            DecoderState::Size { .. } => "blob size",
            DecoderState::Content { .. } => "blob content",
        }
    }

    /// Goes on with the bytes that the source gave.
    fn take(self, bytes: &[u8], validate: bool) -> (step: Step)
        ensures
            step@ == self@.take(bytes@, validate),
    {
        match self {
            DecoderState::Marker => {
                if bytes.len() != MARKER_LEN {
                    return Step::Failed(
                        BiParserError::UnexpectedEof("while reading marker".to_owned()),
                    );
                }
                let marker: [u8; 3] = [bytes[0], bytes[1], bytes[2]];
                assert(marker@ =~= bytes@);
                match marker_kind(marker, validate) {
                    Ok(kind) => Step::Next(DecoderState::Name { kind }),
                    Err(e) => Step::Failed(e),
                }
            },
            DecoderState::Name { kind } => {
                let name = match until(bytes, SPACE) {
                    Some(name) => name,
                    None => {
                        return Step::Failed(truncated("field name"));
                    },
                };
                match accept_name(name, validate) {
                    Ok(()) => {},
                    Err(e) => {
                        return Step::Failed(e);
                    },
                }
                let name = slice_to_vec(name);
                Step::Next(
                    match kind {
                        FieldMarker::Integer => DecoderState::Value { signed: false, name },
                        FieldMarker::SignedInteger => DecoderState::Value { signed: true, name },
                        FieldMarker::Blob => DecoderState::Size { name },
                    },
                )
            },
            DecoderState::Value { signed, name } => {
                let text = match until(bytes, NEWLINE) {
                    Some(text) => text,
                    None => {
                        return Step::Failed(truncated("integer field value"));
                    },
                };
                match integer_field(name, text, signed, validate) {
                    Ok(field) => Step::Done(field),
                    Err(e) => Step::Failed(e),
                }
            },
            DecoderState::Size { name } => {
                let text = match until(bytes, NEWLINE) {
                    Some(text) => text,
                    None => {
                        return Step::Failed(truncated("blob size"));
                    },
                };
                match blob_size(text, validate) {
                    Ok(size) => Step::Next(DecoderState::Content { name, size }),
                    Err(e) => Step::Failed(e),
                }
            },
            DecoderState::Content { name, size } => {
                match blob_field(name, bytes, size, validate) {
                    Ok(field) => Step::Done(field),
                    Err(e) => Step::Failed(e),
                }
            },
        }
    }

    /// Decides how to go on, given what the source answered to the request
    /// of this state.
    pub fn advance(self, event: Event, validate: bool) -> (step: Step)
        ensures
            step@ == self@.advance(event@, validate),
    {
        match event {
            Event::Bytes(bytes) => self.take(bytes.as_slice(), validate),
            Event::Ended => {
                match self {
                    DecoderState::Marker => Step::Failed(
                        BiParserError::UnexpectedEof("while reading marker".to_owned()),
                    ),
                    _ => Step::Failed(truncated(self.part())),
                }
            },
            Event::Failed(said) => {
                let mut msg = String::from_str("error reading ");
                msg.append(self.part());
                msg.append(": ");
                msg.append(said.as_str());
                Step::Failed(BiParserError::ReadError(msg))
            },
        }
    }
}

impl Stage {
    /// How many requests may still follow the one of this state.
    pub open spec fn rank(self) -> nat {
        match self {
            Stage::Marker => 3,
            Stage::Name { .. } => 2,
            Stage::Size { .. } => 1,
            Stage::Value { .. } => 0,
            Stage::Content { .. } => 0,
        }
    }
}

/// What a source that holds the bytes `s` and stands at `at` answers to
/// `request`, and where it stands then. It ends where it has too few bytes
/// for an exact request, and gives what is left where the byte that it is
/// to read up to does not come.
pub open spec fn serve(s: Seq<u8>, at: int, request: Request) -> (Answer, int) {
    match request {
        Request::Exact(n) => if at + n <= s.len() {
            (Answer::Bytes(s.subrange(at, at + n)), at + n)
        } else {
            (Answer::Ended, s.len() as int)
        },
        Request::Until(b) => {
            let end = find_from(s, b, at);
            let stop = if end < s.len() {
                end + 1
            } else {
                s.len() as int
            };
            (Answer::Bytes(s.subrange(at, stop)), stop)
        },
    }
}

/// What the decoder makes, from the state `stage` on, of a source that
/// holds the bytes `s` and stands at `at`: it asks, the source answers, and
/// so on until the field is read or cannot be read.
pub open spec fn spec_run(stage: Stage, s: Seq<u8>, at: int, validate: bool) -> ReadOutcome
    decreases stage.rank(),
{
    let served = serve(s, at, stage.request());
    match stage.advance(served.0, validate) {
        Turn::Done(field) => ReadOutcome { result: Ok(field), consumed: served.1 as nat },
        Turn::Failed(fault) => failed(fault, served.1 as nat),
        Turn::Next(next) => if next.rank() < stage.rank() {
            spec_run(next, s, served.1, validate)
        } else {
            // Never taken: a step that asks for more lowers the rank.
            failed(cut_in(stage.part()), served.1 as nat)
        },
    }
}

/// From the value of an integer field on, the decoder fed from a buffer
/// does what reading the buffer does.
proof fn lemma_run_value(s: Seq<u8>, signed: bool, name: Seq<u8>, at: int, validate: bool)
    requires
        0 <= at <= s.len(),
    ensures
        spec_run(Stage::Value { signed, name }, s, at, validate) == spec_read_integer(
            s,
            signed,
            name,
            at,
            validate,
        ),
{
    lemma_find_from(s, NEWLINE, at);
    let end = find_from(s, NEWLINE, at);
    if end < s.len() {
        assert(s.subrange(at, end + 1).drop_last() =~= s.subrange(at, end));
    }
}

/// From the size of a blob field on, the decoder fed from a buffer does
/// what reading the buffer does.
proof fn lemma_run_size(s: Seq<u8>, name: Seq<u8>, at: int, validate: bool)
    requires
        0 <= at <= s.len() <= usize::MAX,
    ensures
        spec_run(Stage::Size { name }, s, at, validate) == spec_read_blob(s, name, at, validate),
{
    lemma_find_from(s, NEWLINE, at);
    let end = find_from(s, NEWLINE, at);
    if end < s.len() {
        let text = s.subrange(at, end);
        assert(s.subrange(at, end + 1).drop_last() =~= text);
        match spec_blob_size(text, validate) {
            Err(_) => {},
            Ok(size) => {
                let content = Stage::Content { name, size };
                assert(spec_run(Stage::Size { name }, s, at, validate) == spec_run(
                    content,
                    s,
                    end + 1,
                    validate,
                ));
                let served = serve(s, end + 1, content.request());
                if end + 1 + size + 1 <= s.len() {
                    assert(served.0 == Answer::Bytes(s.subrange(end + 1, end + 1 + size + 1)));
                } else {
                    assert(served.0 == Answer::Ended);
                }
            },
        }
    }
}

/// The decoder, fed from a buffer of bytes, reads what reading the buffer
/// reads, and takes as many bytes: asking piece by piece changes nothing.
pub proof fn lemma_decoder_reads_field(s: Seq<u8>, validate: bool)
    requires
        s.len() <= usize::MAX,
    ensures
        spec_run(Stage::Marker, s, 0, validate) == spec_read_field(s, validate),
{
    reveal(spec_read_body);
    if s.len() >= MARKER_LEN {
        assert(s.subrange(0, MARKER_LEN as int) =~= s.take(MARKER_LEN as int));
        match spec_marker_kind(s.take(MARKER_LEN as int), validate) {
            Err(_) => {},
            Ok(kind) => {
                let at = MARKER_LEN as int;
                lemma_find_from(s, SPACE, at);
                let end = find_from(s, SPACE, at);
                assert(spec_run(Stage::Marker, s, 0, validate) == spec_run(
                    Stage::Name { kind },
                    s,
                    at,
                    validate,
                ));
                if end < s.len() {
                    let name = s.subrange(at, end);
                    assert(s.subrange(at, end + 1).drop_last() =~= name);
                    match kind {
                        FieldMarker::Integer => lemma_run_value(s, false, name, end + 1, validate),
                        FieldMarker::SignedInteger => lemma_run_value(
                            s,
                            true,
                            name,
                            end + 1,
                            validate,
                        ),
                        FieldMarker::Blob => lemma_run_size(s, name, end + 1, validate),
                    }
                }
            },
        }
    }
}

} // verus!
