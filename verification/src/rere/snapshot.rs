//! Reading a snapshot back: its count, and what it holds of each command.

use vstd::prelude::*;
use vstd::utf8::*;
use crate::bi_core::error::{BiError, Fault};
use crate::bi_core::text::text_of;
use crate::bi_core::types::{BiField, FieldMarker, FieldValue};
use crate::parser::reader::{spec_read_field, BiReader};
use crate::parser::roundtrip::lemma_read_after_encoding;
use crate::rere::record::{
    count_field, lemma_snapshot_names, record_encoding, record_fields, records_encoding,
    snapshot_encoding,
};
use crate::rere::shell::Capture;

verus! {

/// What a snapshot holds of one command.
#[derive(Debug)]
pub struct RecordedOutput {
    pub shell: String,
    pub returncode: i64,
    pub stdout: Vec<u8>,
    pub stderr: Vec<u8>,
}

/// The mathematical content of a [`RecordedOutput`].
pub ghost struct Recorded {
    pub shell: Seq<char>,
    pub returncode: i64,
    pub stdout: Seq<u8>,
    pub stderr: Seq<u8>,
}

impl View for RecordedOutput {
    type V = Recorded;

    open spec fn view(&self) -> Recorded {
        Recorded {
            shell: self.shell@,
            returncode: self.returncode,
            stdout: self.stdout@,
            stderr: self.stderr@,
        }
    }
}

/// Why a snapshot could not be read.
#[derive(Debug)]
pub enum SnapshotError {
    /// A field could not be read at all.
    Read(BiError),
    /// The snapshot does not open with an unsigned integer field.
    ExpectedCount,
    /// Where the command text should stand there is no blob field.
    ExpectedShell,
    /// The recorded command text is not well-formed UTF-8.
    ShellNotUtf8(core::str::Utf8Error),
    /// Where the return code should stand there is no signed integer field.
    ExpectedReturnCode,
    /// Where the standard output should stand there is no blob field.
    ExpectedStdout,
    /// Where the standard error should stand there is no blob field.
    ExpectedStderr,
}

/// The mathematical content of a [`SnapshotError`].
pub ghost enum SnapshotFault {
    Read(Fault),
    ExpectedCount,
    ExpectedShell,
    ShellNotUtf8,
    ExpectedReturnCode,
    ExpectedStdout,
    ExpectedStderr,
}

impl View for SnapshotError {
    type V = SnapshotFault;

    open spec fn view(&self) -> SnapshotFault {
        match *self {
            SnapshotError::Read(e) => SnapshotFault::Read(e@),
            SnapshotError::ExpectedCount => SnapshotFault::ExpectedCount,
            SnapshotError::ExpectedShell => SnapshotFault::ExpectedShell,
            SnapshotError::ShellNotUtf8(_) => SnapshotFault::ShellNotUtf8,
            SnapshotError::ExpectedReturnCode => SnapshotFault::ExpectedReturnCode,
            SnapshotError::ExpectedStdout => SnapshotFault::ExpectedStdout,
            SnapshotError::ExpectedStderr => SnapshotFault::ExpectedStderr,
        }
    }
}

/// Reading one field, with validation, that has to be of the given kind:
/// the field, or the read's own failure, or `wrong` for a field of another
/// kind; and the bytes that the read took.
pub open spec fn spec_expect(s: Seq<u8>, kind: FieldMarker, wrong: SnapshotFault) -> (
    Result<FieldValue, SnapshotFault>,
    nat,
) {
    let outcome = spec_read_field(s, true);
    match outcome.result {
        Err(fault) => (Err(SnapshotFault::Read(Fault::ParseError(fault))), outcome.consumed),
        Ok(field) => if field.marker() == kind {
            (Ok(field), outcome.consumed)
        } else {
            (Err(wrong), outcome.consumed)
        },
    }
}

/// Reading the count that opens a snapshot, and the bytes that the read
/// took.
pub open spec fn spec_read_count(s: Seq<u8>) -> (Result<u64, SnapshotFault>, nat) {
    let first = spec_expect(s, FieldMarker::Integer, SnapshotFault::ExpectedCount);
    match first.0 {
        Ok(FieldValue::Integer { value, .. }) => (Ok(value), first.1),
        Ok(_) => (Err(SnapshotFault::ExpectedCount), first.1),
        Err(fault) => (Err(fault), first.1),
    }
}

/// What reading one command's fields gives, and the bytes that it took.
pub ghost struct RecordOutcome {
    pub result: Result<Recorded, SnapshotFault>,
    pub consumed: nat,
}

/// Reading the four fields of one command: a blob with the command text,
/// which has to be UTF-8, a signed integer, and two blobs. The names of the
/// fields are not looked at. The first failure ends the read, after the
/// bytes of the field that failed.
#[verifier::opaque]
pub open spec fn spec_read_record(s: Seq<u8>) -> RecordOutcome {
    let shell = spec_expect(s, FieldMarker::Blob, SnapshotFault::ExpectedShell);
    let code = spec_expect(
        s.skip(shell.1 as int),
        FieldMarker::SignedInteger,
        SnapshotFault::ExpectedReturnCode,
    );
    let out = spec_expect(
        s.skip(shell.1 as int).skip(code.1 as int),
        FieldMarker::Blob,
        SnapshotFault::ExpectedStdout,
    );
    let err = spec_expect(
        s.skip(shell.1 as int).skip(code.1 as int).skip(out.1 as int),
        FieldMarker::Blob,
        SnapshotFault::ExpectedStderr,
    );
    if shell.0 is Err {
        RecordOutcome { result: Err(shell.0->Err_0), consumed: shell.1 }
    } else if !valid_utf8(shell.0->Ok_0->data) {
        RecordOutcome { result: Err(SnapshotFault::ShellNotUtf8), consumed: shell.1 }
    } else if code.0 is Err {
        RecordOutcome { result: Err(code.0->Err_0), consumed: shell.1 + code.1 }
    } else if out.0 is Err {
        RecordOutcome { result: Err(out.0->Err_0), consumed: shell.1 + code.1 + out.1 }
    } else if err.0 is Err {
        RecordOutcome { result: Err(err.0->Err_0), consumed: shell.1 + code.1 + out.1 + err.1 }
    } else {
        RecordOutcome {
            result: Ok(
                Recorded {
                    shell: decode_utf8(shell.0->Ok_0->data),
                    returncode: code.0->Ok_0->SignedInteger_value,
                    stdout: out.0->Ok_0->data,
                    stderr: err.0->Ok_0->data,
                },
            ),
            consumed: shell.1 + code.1 + out.1 + err.1,
        }
    }
}

/// Reads the next field, which has to be a blob, and gives its bytes.
fn expect_blob(reader: &mut BiReader, wrong: SnapshotError) -> (res: Result<Vec<u8>, SnapshotError>)
    ensures
        ({
            let expected = spec_expect(old(reader).remaining(), FieldMarker::Blob, wrong@);
            &&& expected.1 <= old(reader).remaining().len()
            &&& final(reader).remaining() == old(reader).remaining().skip(expected.1 as int)
            &&& match expected.0 {
                Ok(field) => res matches Ok(data) && field matches FieldValue::Blob {
                    data: bytes,
                    ..
                } && data@ == bytes,
                Err(fault) => res matches Err(e) && e@ == fault,
            }
        }),
{
    match reader.read_field_default() {
        Err(e) => Err(SnapshotError::Read(e)),
        Ok(BiField::Blob { data, .. }) => Ok(data),
        Ok(_) => Err(wrong),
    }
}

impl BiReader {
    /// Reads the count that opens a snapshot.
    pub fn read_count(&mut self) -> (res: Result<u64, SnapshotError>)
        ensures
            ({
                let expected = spec_read_count(old(self).remaining());
                &&& expected.1 <= old(self).remaining().len()
                &&& final(self).remaining() == old(self).remaining().skip(expected.1 as int)
                &&& match expected.0 {
                    Ok(count) => res matches Ok(n) && n == count,
                    Err(fault) => res matches Err(e) && e@ == fault,
                }
            }),
    {
        match self.read_field_default() {
            Err(e) => Err(SnapshotError::Read(e)),
            Ok(BiField::Integer { value, .. }) => Ok(value),
            Ok(_) => Err(SnapshotError::ExpectedCount),
        }
    }

    /// Reads the four fields of one command.
    #[verifier::rlimit(40)]
    pub fn read_record(&mut self) -> (res: Result<RecordedOutput, SnapshotError>)
        ensures
            ({
                let expected = spec_read_record(old(self).remaining());
                &&& expected.consumed <= old(self).remaining().len()
                &&& final(self).remaining() == old(self).remaining().skip(expected.consumed as int)
                &&& match expected.result {
                    Ok(record) => res matches Ok(r) && r@ == record,
                    Err(fault) => res matches Err(e) && e@ == fault,
                }
            }),
    {
        reveal(spec_read_record);
        let ghost s = self.remaining();
        let ghost expected = spec_read_record(s);
        let shell_bytes = match expect_blob(self, SnapshotError::ExpectedShell) {
            Ok(bytes) => bytes,
            Err(e) => {
                return Err(e);
            },
        };
        let shell = match text_of(shell_bytes.as_slice()) {
            Ok(shell) => shell,
            Err(e) => {
                return Err(SnapshotError::ShellNotUtf8(e));
            },
        };
        let returncode = match self.read_field_default() {
            Err(e) => {
                assert(self.remaining() =~= s.skip(expected.consumed as int));
                return Err(SnapshotError::Read(e));
            },
            Ok(BiField::SignedInteger { value, .. }) => value,
            Ok(_) => {
                assert(self.remaining() =~= s.skip(expected.consumed as int));
                return Err(SnapshotError::ExpectedReturnCode);
            },
        };
        let stdout = match expect_blob(self, SnapshotError::ExpectedStdout) {
            Ok(bytes) => bytes,
            Err(e) => {
                assert(self.remaining() =~= s.skip(expected.consumed as int));
                return Err(e);
            },
        };
        let stderr = match expect_blob(self, SnapshotError::ExpectedStderr) {
            Ok(bytes) => bytes,
            Err(e) => {
                assert(self.remaining() =~= s.skip(expected.consumed as int));
                return Err(e);
            },
        };
        assert(self.remaining() =~= s.skip(expected.consumed as int));
        Ok(RecordedOutput { shell, returncode, stdout, stderr })
    }
}

/// How far the reading of one command's fields has come.
#[derive(Debug)]
pub enum RecordState {
    /// Nothing is read yet; the command text comes next.
    Shell,
    /// The return code comes next.
    ReturnCode { shell: String },
    /// The standard output comes next.
    Stdout { shell: String, returncode: i64 },
    /// The standard error comes next.
    Stderr { shell: String, returncode: i64, stdout: Vec<u8> },
}

/// The mathematical content of a [`RecordState`].
pub ghost enum RecordStage {
    Shell,
    ReturnCode { shell: Seq<char> },
    Stdout { shell: Seq<char>, returncode: i64 },
    Stderr { shell: Seq<char>, returncode: i64, stdout: Seq<u8> },
}

impl View for RecordState {
    type V = RecordStage;

    open spec fn view(&self) -> RecordStage {
        match *self {
            RecordState::Shell => RecordStage::Shell,
            RecordState::ReturnCode { shell } => RecordStage::ReturnCode { shell: shell@ },
            RecordState::Stdout { shell, returncode } => RecordStage::Stdout {
                shell: shell@,
                returncode,
            },
            RecordState::Stderr { shell, returncode, stdout } => RecordStage::Stderr {
                shell: shell@,
                returncode,
                stdout: stdout@,
            },
        }
    }
}

/// What one more field makes of the reading of a command's fields.
#[derive(Debug)]
pub enum RecordStep {
    /// More fields are needed; holds the state to go on from.
    Next(RecordState),
    /// The command's fields are read.
    Done(RecordedOutput),
    /// The field is not what has to stand there.
    Failed(SnapshotError),
}

/// The mathematical content of a [`RecordStep`].
pub ghost enum RecordTurn {
    Next(RecordStage),
    Done(Recorded),
    Failed(SnapshotFault),
}

impl View for RecordStep {
    type V = RecordTurn;

    open spec fn view(&self) -> RecordTurn {
        match *self {
            RecordStep::Next(state) => RecordTurn::Next(state@),
            RecordStep::Done(record) => RecordTurn::Done(record@),
            RecordStep::Failed(e) => RecordTurn::Failed(e@),
        }
    }
}

impl RecordStage {
    /// How many fields are still to come after the next one.
    pub open spec fn rank(self) -> nat {
        match self {
            RecordStage::Shell => 3,
            RecordStage::ReturnCode { .. } => 2,
            RecordStage::Stdout { .. } => 1,
            RecordStage::Stderr { .. } => 0,
        }
    }

    /// What the next field makes of this state: the command text is a blob
    /// of UTF-8, the return code a signed integer, the two outputs blobs,
    /// in this order; the names of the fields are not looked at.
    pub open spec fn accept(self, field: FieldValue) -> RecordTurn {
        match self {
            RecordStage::Shell => match field {
                FieldValue::Blob { data, .. } => if valid_utf8(data) {
                    RecordTurn::Next(RecordStage::ReturnCode { shell: decode_utf8(data) })
                } else {
                    RecordTurn::Failed(SnapshotFault::ShellNotUtf8)
                },
                _ => RecordTurn::Failed(SnapshotFault::ExpectedShell),
            },
            RecordStage::ReturnCode { shell } => match field {
                FieldValue::SignedInteger { value, .. } => RecordTurn::Next(
                    RecordStage::Stdout { shell, returncode: value },
                ),
                _ => RecordTurn::Failed(SnapshotFault::ExpectedReturnCode),
            },
            RecordStage::Stdout { shell, returncode } => match field {
                FieldValue::Blob { data, .. } => RecordTurn::Next(
                    RecordStage::Stderr { shell, returncode, stdout: data },
                ),
                _ => RecordTurn::Failed(SnapshotFault::ExpectedStdout),
            },
            RecordStage::Stderr { shell, returncode, stdout } => match field {
                FieldValue::Blob { data, .. } => RecordTurn::Done(
                    Recorded { shell, returncode, stdout, stderr: data },
                ),
                _ => RecordTurn::Failed(SnapshotFault::ExpectedStderr),
            },
        }
    }
}

impl RecordState {
    /// The state in which nothing of a command is read yet.
    pub fn new() -> (state: RecordState)
        ensures
            state@ == RecordStage::Shell,
    {
        RecordState::Shell
    }

    /// The command text, once it is read.
    pub fn shell(&self) -> (shell: Option<&String>)
        ensures
            match shell {
                Some(text) => !(self@ is Shell) && match self@ {
                    RecordStage::Shell => false,
                    RecordStage::ReturnCode { shell } => text@ == shell,
                    RecordStage::Stdout { shell, .. } => text@ == shell,
                    RecordStage::Stderr { shell, .. } => text@ == shell,
                },
                None => self@ is Shell,
            },
    {
        match self {
            RecordState::Shell => None,
            RecordState::ReturnCode { shell } => Some(shell),
            RecordState::Stdout { shell, .. } => Some(shell),
            RecordState::Stderr { shell, .. } => Some(shell),
        }
    }

    /// Takes the next field of a command.
    pub fn accept(self, field: BiField) -> (step: RecordStep)
        ensures
            step@ == self@.accept(field@),
    {
        match self {
            RecordState::Shell => match field {
                BiField::Blob { data, .. } => match text_of(data.as_slice()) {
                    Ok(shell) => RecordStep::Next(RecordState::ReturnCode { shell }),
                    Err(e) => RecordStep::Failed(SnapshotError::ShellNotUtf8(e)),
                },
                _ => RecordStep::Failed(SnapshotError::ExpectedShell),
            },
            RecordState::ReturnCode { shell } => match field {
                BiField::SignedInteger { value, .. } => RecordStep::Next(
                    RecordState::Stdout { shell, returncode: value },
                ),
                _ => RecordStep::Failed(SnapshotError::ExpectedReturnCode),
            },
            RecordState::Stdout { shell, returncode } => match field {
                BiField::Blob { data, .. } => RecordStep::Next(
                    RecordState::Stderr { shell, returncode, stdout: data },
                ),
                _ => RecordStep::Failed(SnapshotError::ExpectedStdout),
            },
            RecordState::Stderr { shell, returncode, stdout } => match field {
                BiField::Blob { data, .. } => RecordStep::Done(
                    RecordedOutput { shell, returncode, stdout, stderr: data },
                ),
                _ => RecordStep::Failed(SnapshotError::ExpectedStderr),
            },
        }
    }
}

/// The count that the field in front of a snapshot gives.
pub open spec fn spec_count_of(field: FieldValue) -> Result<u64, SnapshotFault> {
    match field {
        FieldValue::Integer { value, .. } => Ok(value),
        _ => Err(SnapshotFault::ExpectedCount),
    }
}

/// Takes the count out of the field in front of a snapshot, which has to be
/// an unsigned integer.
pub fn count_of(field: BiField) -> (res: Result<u64, SnapshotError>)
    ensures
        match spec_count_of(field@) {
            Ok(count) => res matches Ok(n) && n == count,
            Err(fault) => res matches Err(e) && e@ == fault,
        },
{
    match field {
        BiField::Integer { value, .. } => Ok(value),
        _ => Err(SnapshotError::ExpectedCount),
    }
}

/// Reading the fields of one command, from the state `stage` on, out of
/// the bytes `s`, a field at a time with validation, until the command's
/// fields are read or one of them fails.
pub open spec fn spec_run_record(stage: RecordStage, s: Seq<u8>) -> RecordOutcome
    decreases stage.rank(),
{
    let outcome = spec_read_field(s, true);
    match outcome.result {
        Err(fault) => RecordOutcome {
            result: Err(SnapshotFault::Read(Fault::ParseError(fault))),
            consumed: outcome.consumed,
        },
        Ok(field) => match stage.accept(field) {
            RecordTurn::Done(record) => RecordOutcome {
                result: Ok(record),
                consumed: outcome.consumed,
            },
            RecordTurn::Failed(fault) => RecordOutcome {
                result: Err(fault),
                consumed: outcome.consumed,
            },
            RecordTurn::Next(next) => if next.rank() < stage.rank() {
                let rest = spec_run_record(next, s.skip(outcome.consumed as int));
                RecordOutcome { result: rest.result, consumed: outcome.consumed + rest.consumed }
            } else {
                // Never taken: a field that is accepted lowers the rank.
                RecordOutcome {
                    result: Err(SnapshotFault::ExpectedShell),
                    consumed: outcome.consumed,
                }
            },
        },
    }
}

/// Taking a command's fields one at a time reads what [`spec_read_record`]
/// reads, and takes as many bytes.
pub proof fn lemma_run_record(s: Seq<u8>)
    ensures
        spec_run_record(RecordStage::Shell, s) == spec_read_record(s),
{
    reveal(spec_read_record);
    reveal_with_fuel(spec_run_record, 4);
}

/// What a snapshot holds of a command that gave `output`.
pub open spec fn recorded(output: Capture) -> Recorded {
    Recorded {
        shell: output.shell,
        returncode: output.returncode as i64,
        stdout: output.stdout,
        stderr: output.stderr,
    }
}

/// Whether the three byte strings of `output` are short enough for their
/// lengths to be written as sizes.
pub open spec fn recordable(output: Capture) -> bool {
    &&& encode_utf8(output.shell).len() <= usize::MAX
    &&& output.stdout.len() <= usize::MAX
    &&& output.stderr.len() <= usize::MAX
}

/// The count that opens a snapshot reads back, whatever follows it.
pub proof fn lemma_read_after_count(n: u64, rest: Seq<u8>)
    ensures
        spec_read_count(count_field(n as nat).encoding() + rest) == (
            Ok::<u64, SnapshotFault>(n),
            count_field(n as nat).encoding().len(),
        ),
{
    lemma_snapshot_names();
    lemma_read_after_encoding(count_field(n as nat), rest, true);
}

/// The four fields of a command read back as what was recorded, whatever
/// follows them, and the read takes those fields and no more.
#[verifier::rlimit(40)]
pub proof fn lemma_read_after_record(output: Capture, rest: Seq<u8>)
    requires
        recordable(output),
    ensures
        spec_read_record(record_encoding(output) + rest) == (RecordOutcome {
            result: Ok(recorded(output)),
            consumed: record_encoding(output).len(),
        }),
{
    reveal(spec_read_record);
    reveal(record_encoding);
    lemma_snapshot_names();
    let fields = record_fields(output);
    let e0 = fields[0].encoding();
    let e1 = fields[1].encoding();
    let e2 = fields[2].encoding();
    let e3 = fields[3].encoding();
    let s = record_encoding(output) + rest;
    let s1 = s.skip(e0.len() as int);
    let s2 = s1.skip(e1.len() as int);
    let s3 = s2.skip(e2.len() as int);
    assert(s =~= e0 + (e1 + e2 + e3 + rest));
    assert(s1 =~= e1 + (e2 + e3 + rest));
    assert(s2 =~= e2 + (e3 + rest));
    assert(s3 =~= e3 + rest);
    lemma_read_after_encoding(fields[0], e1 + e2 + e3 + rest, true);
    lemma_read_after_encoding(fields[1], e2 + e3 + rest, true);
    lemma_read_after_encoding(fields[2], e3 + rest, true);
    lemma_read_after_encoding(fields[3], rest, true);
    encode_utf8_valid_utf8(output.shell);
    encode_utf8_decode_utf8(output.shell);
}

/// What follows the fields of the command at `i` among the bytes of
/// `outputs`: those bytes are the bytes of the commands before `i`, the
/// bytes of the command at `i`, and the rest that is given back.
pub proof fn lemma_records_split(outputs: Seq<Capture>, i: int) -> (rest: Seq<u8>)
    requires
        0 <= i < outputs.len(),
    ensures
        records_encoding(outputs) == records_encoding(outputs.take(i)) + record_encoding(
            outputs[i],
        ) + rest,
    decreases outputs.len(),
{
    if i == outputs.len() - 1 {
        assert(outputs.take(i) =~= outputs.drop_last());
        assert(records_encoding(outputs) =~= records_encoding(outputs.take(i)) + record_encoding(
            outputs[i],
        ) + Seq::<u8>::empty());
        Seq::empty()
    } else {
        let inner = lemma_records_split(outputs.drop_last(), i);
        assert(outputs.drop_last().take(i) =~= outputs.take(i));
        let rest = inner + record_encoding(outputs.last());
        assert(records_encoding(outputs) =~= records_encoding(outputs.take(i)) + record_encoding(
            outputs[i],
        ) + rest);
        rest
    }
}

/// Where the fields of the command at `i` start in the snapshot of
/// `outputs`.
pub open spec fn record_offset(outputs: Seq<Capture>, i: int) -> nat {
    count_field(outputs.len()).encoding().len() + records_encoding(outputs.take(i)).len()
}

/// The bytes of the command at `i` follow those of the commands before
/// it: the command after it starts where its fields end.
pub proof fn lemma_record_offset_step(outputs: Seq<Capture>, i: int)
    requires
        0 <= i < outputs.len(),
    ensures
        record_offset(outputs, i + 1) == record_offset(outputs, i) + record_encoding(
            outputs[i],
        ).len(),
{
    assert(outputs.take(i + 1).drop_last() =~= outputs.take(i));
    assert(outputs.take(i + 1).last() == outputs[i]);
}

/// The count of a snapshot reads back as the number of commands, and the
/// first command starts behind it.
pub proof fn lemma_read_snapshot_count(outputs: Seq<Capture>)
    requires
        outputs.len() <= u64::MAX,
    ensures
        spec_read_count(snapshot_encoding(outputs)) == (
            Ok::<u64, SnapshotFault>(outputs.len() as u64),
            record_offset(outputs, 0),
        ),
{
    lemma_read_after_count(outputs.len() as u64, records_encoding(outputs));
    assert(outputs.take(0) =~= Seq::<Capture>::empty());
}

/// What is left of `head`, `before` and `tail` in a row once `head` and
/// `before` are passed is `tail`.
proof fn lemma_skip_to_tail(head: Seq<u8>, before: Seq<u8>, tail: Seq<u8>)
    ensures
        (head + (before + tail)).skip((head.len() + before.len()) as int) == tail,
{
    assert((head + (before + tail)).skip((head.len() + before.len()) as int) =~= tail);
}

/// From the place of the command at `i` on, a snapshot holds the fields
/// of that command and then the rest that is given back.
proof fn lemma_snapshot_at(outputs: Seq<Capture>, i: int) -> (rest: Seq<u8>)
    requires
        0 <= i < outputs.len(),
    ensures
        snapshot_encoding(outputs).skip(record_offset(outputs, i) as int) == record_encoding(
            outputs[i],
        ) + rest,
{
    let rest = lemma_records_split(outputs, i);
    let head = count_field(outputs.len()).encoding();
    let before = records_encoding(outputs.take(i));
    let here = record_encoding(outputs[i]);
    assert(before + here + rest =~= before + (here + rest));
    lemma_skip_to_tail(head, before, here + rest);
    rest
}

/// A snapshot reads back as it was recorded: at the place of each command
/// stand the fields of that command, which read back as what was recorded
/// of it.
pub proof fn lemma_read_snapshot_record(outputs: Seq<Capture>, i: int)
    requires
        0 <= i < outputs.len(),
        recordable(outputs[i]),
    ensures
        spec_read_record(snapshot_encoding(outputs).skip(record_offset(outputs, i) as int)) == (
            RecordOutcome {
                result: Ok(recorded(outputs[i])),
                consumed: record_encoding(outputs[i]).len(),
            }
        ),
{
    let rest = lemma_snapshot_at(outputs, i);
    lemma_read_after_record(outputs[i], rest);
}

} // verus!
