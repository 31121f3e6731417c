//! The encoder, and a writer that appends to a buffer of bytes.

use vstd::prelude::*;
use crate::bi_core::error::{BiError, Fault};
use crate::bi_core::types::{BiField, FieldValue};
use crate::bi_core::NEWLINE;
use crate::validator::utils::{spec_validate_field_name, validate_field_name};
use crate::writer::error::{BiWriterError, WriteFault};

verus! {

/// What writing a field produces: the field's encoding, or, where the name
/// is to be checked and fails the check, that failure.
pub open spec fn spec_write_field(field: FieldValue, validate: bool) -> Result<
    Seq<u8>,
    WriteFault,
> {
    if validate && spec_validate_field_name(field.name()) is Err {
        Err(WriteFault::ValidationError(spec_validate_field_name(field.name())->Err_0))
    } else {
        Ok(field.encoding())
    }
}

/// Appends `src` to `out`.
fn append_bytes(out: &mut Vec<u8>, src: &[u8])
    ensures
        final(out)@ == old(out)@ + src@,
{
    out.extend_from_slice(src);
    assert(final(out)@ =~= old(out)@ + src@);
}

/// Builds the bytes of one field. With `validate` the name is checked first.
pub fn encode_field(field: &BiField, validate: bool) -> (res: Result<Vec<u8>, BiWriterError>)
    ensures
        match spec_write_field(field@, validate) {
            Ok(bytes) => res matches Ok(v) && v@ == bytes,
            Err(fault) => res matches Err(e) && e@ == fault,
        },
{
    if validate {
        match validate_field_name(field.name().as_slice()) {
            Ok(()) => {},
            Err(e) => {
                return Err(BiWriterError::ValidationError(e));
            },
        }
    }
    let mut content = field.summary();
    content.push(NEWLINE);
    match field {
        BiField::Blob { data, .. } => {
            append_bytes(&mut content, data.as_slice());
            content.push(NEWLINE);
        },
        _ => {},
    }
    assert(content@ =~= field@.encoding());
    Ok(content)
}

/// Appends fields to a buffer of bytes, one whole field at a time.
pub struct BiWriter {
    sink: Vec<u8>,
}

impl View for BiWriter {
    type V = Seq<u8>;

    /// Everything written so far.
    closed spec fn view(&self) -> Seq<u8> {
        self.sink@
    }
}

impl BiWriter {
    /// A writer that appends to `sink`.
    pub fn new(sink: Vec<u8>) -> (writer: BiWriter)
        ensures
            writer@ == sink@,
    {
        BiWriter { sink }
    }

    /// Writes a field with its name checked.
    pub fn write_field_default(&mut self, field: &BiField) -> (res: Result<(), BiError>)
        ensures
            match spec_write_field(field@, true) {
                Ok(bytes) => res is Ok && final(self)@ == old(self)@ + bytes,
                Err(fault) => res matches Err(e) && e@ == Fault::WriteError(fault) && final(self)@
                    == old(self)@,
            },
    {
        self.write_field(field, true)
    }

    /// Writes a field: all of its bytes, or none where the name is checked
    /// and fails the check.
    pub fn write_field(&mut self, field: &BiField, validate: bool) -> (res: Result<(), BiError>)
        ensures
            match spec_write_field(field@, validate) {
                Ok(bytes) => res is Ok && final(self)@ == old(self)@ + bytes,
                Err(fault) => res matches Err(e) && e@ == Fault::WriteError(fault) && final(self)@
                    == old(self)@,
            },
    {
        match encode_field(field, validate) {
            Ok(content) => {
                append_bytes(&mut self.sink, content.as_slice());
                Ok(())
            },
            Err(e) => Err(BiError::WriteError(e)),
        }
    }

    /// The bytes written so far.
    pub fn as_bytes(&self) -> (bytes: &[u8])
        ensures
            bytes@ == self@,
    {
        self.sink.as_slice()
    }

    /// Gives the buffer back.
    pub fn into_inner(self) -> (bytes: Vec<u8>)
        ensures
            bytes@ == self@,
    {
        self.sink
    }
}

} // verus!
