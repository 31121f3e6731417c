//! The layout of a snapshot: a count, then four fields for each command.

use vstd::prelude::*;
use vstd::slice::slice_to_vec;
use vstd::string::*;
use vstd::utf8::*;
use crate::bi_core::error::BiError;
use crate::bi_core::types::{valid_name, BiField, FieldValue};
use crate::rere::shell::{Capture, CommandOutput};
use crate::writer::writer::BiWriter;

verus! {

/// The bytes of the field name that `text` spells.
pub open spec fn field_name(text: &str) -> Seq<u8> {
    text.spec_bytes()
}

/// The five names that a snapshot uses are valid field names.
pub proof fn lemma_snapshot_names()
    ensures
        valid_name(field_name("count")),
        valid_name(field_name("shell")),
        valid_name(field_name("returncode")),
        valid_name(field_name("stdout")),
        valid_name(field_name("stderr")),
{
    broadcast use is_ascii_spec_bytes;

    reveal_strlit("count");
    reveal_strlit("shell");
    reveal_strlit("returncode");
    reveal_strlit("stdout");
    reveal_strlit("stderr");
    encode_utf8_valid_utf8("count"@);
    encode_utf8_valid_utf8("shell"@);
    encode_utf8_valid_utf8("returncode"@);
    encode_utf8_valid_utf8("stdout"@);
    encode_utf8_valid_utf8("stderr"@);
    assert(is_ascii("count"));
    assert(is_ascii("shell"));
    assert(is_ascii("returncode"));
    assert(is_ascii("stdout"));
    assert(is_ascii("stderr"));
}

/// The count field that opens a snapshot of `n` commands.
pub open spec fn count_field(n: nat) -> FieldValue {
    FieldValue::Integer { name: field_name("count"), value: n as u64 }
}

/// The four fields of one command, in the order in which they are written:
/// the command text, its return code, what it printed to standard output
/// and to standard error.
pub open spec fn record_fields(output: Capture) -> Seq<FieldValue> {
    seq![
        FieldValue::Blob { name: field_name("shell"), data: encode_utf8(output.shell) },
        FieldValue::SignedInteger {
            name: field_name("returncode"),
            value: output.returncode as i64,
        },
        FieldValue::Blob { name: field_name("stdout"), data: output.stdout },
        FieldValue::Blob { name: field_name("stderr"), data: output.stderr },
    ]
}

/// The bytes of one command's four fields.
#[verifier::opaque]
pub open spec fn record_encoding(output: Capture) -> Seq<u8> {
    record_fields(output)[0].encoding() + record_fields(output)[1].encoding() + record_fields(
        output,
    )[2].encoding() + record_fields(output)[3].encoding()
}

/// The bytes of the fields of several commands, one command after another.
pub open spec fn records_encoding(outputs: Seq<Capture>) -> Seq<u8>
    decreases outputs.len(),
{
    if outputs.len() == 0 {
        Seq::<u8>::empty()
    } else {
        records_encoding(outputs.drop_last()) + record_encoding(outputs.last())
    }
}

/// The bytes of a whole snapshot: the count, then each command.
pub open spec fn snapshot_encoding(outputs: Seq<Capture>) -> Seq<u8> {
    count_field(outputs.len()).encoding() + records_encoding(outputs)
}

/// The contents of some command outputs.
pub open spec fn captures(outputs: Seq<CommandOutput>) -> Seq<Capture> {
    outputs.map_values(|o: CommandOutput| o@)
}

/// Writes one field of a snapshot, whose name is known to be valid.
fn write_named(writer: &mut BiWriter, field: &BiField) -> (res: Result<(), BiError>)
    requires
        valid_name(field@.name()),
    ensures
        res is Ok,
        final(writer)@ == old(writer)@ + field@.encoding(),
{
    writer.write_field_default(field)
}

/// Writes the four fields of one command.
#[verifier::rlimit(40)]
pub fn write_record(writer: &mut BiWriter, output: &CommandOutput) -> (res: Result<(), BiError>)
    ensures
        res is Ok,
        final(writer)@ == old(writer)@ + record_encoding(output@),
{
    proof {
        reveal(record_encoding);
        lemma_snapshot_names();
    }
    let shell = BiField::Blob {
        name: "shell".as_bytes_vec(),
        data: output.shell.as_str().as_bytes_vec(),
    };
    let returncode = BiField::SignedInteger {
        name: "returncode".as_bytes_vec(),
        value: output.returncode as i64,
    };
    let stdout = BiField::Blob {
        name: "stdout".as_bytes_vec(),
        data: slice_to_vec(output.stdout.as_slice()),
    };
    let stderr = BiField::Blob {
        name: "stderr".as_bytes_vec(),
        data: slice_to_vec(output.stderr.as_slice()),
    };
    assert(seq![shell@, returncode@, stdout@, stderr@] =~= record_fields(output@));
    write_named(writer, &shell)?;
    write_named(writer, &returncode)?;
    write_named(writer, &stdout)?;
    write_named(writer, &stderr)?;
    assert(writer@ =~= old(writer)@ + record_encoding(output@));
    Ok(())
}

/// Writes a snapshot of the given command outputs: their count, then the
/// four fields of each, in order.
pub fn write_snapshot(writer: &mut BiWriter, outputs: &[CommandOutput]) -> (res: Result<
    (),
    BiError,
>)
    ensures
        res is Ok,
        final(writer)@ == old(writer)@ + snapshot_encoding(captures(outputs@)),
{
    proof {
        lemma_snapshot_names();
    }
    let ghost all = captures(outputs@);
    let count = BiField::Integer { name: "count".as_bytes_vec(), value: outputs.len() as u64 };
    write_named(writer, &count)?;
    let mut i: usize = 0;
    while i < outputs.len()
        invariant
            i <= outputs@.len(),
            all == captures(outputs@),
            writer@ == old(writer)@ + count_field(all.len()).encoding() + records_encoding(
                all.take(i as int),
            ),
        decreases outputs@.len() - i,
    {
        write_record(writer, &outputs[i])?;
        proof {
            let done = all.take(i + 1);
            assert(done.drop_last() =~= all.take(i as int));
            assert(done.last() == outputs@[i as int]@);
            assert(writer@ =~= old(writer)@ + count_field(all.len()).encoding()
                + records_encoding(done));
        }
        i = i + 1;
    }
    proof {
        assert(all.take(i as int) =~= all);
        assert(writer@ =~= old(writer)@ + snapshot_encoding(all));
    }
    Ok(())
}

} // verus!
