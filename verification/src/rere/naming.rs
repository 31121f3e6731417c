//! How a snapshot file is called.

use vstd::prelude::*;
use vstd::string::*;

verus! {

/// The text `YYYYMMDD_HHMMSS` of the moment `secs` seconds after the Unix
/// epoch, in UTC, as chrono renders it; none where chrono has no date for
/// that moment.
pub uninterp spec fn stamp_text(secs: i64) -> Option<Seq<char>>;

/// Calls `chrono::DateTime::from_timestamp` with no nanoseconds and, where it
/// gives a moment, `DateTime::format` with `%Y%m%d_%H%M%S`. The result is a
/// function of `secs` alone, which [`stamp_text`] names; nothing is claimed
/// of what the text holds.
#[verifier::external_body]
fn format_stamp(secs: i64) -> (stamp: Option<String>)
    ensures
        match stamp {
            Some(text) => stamp_text(secs) == Some(text@),
            None => stamp_text(secs) is None,
        },
{
    match chrono::DateTime::from_timestamp(secs, 0) {
        Some(moment) => Some(moment.format("%Y%m%d_%H%M%S").to_string()),
        None => None,
    }
}

/// The name of a snapshot of the command list `test_file`: the list's name
/// and `.bi`, with an underscore and the stamp in between where there is a
/// stamp.
pub open spec fn spec_snapshot_name(test_file: Seq<char>, stamp: Option<Seq<char>>) -> Seq<char> {
    match stamp {
        Some(text) => test_file + "_"@ + text + ".bi"@,
        None => test_file + ".bi"@,
    }
}

/// Builds the name of a snapshot from the name of the command list and, for
/// a snapshot that is kept beside the earlier ones, its stamp.
pub fn snapshot_name_with(test_file: &str, stamp: Option<&str>) -> (name: String)
    ensures
        name@ == spec_snapshot_name(
            test_file@,
            match stamp {
                Some(text) => Some(text@),
                None => None,
            },
        ),
{
    let mut name = String::from_str(test_file);
    match stamp {
        Some(text) => {
            name.append("_");
            name.append(text);
        },
        None => {},
    }
    name.append(".bi");
    name
}

/// The name of the snapshot that a recording at `secs` seconds after the
/// Unix epoch writes. A recording that overwrites always uses the same
/// name; any other carries the stamp of its moment, and has no name where
/// that moment has no date.
pub fn snapshot_name(test_file: &str, overwrite: bool, secs: i64) -> (name: Option<String>)
    ensures
        overwrite ==> (name matches Some(text) && text@ == spec_snapshot_name(test_file@, None)),
        !overwrite ==> match stamp_text(secs) {
            Some(stamp) => name matches Some(text) && text@ == spec_snapshot_name(
                test_file@,
                Some(stamp),
            ),
            None => name is None,
        },
{
    if overwrite {
        Some(snapshot_name_with(test_file, None))
    } else {
        match format_stamp(secs) {
            Some(stamp) => Some(snapshot_name_with(test_file, Some(stamp.as_str()))),
            None => None,
        }
    }
}

} // verus!
