//! Which combinations of cleanup options are accepted.

use vstd::prelude::*;
use crate::rere::list::{trim, trimmed};

verus! {

/// Why a combination of cleanup options is refused.
#[derive(Debug, Clone, Copy, PartialEq, Eq, Structural)]
pub enum CleanFlagsError {
    /// "All" was asked for together with a narrower option.
    AllWithOthers,
    /// No option was given.
    NothingSelected,
}

/// What [`validate_clean_flags`] decides.
pub open spec fn spec_validate_clean_flags(all: bool, snapshots: bool, config: bool) -> Result<
    (),
    CleanFlagsError,
> {
    if all && (snapshots || config) {
        Err(CleanFlagsError::AllWithOthers)
    } else if !all && !snapshots && !config {
        Err(CleanFlagsError::NothingSelected)
    } else {
        Ok(())
    }
}

/// Checks the cleanup options: "all" stands alone, and at least one option
/// is given.
pub fn validate_clean_flags(all: bool, snapshots: bool, config: bool) -> (res: Result<
    (),
    CleanFlagsError,
>)
    ensures
        res == spec_validate_clean_flags(all, snapshots, config),
{
    if all && (snapshots || config) {
        return Err(CleanFlagsError::AllWithOthers);
    }
    if !all && !snapshots && !config {
        return Err(CleanFlagsError::NothingSelected);
    }
    Ok(())
}

/// Whether an answer to "do you want to continue?" says yes: without the
/// white space around it, it is the letter y, small or capital.
pub open spec fn spec_confirms(answer: Seq<u8>) -> bool {
    trimmed(answer) == seq![0x79u8] || trimmed(answer) == seq![0x59u8]
}

/// Reads an answer to "do you want to continue?".
pub fn confirms(answer: &[u8]) -> (yes: bool)
    ensures
        yes == spec_confirms(answer@),
{
    let text = trim(answer);
    let yes = text.len() == 1 && (text[0] == 0x79 || text[0] == 0x59);
    proof {
        if yes {
            assert(text@ =~= seq![text@[0]]);
        }
    }
    yes
}

} // verus!
