//! Comparing a replay with the snapshot, and keeping what was found.

use vstd::prelude::*;
use crate::rere::config::ReplayResult;
use crate::rere::shell::{Capture, CommandOutput};
use crate::rere::snapshot::{Recorded, RecordedOutput};

verus! {

/// One of the four things that a replay compares.
#[derive(Debug, Clone, Copy, PartialEq, Eq, Structural)]
pub enum DiffField {
    ShellCommand,
    ReturnCode,
    Stdout,
    Stderr,
}

impl DiffField {
    /// How the compared thing is called in a report.
    pub open spec fn spec_label(self) -> Seq<char> {
        match self {
            DiffField::ShellCommand => "shell command"@,
            DiffField::ReturnCode => "return code"@,
            DiffField::Stdout => "stdout"@,
            DiffField::Stderr => "stderr"@,
        }
    }

    /// How the compared thing is called in a report.
    pub fn label(self) -> (text: &'static str)
        ensures
            text@ == self.spec_label(),
    {
        match self {
            DiffField::ShellCommand => "shell command",
            DiffField::ReturnCode => "return code",
            DiffField::Stdout => "stdout",
            DiffField::Stderr => "stderr",
        }
    }
}

/// Whether the compared thing `field` differs between a snapshot and a
/// fresh run.
pub open spec fn differs(field: DiffField, expected: Recorded, actual: Capture) -> bool {
    match field {
        DiffField::ShellCommand => expected.shell != actual.shell,
        DiffField::ReturnCode => expected.returncode != actual.returncode as i64,
        DiffField::Stdout => expected.stdout != actual.stdout,
        DiffField::Stderr => expected.stderr != actual.stderr,
    }
}

/// `found` with `field` behind it if `field` differs.
pub open spec fn noting(
    found: Seq<DiffField>,
    field: DiffField,
    expected: Recorded,
    actual: Capture,
) -> Seq<DiffField> {
    if differs(field, expected, actual) {
        found.push(field)
    } else {
        found
    }
}

/// Every compared thing that differs, in the order command text, return
/// code, standard output, standard error.
pub open spec fn spec_differences(expected: Recorded, actual: Capture) -> Seq<DiffField> {
    noting(
        noting(
            noting(
                noting(Seq::empty(), DiffField::ShellCommand, expected, actual),
                DiffField::ReturnCode,
                expected,
                actual,
            ),
            DiffField::Stdout,
            expected,
            actual,
        ),
        DiffField::Stderr,
        expected,
        actual,
    )
}

/// What a replay reports of one command: every difference, or with
/// `fail_fast` only the first.
pub open spec fn spec_compare(expected: Recorded, actual: Capture, fail_fast: bool) -> Seq<
    DiffField,
> {
    let all = spec_differences(expected, actual);
    if fail_fast && all.len() > 1 {
        all.take(1)
    } else {
        all
    }
}

/// Whether two byte strings are the same.
pub fn same_bytes(a: &[u8], b: &[u8]) -> (same: bool)
    ensures
        same == (a@ == b@),
{
    if a.len() != b.len() {
        return false;
    }
    let mut i: usize = 0;
    while i < a.len()
        invariant
            i <= a@.len(),
            a@.len() == b@.len(),
            a@.take(i as int) == b@.take(i as int),
        decreases a@.len() - i,
    {
        if a[i] != b[i] {
            assert(a@[i as int] != b@[i as int]);
            return false;
        }
        assert(a@.take(i + 1) =~= a@.take(i as int).push(a@[i as int]));
        assert(b@.take(i + 1) =~= b@.take(i as int).push(b@[i as int]));
        i = i + 1;
    }
    assert(a@.take(i as int) =~= a@);
    assert(b@.take(i as int) =~= b@);
    true
}

/// Compares what a snapshot holds of a command with a fresh run of it, byte
/// for byte, and reports what differs: everything, or with `fail_fast` only
/// the first difference.
pub fn compare_outputs(expected: &RecordedOutput, actual: &CommandOutput, fail_fast: bool) -> (found:
    Vec<DiffField>)
    ensures
        found@ == spec_compare(expected@, actual@, fail_fast),
        forall|i: int| 0 <= i < found@.len() ==> differs(#[trigger] found@[i], expected@, actual@),
        found@.len() == 0 <==> forall|field: DiffField|
            !#[trigger] differs(field, expected@, actual@),
{
    let mut found: Vec<DiffField> = Vec::new();
    if expected.shell != actual.shell {
        found.push(DiffField::ShellCommand);
    }
    if expected.returncode != actual.returncode as i64 {
        found.push(DiffField::ReturnCode);
    }
    if !same_bytes(expected.stdout.as_slice(), actual.stdout.as_slice()) {
        found.push(DiffField::Stdout);
    }
    if !same_bytes(expected.stderr.as_slice(), actual.stderr.as_slice()) {
        found.push(DiffField::Stderr);
    }
    assert(found@ =~= spec_differences(expected@, actual@));
    proof {
        if found@.len() == 0 {
            assert forall|field: DiffField| !#[trigger] differs(field, expected@, actual@) by {
                match field {
                    DiffField::ShellCommand => {},
                    DiffField::ReturnCode => {},
                    DiffField::Stdout => {},
                    DiffField::Stderr => {},
                }
            }
        } else {
            assert(differs(found@[0], expected@, actual@));
        }
    }
    if fail_fast && found.len() > 1 {
        found.truncate(1);
    }
    found
}

/// A snapshot that was recorded for another number of commands than the
/// list holds.
#[derive(Debug, Clone, Copy, PartialEq, Eq, Structural)]
pub struct CountMismatch {
    /// How many commands the list holds.
    pub commands: usize,
    /// How many commands the snapshot was recorded for.
    pub recorded: u64,
}

/// Checks that a snapshot was recorded for as many commands as the list
/// holds.
pub fn check_count(recorded: u64, commands: usize) -> (res: Result<(), CountMismatch>)
    ensures
        recorded == commands ==> res is Ok,
        recorded != commands ==> res == Err::<(), CountMismatch>(
            CountMismatch { commands, recorded },
        ),
{
    if recorded == commands as u64 {
        Ok(())
    } else {
        Err(CountMismatch { commands, recorded })
    }
}

/// One difference between a snapshot and a replay: the command, and what
/// differs.
#[derive(Debug)]
pub struct ReplayDiff {
    pub shell: String,
    pub field: DiffField,
}

/// What a replay has found so far.
#[derive(Debug)]
pub struct ReplayProgress {
    fail_fast: bool,
    failed: bool,
    diffs: Vec<ReplayDiff>,
}

impl ReplayProgress {
    /// Whether the replay stops at the first difference.
    pub closed spec fn fail_fast(&self) -> bool {
        self.fail_fast
    }

    /// Whether the replay has failed: it stops at the first difference and
    /// has found one.
    pub closed spec fn failed(&self) -> bool {
        self.failed
    }

    /// The differences found so far, in the order in which they were noted.
    pub closed spec fn diffs(&self) -> Seq<ReplayDiff> {
        self.diffs@
    }

    /// A replay that has compared nothing yet.
    pub fn new(fail_fast: bool) -> (progress: ReplayProgress)
        ensures
            progress.fail_fast() == fail_fast,
            !progress.failed(),
            progress.diffs().len() == 0,
    {
        ReplayProgress { fail_fast, failed: false, diffs: Vec::new() }
    }

    /// Notes what differs for the command `shell`: one difference for each
    /// of `found`, in order. A replay that stops at the first difference
    /// fails with the first that is noted.
    pub fn note(&mut self, shell: &str, found: &Vec<DiffField>)
        ensures
            final(self).fail_fast() == old(self).fail_fast(),
            final(self).failed() == (old(self).failed() || (old(self).fail_fast() && found@.len()
                > 0)),
            final(self).diffs().len() == old(self).diffs().len() + found@.len(),
            forall|i: int|
                0 <= i < old(self).diffs().len() ==> #[trigger] final(self).diffs()[i] == old(
                    self,
                ).diffs()[i],
            forall|i: int|
                0 <= i < found@.len() ==> (#[trigger] final(self).diffs()[old(self).diffs().len()
                    + i]).field == found@[i] && final(self).diffs()[old(self).diffs().len()
                    + i].shell@ == shell@,
    {
        let mut i: usize = 0;
        while i < found.len()
            invariant
                i <= found@.len(),
                self.fail_fast == old(self).fail_fast,
                self.failed == old(self).failed,
                self.diffs@.len() == old(self).diffs@.len() + i,
                forall|k: int|
                    0 <= k < old(self).diffs@.len() ==> #[trigger] self.diffs@[k] == old(
                        self,
                    ).diffs@[k],
                forall|k: int|
                    0 <= k < i ==> (#[trigger] self.diffs@[old(self).diffs@.len() + k]).field
                        == found@[k] && self.diffs@[old(self).diffs@.len() + k].shell@ == shell@,
            decreases found@.len() - i,
        {
            self.diffs.push(ReplayDiff { shell: shell.to_owned(), field: found[i] });
            i = i + 1;
        }
        if self.fail_fast && found.len() > 0 {
            self.failed = true;
        }
    }

    /// Decides, before the command `shell` is run, whether it is to be run.
    /// A replay that stops at the first difference does not run a command
    /// that the snapshot holds under another text: it notes that difference
    /// and fails. In every other case the command is to be run and nothing
    /// is noted yet.
    pub fn admits(&mut self, recorded: &str, shell: &str) -> (run: bool)
        ensures
            run == !(old(self).fail_fast() && recorded@ != shell@),
            final(self).fail_fast() == old(self).fail_fast(),
            run ==> *final(self) == *old(self),
            !run ==> final(self).failed(),
            !run ==> final(self).diffs().len() == old(self).diffs().len() + 1,
            !run ==> final(self).diffs().drop_last() == old(self).diffs(),
            !run ==> final(self).diffs().last().field == DiffField::ShellCommand,
            !run ==> final(self).diffs().last().shell@ == shell@,
    {
        let asked = shell.to_owned();
        if self.fail_fast && recorded.to_owned() != asked {
            self.diffs.push(ReplayDiff { shell: asked, field: DiffField::ShellCommand });
            self.failed = true;
            assert(self.diffs@.drop_last() =~= old(self).diffs@);
            false
        } else {
            true
        }
    }

    /// Whether the replay is to stop before the next command.
    pub fn stopped(&self) -> (stop: bool)
        ensures
            stop == self.failed(),
    {
        self.failed
    }

    /// How the replay ended: it fails only where it stops at the first
    /// difference and found one.
    pub fn result(&self) -> (result: ReplayResult)
        ensures
            result == if self.failed() {
                ReplayResult::Fail
            } else {
                ReplayResult::Pass
            },
    {
        if self.failed {
            ReplayResult::Fail
        } else {
            ReplayResult::Pass
        }
    }

    /// Gives the differences found.
    pub fn into_diffs(self) -> (diffs: Vec<ReplayDiff>)
        ensures
            diffs@ == self.diffs(),
    {
        self.diffs
    }
}

} // verus!
