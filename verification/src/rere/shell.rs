//! What running one shell command gives.

use vstd::prelude::*;

verus! {

/// A command and what it printed and returned.
pub struct CommandOutput {
    pub shell: String,
    pub returncode: i32,
    pub stdout: Vec<u8>,
    pub stderr: Vec<u8>,
}

/// The mathematical content of a [`CommandOutput`].
pub ghost struct Capture {
    pub shell: Seq<char>,
    pub returncode: i32,
    pub stdout: Seq<u8>,
    pub stderr: Seq<u8>,
}

impl View for CommandOutput {
    type V = Capture;

    open spec fn view(&self) -> Capture {
        Capture {
            shell: self.shell@,
            returncode: self.returncode,
            stdout: self.stdout@,
            stderr: self.stderr@,
        }
    }
}

} // verus!
