//! Defaults of the configuration.

use vstd::prelude::*;

verus! {

/// Default path of the configuration file.
pub const CONFIG_PATH: &'static str = "./rere/rere.toml";

/// Default name of the file that lists the commands.
pub const TEST_FILE: &'static str = "test.list";

/// Default directory of the snapshots, relative to the configuration file.
pub const SNAPSHOT_DIR: &'static str = "snapshots";

/// Default number of runs whose data is kept.
pub const HISTORY: usize = 3;

/// Whether a recording replaces the last snapshot by default.
pub const OVERWRITE: bool = true;

/// Whether a replay stops at the first difference by default.
pub const FAILFAST: bool = true;

} // verus!
