//! The tool's configuration and the history that it keeps of its runs.

use vstd::prelude::*;
use vstd::string::*;
use crate::rere::constants::{FAILFAST, HISTORY, OVERWRITE, SNAPSHOT_DIR, TEST_FILE};

verus! {

/// Where the commands and the snapshots are, and how much history is kept.
#[derive(Debug)]
pub struct CommonConfig {
    pub test_file: String,
    pub snapshot_dir: String,
    pub history: usize,
}

/// How a recording is made.
#[derive(Debug)]
pub struct RecordConfig {
    pub overwrite: bool,
}

/// How a replay is made.
#[derive(Debug)]
pub struct ReplayConfig {
    pub fail_fast: bool,
}

/// How a replay ended.
#[derive(Debug, Clone, Copy, PartialEq, Eq, Structural)]
pub enum ReplayResult {
    Pass,
    Fail,
}

/// A moment, as seconds and nanoseconds since the Unix epoch.
#[derive(Debug, Clone, Copy, PartialEq, Eq, Structural)]
pub struct Timestamp {
    pub secs: i64,
    pub nanos: u32,
}

/// The latest runs, newest first. The three lists of recordings run in
/// step, and so do the three lists of replays.
#[derive(Debug)]
pub struct StateConfig {
    pub latest_snapshots: Vec<String>,
    pub record_timestamps: Vec<Timestamp>,
    /// Nanoseconds that each recording took.
    pub record_elapsed_time: Vec<u64>,
    pub replay_timestamps: Vec<Timestamp>,
    /// Nanoseconds that each replay took.
    pub replay_elapsed_time: Vec<u64>,
    pub replay_results: Vec<ReplayResult>,
}

/// The whole configuration.
#[derive(Debug)]
pub struct Config {
    pub common: CommonConfig,
    pub record: RecordConfig,
    pub replay: ReplayConfig,
    pub state: StateConfig,
}

/// A history with `item` put in front and cut to `limit` entries.
pub open spec fn spec_remember<T>(list: Seq<T>, item: T, limit: nat) -> Seq<T> {
    let grown = seq![item] + list;
    if grown.len() > limit {
        grown.take(limit as int)
    } else {
        grown
    }
}

/// Puts `item` in front of `list` and drops what lies beyond `limit`
/// entries.
pub fn remember<T>(list: &mut Vec<T>, item: T, limit: usize)
    ensures
        final(list)@ == spec_remember(old(list)@, item, limit as nat),
        final(list)@.len() <= limit,
{
    list.insert(0, item);
    list.truncate(limit);
    assert(list@ =~= spec_remember(old(list)@, item, limit as nat));
}

impl StateConfig {
    /// Whether no run is held.
    pub open spec fn is_empty(&self) -> bool {
        &&& self.latest_snapshots@.len() == 0
        &&& self.record_timestamps@.len() == 0
        &&& self.record_elapsed_time@.len() == 0
        &&& self.replay_timestamps@.len() == 0
        &&& self.replay_elapsed_time@.len() == 0
        &&& self.replay_results@.len() == 0
    }

    /// A state that holds no run.
    pub fn new() -> (state: StateConfig)
        ensures
            state.is_empty(),
    {
        StateConfig {
            latest_snapshots: Vec::new(),
            record_timestamps: Vec::new(),
            record_elapsed_time: Vec::new(),
            replay_timestamps: Vec::new(),
            replay_elapsed_time: Vec::new(),
            replay_results: Vec::new(),
        }
    }
}

impl Config {
    /// Whether this is the configuration that nothing has changed: the
    /// default names and switches, and no run held.
    pub open spec fn is_default(&self) -> bool {
        &&& self.common.test_file@ == TEST_FILE@
        &&& self.common.snapshot_dir@ == SNAPSHOT_DIR@
        &&& self.common.history == HISTORY
        &&& self.record.overwrite == OVERWRITE
        &&& self.replay.fail_fast == FAILFAST
        &&& self.state.is_empty()
    }

    /// Notes a recording: its snapshot, when it was made and how long it
    /// took go in front of their lists, and each list is cut to the length
    /// of the history. Nothing else changes.
    pub fn update_latest_record(&mut self, snapshot_path: String, timestamp: Timestamp, elapsed: u64)
        ensures
            final(self).state.latest_snapshots@ == spec_remember(
                old(self).state.latest_snapshots@,
                snapshot_path,
                old(self).common.history as nat,
            ),
            final(self).state.record_timestamps@ == spec_remember(
                old(self).state.record_timestamps@,
                timestamp,
                old(self).common.history as nat,
            ),
            final(self).state.record_elapsed_time@ == spec_remember(
                old(self).state.record_elapsed_time@,
                elapsed,
                old(self).common.history as nat,
            ),
            final(self).state.replay_timestamps == old(self).state.replay_timestamps,
            final(self).state.replay_elapsed_time == old(self).state.replay_elapsed_time,
            final(self).state.replay_results == old(self).state.replay_results,
            final(self).common == old(self).common,
            final(self).record == old(self).record,
            final(self).replay == old(self).replay,
    {
        let limit = self.common.history;
        remember(&mut self.state.latest_snapshots, snapshot_path, limit);
        remember(&mut self.state.record_timestamps, timestamp, limit);
        remember(&mut self.state.record_elapsed_time, elapsed, limit);
    }

    /// Notes a replay: when it was made, how long it took and how it ended
    /// go in front of their lists, and each list is cut to the length of the
    /// history. Nothing else changes.
    pub fn update_latest_replay(&mut self, timestamp: Timestamp, elapsed: u64, result: ReplayResult)
        ensures
            final(self).state.replay_timestamps@ == spec_remember(
                old(self).state.replay_timestamps@,
                timestamp,
                old(self).common.history as nat,
            ),
            final(self).state.replay_elapsed_time@ == spec_remember(
                old(self).state.replay_elapsed_time@,
                elapsed,
                old(self).common.history as nat,
            ),
            final(self).state.replay_results@ == spec_remember(
                old(self).state.replay_results@,
                result,
                old(self).common.history as nat,
            ),
            final(self).state.latest_snapshots == old(self).state.latest_snapshots,
            final(self).state.record_timestamps == old(self).state.record_timestamps,
            final(self).state.record_elapsed_time == old(self).state.record_elapsed_time,
            final(self).common == old(self).common,
            final(self).record == old(self).record,
            final(self).replay == old(self).replay,
    {
        let limit = self.common.history;
        remember(&mut self.state.replay_timestamps, timestamp, limit);
        remember(&mut self.state.replay_elapsed_time, elapsed, limit);
        remember(&mut self.state.replay_results, result, limit);
    }

    /// The snapshot of the latest recording, if there is one.
    pub fn get_latest_snapshot(&self) -> (latest: Option<&String>)
        ensures
            match latest {
                Some(path) => self.state.latest_snapshots@.len() > 0 && *path
                    == self.state.latest_snapshots@[0],
                None => self.state.latest_snapshots@.len() == 0,
            },
    {
        if self.state.latest_snapshots.len() > 0 {
            Some(&self.state.latest_snapshots[0])
        } else {
            None
        }
    }

    /// Puts everything back to its default but the two paths.
    pub fn reset(&mut self)
        ensures
            final(self).common.test_file == old(self).common.test_file,
            final(self).common.snapshot_dir == old(self).common.snapshot_dir,
            final(self).common.history == HISTORY,
            final(self).record.overwrite == OVERWRITE,
            final(self).replay.fail_fast == FAILFAST,
            final(self).state.is_empty(),
    {
        self.common.history = HISTORY;
        self.record.overwrite = OVERWRITE;
        self.replay.fail_fast = FAILFAST;
        self.state = StateConfig::new();
    }
}

impl Default for Config {
    fn default() -> (config: Config)
        ensures
            config.is_default(),
    {
        Config {
            common: CommonConfig {
                test_file: TEST_FILE.to_owned(),
                snapshot_dir: SNAPSHOT_DIR.to_owned(),
                history: HISTORY,
            },
            record: RecordConfig { overwrite: OVERWRITE },
            replay: ReplayConfig { fail_fast: FAILFAST },
            state: StateConfig::new(),
        }
    }
}

/// The choice that `given` makes, or `fallback` where none was made.
pub open spec fn chosen<T>(given: Option<T>, fallback: T) -> T {
    match given {
        Some(value) => value,
        None => fallback,
    }
}

/// The configuration that a new setup starts with: the defaults, with the
/// given length of history and with each option that was given in place of
/// its default. No run is held.
pub fn init_config(
    test_file: Option<String>,
    snapshot_dir: Option<String>,
    history: usize,
    overwrite: Option<bool>,
    fail_fast: Option<bool>,
) -> (config: Config)
    ensures
        config.common.history == history,
        match test_file {
            Some(path) => config.common.test_file == path,
            None => config.common.test_file@ == TEST_FILE@,
        },
        match snapshot_dir {
            Some(path) => config.common.snapshot_dir == path,
            None => config.common.snapshot_dir@ == SNAPSHOT_DIR@,
        },
        config.record.overwrite == chosen(overwrite, OVERWRITE),
        config.replay.fail_fast == chosen(fail_fast, FAILFAST),
        config.state.is_empty(),
{
    let mut config = Config::default();
    config.common.history = history;
    if let Some(test_file) = test_file {
        config.common.test_file = test_file;
    }
    if let Some(snapshot_dir) = snapshot_dir {
        config.common.snapshot_dir = snapshot_dir;
    }
    if let Some(overwrite) = overwrite {
        config.record.overwrite = overwrite;
    }
    if let Some(fail_fast) = fail_fast {
        config.replay.fail_fast = fail_fast;
    }
    config
}

} // verus!
