//! Recording and replaying shell commands on top of the field format: the
//! layout of a snapshot, the comparison of a replay with it, and the rules of
//! the tool's configuration. Running commands and touching files is left to
//! the caller.

pub mod clean;
pub mod config;
pub mod constants;
pub mod list;
pub mod naming;
pub mod record;
pub mod replay;
pub mod shell;
pub mod snapshot;
