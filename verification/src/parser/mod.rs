//! Reading fields back from a stream of bytes.

pub mod decoder;
pub mod error;
pub mod failures;
pub mod grammar;
pub mod reader;
pub mod roundtrip;
