//! Writing fields as bytes.

pub mod error;
pub mod writer;
