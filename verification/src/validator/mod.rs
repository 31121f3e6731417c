//! The rules that reader and writer share: checks of a marker, a field name,
//! the text of an integer and the raw content of a blob.

pub mod error;
pub mod utils;
