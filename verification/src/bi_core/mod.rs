//! The grammar of the format: the bytes that frame a field.

use vstd::prelude::*;

pub mod decimal;
pub mod text;
pub mod error;
pub mod types;

verus! {

/// First byte of every marker: `:`.
pub const MARKER_SYM: u8 = 0x3a;

/// Type character of an unsigned integer field: `i`.
pub const MARKER_INT: u8 = 0x69;

/// Type character of a signed integer field: `s`.
pub const MARKER_SINT: u8 = 0x73;

/// Type character of a blob field: `b`.
pub const MARKER_BLOB: u8 = 0x62;

/// Separator after the marker's type character and after the field name: a
/// space.
pub const SPACE: u8 = 0x20;

/// Terminator of a value, of a blob's size and of a blob's content: a line
/// feed.
pub const NEWLINE: u8 = 0x0a;

/// Where the format is described.
pub const BIDOCS: &'static str = "https://github.com/tsoding/bi-format/blob/main/README.md";

/// Length of a marker: symbol, type character, separator.
pub const MARKER_LEN: usize = 3;

} // verus!
