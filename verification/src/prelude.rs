//! The names that most callers need.

pub use crate::bi_core::error::BiError;
pub use crate::bi_core::types::BiField;
pub use crate::bi_core::{MARKER_BLOB, MARKER_INT, MARKER_SINT, MARKER_SYM, NEWLINE, SPACE};
pub use crate::parser::reader::BiReader;
pub use crate::writer::writer::BiWriter;
