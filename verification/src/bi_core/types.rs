//! Fields and their markers.

use vstd::prelude::*;
use vstd::utf8::*;
use crate::bi_core::decimal::{push_decimal, push_decimal_signed, spec_decimal, spec_decimal_signed};
use crate::bi_core::{MARKER_BLOB, MARKER_INT, MARKER_SINT, MARKER_SYM, NEWLINE, SPACE};

verus! {

/// The kind of a field, as told by the second byte of its marker.
#[derive(Debug, Clone, Copy, PartialEq, Eq, Structural)]
pub enum FieldMarker {
    Integer,
    SignedInteger,
    Blob,
}

impl FieldMarker {
    /// The kind that a type character stands for, if any.
    pub open spec fn spec_from_byte(byte: u8) -> Option<FieldMarker> {
        if byte == MARKER_INT {
            Some(FieldMarker::Integer)
        } else if byte == MARKER_SINT {
            Some(FieldMarker::SignedInteger)
        } else if byte == MARKER_BLOB {
            Some(FieldMarker::Blob)
        } else {
            None
        }
    }

    /// The type character that stands for this kind.
    pub open spec fn spec_to_byte(self) -> u8 {
        match self {
            FieldMarker::Integer => MARKER_INT,
            FieldMarker::SignedInteger => MARKER_SINT,
            FieldMarker::Blob => MARKER_BLOB,
        }
    }

    /// Converts the byte that follows the marker symbol into a field kind.
    pub fn from_byte(byte: u8) -> (marker: Option<FieldMarker>)
        ensures
            marker == Self::spec_from_byte(byte),
    {
        if byte == MARKER_INT {
            Some(FieldMarker::Integer)
        } else if byte == MARKER_SINT {
            Some(FieldMarker::SignedInteger)
        } else if byte == MARKER_BLOB {
            Some(FieldMarker::Blob)
        } else {
            None
        }
    }

    /// The type character of this kind.
    pub fn to_byte(self) -> (byte: u8)
        ensures
            byte == self.spec_to_byte(),
            Self::spec_from_byte(byte) == Some(self),
    {
        match self {
            FieldMarker::Integer => MARKER_INT,
            FieldMarker::SignedInteger => MARKER_SINT,
            FieldMarker::Blob => MARKER_BLOB,
        }
    }
}

/// One field of a stream: a name, and a number or raw bytes.
#[derive(Debug, Clone, PartialEq)]
#[allow(inconsistent_fields)]
pub enum BiField {
    /// Written as `:i name value\n`.
    Integer { name: Vec<u8>, value: u64 },
    /// Written as `:s name value\n`.
    SignedInteger { name: Vec<u8>, value: i64 },
    /// Written as `:b name size\n`, the raw bytes, and `\n`.
    Blob { name: Vec<u8>, data: Vec<u8> },
}

/// The mathematical content of a [`BiField`].
#[allow(inconsistent_fields)]
pub ghost enum FieldValue {
    Integer { name: Seq<u8>, value: u64 },
    SignedInteger { name: Seq<u8>, value: i64 },
    Blob { name: Seq<u8>, data: Seq<u8> },
}

impl View for BiField {
    type V = FieldValue;

    open spec fn view(&self) -> FieldValue {
        match *self {
            BiField::Integer { name, value } => FieldValue::Integer { name: name@, value },
            BiField::SignedInteger { name, value } => FieldValue::SignedInteger {
                name: name@,
                value,
            },
            BiField::Blob { name, data } => FieldValue::Blob { name: name@, data: data@ },
        }
    }
}

/// Whether `b` occurs nowhere in `s`.
pub open spec fn free_of(s: Seq<u8>, b: u8) -> bool {
    forall|i: int| 0 <= i < s.len() ==> #[trigger] s[i] != b
}

/// Whether `name` can stand as a field name: not empty, well-formed UTF-8,
/// and without a separator or a terminator in it.
pub open spec fn valid_name(name: Seq<u8>) -> bool {
    &&& name.len() > 0
    &&& valid_utf8(name)
    &&& free_of(name, SPACE)
    &&& free_of(name, NEWLINE)
}

impl FieldValue {
    /// The field's name.
    pub open spec fn name(self) -> Seq<u8> {
        match self {
            FieldValue::Integer { name, .. } => name,
            FieldValue::SignedInteger { name, .. } => name,
            FieldValue::Blob { name, .. } => name,
        }
    }

    /// The field's kind.
    pub open spec fn marker(self) -> FieldMarker {
        match self {
            FieldValue::Integer { .. } => FieldMarker::Integer,
            FieldValue::SignedInteger { .. } => FieldMarker::SignedInteger,
            FieldValue::Blob { .. } => FieldMarker::Blob,
        }
    }

    /// The invariant of a field: a valid name, and a blob whose length can
    /// be held in a size.
    pub open spec fn wf(self) -> bool {
        &&& valid_name(self.name())
        &&& self matches FieldValue::Blob { data, .. } ==> data.len() <= usize::MAX
    }

    /// What follows the name and its separator: the value's decimal text and
    /// a terminator, or a blob's size, a terminator, the raw bytes and a
    /// terminator.
    pub open spec fn payload(self) -> Seq<u8> {
        match self {
            FieldValue::Integer { value, .. } => spec_decimal(value as nat).push(NEWLINE),
            FieldValue::SignedInteger { value, .. } => spec_decimal_signed(value as int).push(
                NEWLINE,
            ),
            FieldValue::Blob { data, .. } => (spec_decimal(data.len()).push(NEWLINE) + data).push(
                NEWLINE,
            ),
        }
    }

    /// The field in one line: its marker, its name, and its value or, for a
    /// blob, the length of its data. It is what the field's encoding starts
    /// with, up to the first terminator.
    pub open spec fn summary(self) -> Seq<u8> {
        spec_marker(self.marker()) + self.name().push(SPACE) + match self {
            FieldValue::Integer { value, .. } => spec_decimal(value as nat),
            FieldValue::SignedInteger { value, .. } => spec_decimal_signed(value as int),
            FieldValue::Blob { data, .. } => spec_decimal(data.len()),
        }
    }

    /// The bytes that stand for the field in a stream.
    pub open spec fn encoding(self) -> Seq<u8> {
        spec_marker(self.marker()) + self.name().push(SPACE) + self.payload()
    }
}

/// The three bytes that introduce a field of the given kind.
pub open spec fn spec_marker(kind: FieldMarker) -> Seq<u8> {
    seq![MARKER_SYM, kind.spec_to_byte(), SPACE]
}

impl BiField {
    /// The field's name.
    pub fn name(&self) -> (name: &Vec<u8>)
        ensures
            name@ == self@.name(),
    {
        match self {
            BiField::Integer { name, .. } => name,
            BiField::SignedInteger { name, .. } => name,
            BiField::Blob { name, .. } => name,
        }
    }

    /// The field in one line, for display: `:i name value`, `:s name value`
    /// or `:b name size`.
    pub fn summary(&self) -> (line: Vec<u8>)
        ensures
            line@ == self@.summary(),
    {
        let mut line: Vec<u8> = Vec::new();
        line.push(MARKER_SYM);
        line.push(self.marker().to_byte());
        line.push(SPACE);
        line.extend_from_slice(self.name().as_slice());
        line.push(SPACE);
        match self {
            BiField::Integer { value, .. } => push_decimal(&mut line, *value as u128),
            BiField::SignedInteger { value, .. } => push_decimal_signed(&mut line, *value),
            BiField::Blob { data, .. } => push_decimal(&mut line, data.len() as u128),
        }
        assert(line@ =~= self@.summary());
        line
    }

    /// The field's kind.
    pub fn marker(&self) -> (kind: FieldMarker)
        ensures
            kind == self@.marker(),
    {
        match self {
            BiField::Integer { .. } => FieldMarker::Integer,
            BiField::SignedInteger { .. } => FieldMarker::SignedInteger,
            BiField::Blob { .. } => FieldMarker::Blob,
        }
    }
}

} // verus!
