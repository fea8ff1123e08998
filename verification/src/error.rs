//! What can go wrong when a class file is decoded or shown.
use crate::text::{decimal, hex_upper, push_decimal, push_hex_upper};
use vstd::prelude::*;
use vstd::string::StringExecFns;

verus! {

/// Why decoding of a class file stopped. Every one of these is fatal for the
/// file: nothing is recovered and no partial class is handed out.
#[derive(PartialEq, Eq, Structural, Clone, Copy, Debug)]
pub enum DecodeError {
    /// The input ended before the bytes that a read asked for.
    UnexpectedEof,
    /// The file does not start with the reserved magic number.
    BadPrelude { prelude: u32 },
    /// The major version has no label: it is outside the supported range.
    UnsupportedVersion { major: u16 },
    /// Bytes that were declared as text are not valid UTF-8.
    InvalidUtf8,
    /// A constant-pool entry starts with a tag byte that names no known shape.
    UnknownConstantTag { tag: u8 },
    /// A name index is zero, past the end of the pool, or names an entry that
    /// is not UTF-8 text.
    BadNameIndex { index: usize },
    /// The attribute is known by name but its layout is not supported.
    UnsupportedAttribute { name_index: usize },
    /// A length-delimited block declared `expected` bytes but its content
    /// took `actual` bytes.
    LengthMismatch { expected: usize, actual: usize },
}

/// Why a reference into the constant pool could not be followed.
#[derive(PartialEq, Eq, Structural, Clone, Copy, Debug)]
pub enum ResolveError {
    /// The index does not point at UTF-8 text.
    MissingUtf8 { index: usize },
    /// The index does not point at a class entry with a textual name.
    MissingClass { index: usize },
    /// The index does not point at a name-and-type pair.
    MissingNameAndType { index: usize },
}


/// The message that reports a magic number other than the reserved one.
pub open spec fn prelude_mismatch_message(prelude: u32) -> Seq<char> {
    "The prelude is 0x"@ + hex_upper(prelude as nat) + " instead of 0xCAFEBABE"@
}

/// The message that reports a major version outside the supported range.
pub open spec fn unsupported_version_message(major: u16) -> Seq<char> {
    "Major version "@ + decimal(major as nat) + " is not supported"@
}

impl DecodeError {
    /// The message that names what was expected and what was found.
    pub open spec fn spec_message(self) -> Seq<char> {
        match self {
            DecodeError::UnexpectedEof => "Unexpected end of input"@,
            DecodeError::BadPrelude { prelude } => prelude_mismatch_message(prelude),
            DecodeError::UnsupportedVersion { major } => unsupported_version_message(major),
            DecodeError::InvalidUtf8 => "Text is not valid UTF-8"@,
            DecodeError::UnknownConstantTag { tag } => "Unknown constant pool tag "@ + decimal(
                tag as nat,
            ),
            DecodeError::BadNameIndex { index } => "Name index "@ + decimal(index as nat)
                + " does not point at UTF-8 text"@,
            DecodeError::UnsupportedAttribute { name_index } => "The attribute named at index "@
                + decimal(name_index as nat) + " is not supported"@,
            DecodeError::LengthMismatch { expected, actual } => "Expected to read "@ + decimal(
                expected as nat,
            ) + " bytes but read "@ + decimal(actual as nat),
        }
    }

    /// The message that names what was expected and what was found.
    pub fn message(&self) -> (r: String)
        ensures
            r@ == self.spec_message(),
    {
        match *self {
            DecodeError::UnexpectedEof => "Unexpected end of input".to_owned(),
            DecodeError::BadPrelude { prelude } => {
                let mut message = "The prelude is 0x".to_owned();
                push_hex_upper(&mut message, prelude as u64);
                message.append(" instead of 0xCAFEBABE");
                message
            },
            DecodeError::UnsupportedVersion { major } => {
                let mut message = "Major version ".to_owned();
                push_decimal(&mut message, major as u64);
                message.append(" is not supported");
                message
            },
            DecodeError::InvalidUtf8 => "Text is not valid UTF-8".to_owned(),
            DecodeError::UnknownConstantTag { tag } => {
                let mut message = "Unknown constant pool tag ".to_owned();
                push_decimal(&mut message, tag as u64);
                message
            },
            DecodeError::BadNameIndex { index } => {
                let mut message = "Name index ".to_owned();
                push_decimal(&mut message, index as u64);
                message.append(" does not point at UTF-8 text");
                message
            },
            DecodeError::UnsupportedAttribute { name_index } => {
                let mut message = "The attribute named at index ".to_owned();
                push_decimal(&mut message, name_index as u64);
                message.append(" is not supported");
                message
            },
            DecodeError::LengthMismatch { expected, actual } => {
                let mut message = "Expected to read ".to_owned();
                push_decimal(&mut message, expected as u64);
                message.append(" bytes but read ");
                push_decimal(&mut message, actual as u64);
                message
            },
        }
    }
}

impl ResolveError {
    /// The message that names the entry that was expected and the index at
    /// which it is missing.
    pub open spec fn spec_message(self) -> Seq<char> {
        match self {
            ResolveError::MissingUtf8 { index } => "Expected a UTF-8 entry at index "@ + decimal(
                index as nat,
            ),
            ResolveError::MissingClass { index } => "Expected a class entry with a name at index "@
                + decimal(index as nat),
            ResolveError::MissingNameAndType { index } =>
                "Expected a name-and-type entry at index "@ + decimal(index as nat),
        }
    }

    /// The message that names the entry that was expected and the index at
    /// which it is missing.
    pub fn message(&self) -> (r: String)
        ensures
            r@ == self.spec_message(),
    {
        match *self {
            ResolveError::MissingUtf8 { index } => {
                let mut message = "Expected a UTF-8 entry at index ".to_owned();
                push_decimal(&mut message, index as u64);
                message
            },
            ResolveError::MissingClass { index } => {
                let mut message = "Expected a class entry with a name at index ".to_owned();
                push_decimal(&mut message, index as u64);
                message
            },
            ResolveError::MissingNameAndType { index } => {
                let mut message = "Expected a name-and-type entry at index ".to_owned();
                push_decimal(&mut message, index as u64);
                message
            },
        }
    }
}

} // verus!
