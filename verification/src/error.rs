//! The errors that the primitive parsers report.
use vstd::prelude::*;

verus! {

/// The input ended before the parser had read all the bytes it needs.
#[derive(Debug, Clone, Copy, PartialEq, Eq, Structural)]
pub struct UnexpectedEof;

/// The parser expected the input to be exhausted, but bytes remained.
#[derive(Debug, Clone, Copy, PartialEq, Eq, Structural)]
pub struct ExpectedEof;

/// The input did not start with the expected tag bytes.
#[derive(Debug, Clone, Copy, PartialEq, Eq, Structural)]
pub struct TagMismatch;

/// Why a [`crate::Tag`] parser failed.
#[derive(Debug, Clone, Copy, PartialEq, Eq, Structural)]
pub enum TagError {
    UnexpectedEof(UnexpectedEof),
    TagMismatch(TagMismatch),
}

impl UnexpectedEof {
    /// The human-readable description of this error.
    pub fn message(&self) -> (s: &'static str)
        ensures
            s@ == "unexpected eof"@,
    {
        "unexpected eof"
    }
}

impl ExpectedEof {
    /// The human-readable description of this error.
    pub fn message(&self) -> (s: &'static str)
        ensures
            s@ == "expected eof"@,
    {
        "expected eof"
    }
}

impl TagMismatch {
    /// The human-readable description of this error.
    pub fn message(&self) -> (s: &'static str)
        ensures
            s@ == "tag mismatch"@,
    {
        "tag mismatch"
    }
}

impl TagError {
    /// The human-readable description of this error: that of the error it holds.
    pub fn message(&self) -> (s: &'static str)
        ensures
            s@ == match self {
                TagError::UnexpectedEof(_) => "unexpected eof"@,
                TagError::TagMismatch(_) => "tag mismatch"@,
            },
    {
        match self {
            TagError::UnexpectedEof(e) => e.message(),
            TagError::TagMismatch(e) => e.message(),
        }
    }
}

} // verus!
