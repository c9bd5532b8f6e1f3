use vstd::prelude::*;

verus! {

/// The class of a decoding failure.
#[derive(Clone, Copy, Debug, PartialEq, Eq)]
pub enum ErrorKind {
    UnexpectedEof,
    BadMagic,
    BadChecksum,
    InvalidFrame,
    InvalidSection,
    InvalidText,
    InvalidScript,
    LimitExceeded,
}

/// A decoding failure: its kind, the offset at which it was detected and a short message.
#[derive(Clone, Copy, Debug, PartialEq, Eq)]
pub struct DecodeError {
    pub kind: ErrorKind,
    pub offset: usize,
    pub detail: &'static str,
}

/// The result of a decoding step.
pub type Result<T> = core::result::Result<T, DecodeError>;

/// The error that `DecodeError::eof` builds.
pub open spec fn eof_error(offset: int) -> DecodeError {
    DecodeError { kind: ErrorKind::UnexpectedEof, offset: offset as usize, detail: "unexpected end of input" }
}

/// The error that the checked entry points return where an integer operation would leave its
/// range (where the unchecked ones require that it does not).
pub open spec fn overflow_error() -> DecodeError {
    DecodeError { kind: ErrorKind::LimitExceeded, offset: 0, detail: "arithmetic overflow" }
}

impl DecodeError {
    pub fn new(kind: ErrorKind, offset: usize, detail: &'static str) -> (e: Self)
        ensures
            e == (DecodeError { kind, offset, detail }),
    {
        DecodeError { kind, offset, detail }
    }

    /// The error of an integer operation that would leave its range.
    pub fn overflow() -> (e: Self)
        ensures
            e == overflow_error(),
    {
        Self::new(ErrorKind::LimitExceeded, 0, "arithmetic overflow")
    }

    pub fn eof(offset: usize) -> (e: Self)
        ensures
            e == eof_error(offset as int),
    {
        Self::new(ErrorKind::UnexpectedEof, offset, "unexpected end of input")
    }
}

} // verus!
