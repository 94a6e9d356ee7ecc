//! The errors of the message codec.

use crate::error::IoError;
use vstd::prelude::*;
use vstd::utf8::*;

verus! {

/// Where a byte sequence stops being UTF-8.
#[derive(Debug, Clone, Copy, PartialEq, Eq, Structural)]
pub struct Utf8Error {
    /// The length of the longest prefix that is valid UTF-8.
    pub valid_up_to: usize,
}

/// Whether `n` is the length of the longest prefix of `bytes` that is valid UTF-8.
pub open spec fn spec_is_valid_up_to(bytes: Seq<u8>, n: int) -> bool {
    &&& 0 <= n <= bytes.len()
    &&& valid_utf8(bytes.subrange(0, n))
    &&& forall|j: int| n < j <= bytes.len() ==> !valid_utf8(#[trigger] bytes.subrange(0, j))
}

/// The length of the longest prefix of `bytes` that is valid UTF-8.
pub open spec fn spec_valid_up_to(bytes: Seq<u8>) -> int {
    choose|n: int| spec_is_valid_up_to(bytes, n)
}

/// The longest valid prefix has one length only.
pub proof fn lemma_valid_up_to_unique(bytes: Seq<u8>, n: int)
    requires
        spec_is_valid_up_to(bytes, n),
    ensures
        spec_valid_up_to(bytes) == n,
{
    let m = spec_valid_up_to(bytes);
    assert(spec_is_valid_up_to(bytes, m));
    if m < n {
        assert(!valid_utf8(bytes.subrange(0, n)));
    }
    if n < m {
        assert(!valid_utf8(bytes.subrange(0, m)));
    }
}

/// The error that underlies an error of the message codec.
#[derive(Debug, Clone, Copy, PartialEq, Eq, Structural)]
pub enum Source {
    Io(IoError),
    Utf8(Utf8Error),
}

/// The errors of the message codec.
#[derive(Debug, Clone, PartialEq)]
pub enum Error {
    /// A free-form description of a failure.
    Message(String),
    /// A socket operation failed.
    Io(IoError),
    /// A value does not have the type or the form that its place asks for.
    IncorrectType,
    /// A text is not valid UTF-8.
    Utf8(Utf8Error),
    /// The buffer ends before the value does.
    InsufficientData,
    /// A padding byte is not zero.
    PaddingNot0,
    /// A file descriptor is referred to that was not received.
    UnknownFd,
}

impl Error {
    /// A description of the error for people to read.
    pub fn description(&self) -> (s: String)
        ensures
            self matches Error::Message(m) ==> s@ == m@,
            self is IncorrectType ==> s@ == "incorrect type"@,
            self is InsufficientData ==> s@ == "insufficient data"@,
            self is PaddingNot0 ==> s@ == "non-0 padding byte(s)"@,
            self is UnknownFd ==> s@ == "File descriptor not in the given FD index"@,
            self is Io ==> s@ == "I/O error"@,
            self is Utf8 ==> s@ == "invalid UTF-8"@,
    {
        match self {
            Error::Message(m) => m.clone(),
            Error::Io(_) => "I/O error".to_owned(),
            Error::IncorrectType => "incorrect type".to_owned(),
            Error::Utf8(_) => "invalid UTF-8".to_owned(),
            Error::InsufficientData => "insufficient data".to_owned(),
            Error::PaddingNot0 => "non-0 padding byte(s)".to_owned(),
            Error::UnknownFd => "File descriptor not in the given FD index".to_owned(),
        }
    }

    /// The error that underlies this one, where it wraps one.
    pub fn source(&self) -> (r: Option<Source>)
        ensures
            r == (match *self {
                Error::Io(e) => Some(Source::Io(e)),
                Error::Utf8(e) => Some(Source::Utf8(e)),
                _ => None,
            }),
    {
        match self {
            Error::Io(e) => Some(Source::Io(*e)),
            Error::Utf8(e) => Some(Source::Utf8(*e)),
            _ => None,
        }
    }

    /// The error that carries a free-form description.
    pub fn custom(msg: &str) -> (e: Error)
        ensures
            e matches Error::Message(m) && m@ == msg@,
    {
        Error::Message(msg.to_owned())
    }
}

} // verus!
