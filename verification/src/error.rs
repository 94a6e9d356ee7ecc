//! The errors of the connection layer.

use crate::message::{Message, MessageView};
use crate::variant;
use vstd::prelude::*;

verus! {

/// What went wrong in a socket operation, as far as the connection layer
/// distinguishes it.
#[derive(Debug, Clone, Copy, PartialEq, Eq, Structural)]
pub enum IoErrorKind {
    /// The operation would have had to wait on a non-blocking socket.
    WouldBlock,
    /// The peer closed the stream.
    UnexpectedEof,
    /// Any other failure.
    Other,
}

/// A failed socket operation: its kind, and the platform's error number where
/// there is one.
#[derive(Debug, Clone, Copy, PartialEq, Eq, Structural)]
pub struct IoError {
    pub kind: IoErrorKind,
    pub raw_os_error: Option<i32>,
}

impl IoError {
    /// A failure of the given kind without a platform error number.
    pub fn new(kind: IoErrorKind) -> (e: IoError)
        ensures
            e == (IoError { kind, raw_os_error: None }),
    {
        IoError { kind, raw_os_error: None }
    }

    /// Whether the operation only has to be tried again once the socket is ready.
    pub fn is_would_block(&self) -> (r: bool)
        ensures
            r == (self.kind == IoErrorKind::WouldBlock),
    {
        match self.kind {
            IoErrorKind::WouldBlock => true,
            _ => false,
        }
    }
}

/// The errors that the connection layer reports.
#[derive(Debug, Clone, PartialEq)]
pub enum Error {
    /// A socket operation failed.
    Io(IoError),
    /// The authentication handshake failed; the text says how.
    Handshake(String),
    /// The peer has not agreed to a capability that the operation needs.
    Unsupported,
    /// The peer answered a method call with an error: the error's name, the
    /// description found in its body, and the message itself.
    MethodError(String, Option<String>, Message),
    /// The message codec rejected its input.
    Variant(variant::Error),
    /// A message could not be built from the parts given.
    InvalidMessage,
}

/// An error of the connection layer as a mathematical value.
pub enum ErrorView {
    Io(IoError),
    Handshake(Seq<char>),
    Unsupported,
    MethodError(Seq<char>, Option<Seq<char>>, MessageView),
    Variant(variant::Error),
    InvalidMessage,
}

impl View for Error {
    type V = ErrorView;

    open spec fn view(&self) -> ErrorView {
        match self {
            Error::Io(e) => ErrorView::Io(*e),
            Error::Handshake(s) => ErrorView::Handshake(s@),
            Error::Unsupported => ErrorView::Unsupported,
            Error::MethodError(name, description, m) => ErrorView::MethodError(
                name@,
                match description {
                    Some(d) => Some(d@),
                    None => None,
                },
                m@,
            ),
            Error::Variant(e) => ErrorView::Variant(*e),
            Error::InvalidMessage => ErrorView::InvalidMessage,
        }
    }
}

impl Error {
    /// The handshake error with the given description.
    pub fn handshake(msg: &str) -> (e: Error)
        ensures
            e@ == ErrorView::Handshake(msg@),
    {
        Error::Handshake(msg.to_owned())
    }
}

} // verus!
