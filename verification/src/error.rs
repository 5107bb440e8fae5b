//! The ways a run can fail.

use vstd::prelude::*;

verus! {

/// The part of a run in which something failed.
#[derive(Clone, Copy, Debug, PartialEq, Eq, Structural)]
pub enum Phase {
    /// The startup exchange.
    Handshake,
    /// Reading a message after the startup exchange.
    Decode,
    /// Building the node from what the startup exchange gave.
    Construction,
    /// The node's handling of one message.
    Step,
}

/// Why a line could not be read as a message.
#[derive(Clone, Copy, Debug, PartialEq, Eq, Structural)]
pub enum DecodeKind {
    /// The line is not JSON.
    Syntax,
    /// The line is JSON, but not a message: not an object, `src` or `dest`
    /// not a string, `body` not an object, or an identifier that is not an
    /// unsigned integer.
    Shape,
    /// The line is a message, but its payload is not of the expected type.
    Payload,
}

/// A line that could not be read as a message.
#[derive(Debug, Clone, PartialEq, Eq)]
pub struct DecodeError {
    /// The offending line.
    pub line: String,
    pub kind: DecodeKind,
}

/// A violation of the startup exchange.
#[derive(Clone, Copy, Debug, PartialEq, Eq, Structural)]
pub enum ProtocolError {
    /// The input ended before any line arrived.
    MissingInit,
    /// The first message is not an `init` request.
    UnexpectedFirstMessage,
}

/// Why a run ended in failure. Every failure is final: nothing is retried.
#[derive(Debug, Clone, PartialEq, Eq)]
pub enum Error {
    /// A line could not be read as a message.
    Decode { phase: Phase, error: DecodeError },
    /// The startup exchange was violated.
    Protocol(ProtocolError),
    /// The node could not be built; the reason is the node logic's own.
    Initialization(String),
    /// The node failed on a message; the reason is the node logic's own.
    Step(String),
    /// The input could not be read or the output could not be written.
    Io { phase: Phase, reason: String },
}

/// The value of a [`DecodeError`].
pub ghost struct DecodeErrorView {
    pub line: Seq<char>,
    pub kind: DecodeKind,
}

/// The value of an [`Error`].
pub ghost enum ErrorView {
    Decode { phase: Phase, error: DecodeErrorView },
    Protocol(ProtocolError),
    Initialization(Seq<char>),
    Step(Seq<char>),
    Io { phase: Phase, reason: Seq<char> },
}

impl View for DecodeError {
    type V = DecodeErrorView;

    open spec fn view(&self) -> DecodeErrorView {
        DecodeErrorView { line: self.line@, kind: self.kind }
    }
}

impl View for Error {
    type V = ErrorView;

    open spec fn view(&self) -> ErrorView {
        match self {
            Error::Decode { phase, error } => ErrorView::Decode { phase: *phase, error: error@ },
            Error::Protocol(error) => ErrorView::Protocol(*error),
            Error::Initialization(reason) => ErrorView::Initialization(reason@),
            Error::Step(reason) => ErrorView::Step(reason@),
            Error::Io { phase, reason } => ErrorView::Io { phase: *phase, reason: reason@ },
        }
    }
}

impl ErrorView {
    /// The part of the run in which the failure arose.
    pub open spec fn phase(self) -> Phase {
        match self {
            ErrorView::Decode { phase, .. } => phase,
            ErrorView::Protocol(_) => Phase::Handshake,
            ErrorView::Initialization(_) => Phase::Construction,
            ErrorView::Step(_) => Phase::Step,
            ErrorView::Io { phase, .. } => phase,
        }
    }
}

impl Error {
    /// The part of the run in which the failure arose.
    pub fn phase(&self) -> (phase: Phase)
        ensures
            phase == self@.phase(),
    {
        match self {
            Error::Decode { phase, .. } => *phase,
            Error::Protocol(_) => Phase::Handshake,
            Error::Initialization(_) => Phase::Construction,
            Error::Step(_) => Phase::Step,
            Error::Io { phase, .. } => *phase,
        }
    }
}

} // verus!
