//! Error values surfaced by the client and carried through the channels.

use vstd::prelude::*;

verus! {

/// A device error for commands that declare no specific error mapping.
#[derive(Clone, Copy, Debug, PartialEq, Eq, Structural)]
pub struct GenericError;

/// A classified entry for the error side of the response channel: either a
/// device-reported error with its raw payload, or a buffer-capacity failure
/// in the ingress manager.
#[derive(Clone, Debug, PartialEq, Eq)]
pub enum InternalError {
    /// The device reported an explicit error status; the payload holds the
    /// accumulated response bytes that preceded the error terminator.
    Error(Vec<u8>),
    /// A line exceeded the fixed line-buffer capacity; classification failed.
    Overflow,
}

/// The mathematical value of an [`InternalError`]: the payload as a byte
/// sequence.
pub enum InternalErrorView {
    Error(Seq<u8>),
    Overflow,
}

impl View for InternalError {
    type V = InternalErrorView;

    open spec fn view(&self) -> InternalErrorView {
        match self {
            InternalError::Error(v) => InternalErrorView::Error(v@),
            InternalError::Overflow => InternalErrorView::Overflow,
        }
    }
}

/// The errors a command can end with, parameterized over the command's
/// declared device-error type.
#[derive(Clone, Copy, Debug, PartialEq, Eq)]
pub enum Error<E> {
    /// The transport write or flush failed.
    Write,
    /// The command's countdown expired while awaiting a reply.
    Timeout,
    /// The reply bytes did not match the expected response shape.
    Parse,
    /// The device reported an explicit error, mapped through the command's
    /// declared error type.
    Error(E),
}

/// The outcome of a non-blocking operation: either a terminal error, or an
/// indication that the operation cannot complete yet.
#[derive(Clone, Copy, Debug, PartialEq, Eq)]
pub enum NbError<E> {
    /// A terminal error.
    Other(Error<E>),
    /// No terminal reply has been classified yet; poll again later.
    WouldBlock,
}

} // verus!
