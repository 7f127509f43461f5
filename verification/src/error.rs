//! Failures that the protocol can report.

use vstd::prelude::*;

verus! {

/// The variant a [`crate::value::GenericValue`] holds.
#[derive(Clone, Copy, Debug, PartialEq, Eq, Structural)]
pub enum ValueKind {
    U64,
    Usize,
    String,
    Bytes,
}

/// A value was read as a variant other than the one it holds.
#[derive(Clone, Copy, Debug, PartialEq, Eq, Structural)]
pub struct TypeMismatch {
    pub expected: ValueKind,
    pub found: ValueKind,
}

/// The subordinate process could not be started.
#[derive(Clone, Copy, Debug, PartialEq, Eq, Structural)]
pub enum SpawnError {
    /// The process could not be created.
    Process,
    /// The process exists but no channel to it could be established.
    Channel,
}

/// The channel failed while a frame was sent or awaited.
#[derive(Clone, Copy, Debug, PartialEq, Eq, Structural)]
pub enum TransportError {
    Broken,
    Closed,
}

/// The exchange ran, but not to a usable answer.
#[derive(Clone, Copy, Debug, PartialEq, Eq, Structural)]
pub enum ProtocolError {
    /// The answer is malformed, empty or of the wrong shape.
    BadResponse,
    /// The subordinate does not know the token named in the request.
    UnknownToken,
    /// The channel failed before an answer arrived.
    Disconnected,
}

/// Every failure an operation on a sandbox can end in.
#[derive(Clone, Copy, Debug, PartialEq, Eq, Structural)]
pub enum SandboxError {
    Protocol(ProtocolError),
    TypeMismatch(TypeMismatch),
    /// The handle is empty, poisoned or shut down, or the operation does not fit
    /// the exchange that is in flight.
    InvalidState,
    /// A byte range whose end lies before its start, or a destination that does
    /// not span the range.
    InvalidRange,
}

} // verus!
