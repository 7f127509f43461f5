//! Host-side control protocol for a sandboxed interpreter process.
//!
//! The host drives one long-lived subordinate process through a single
//! request/response channel. This crate holds the protocol itself: the value
//! model and its byte encoding, the controller's exchange discipline, the tokens,
//! the handle that the embedding layer shares between callers, and
//! the range-call convention that fills a caller-owned buffer on demand.
//! Moving bytes to and from the subordinate is left to the embedding layer: every
//! operation is a pair of steps, one that yields the frame to transmit and one
//! that takes what the channel brought back.

pub mod controller;
pub mod error;
pub mod handle;
pub mod laws;
pub mod message;
pub mod token;
pub mod value;
pub mod wire;

pub use crate::controller::{ControllerProcess, Operation};
pub use crate::error::{
    ProtocolError, SandboxError, SpawnError, TransportError, TypeMismatch, ValueKind,
};
pub use crate::handle::{data_token_or_zero, function_token_or_zero, Purpose, Sandbox};
pub use crate::message::{Reply, Request, Response};
pub use crate::token::{DataToken, FunctionToken};
pub use crate::value::{CArrayFactory, GenericValue};
pub use crate::wire::{read_reply, read_request, write_reply, write_request};
