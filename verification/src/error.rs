//! Failures of the IPC layer.

use vstd::prelude::*;

use crate::json::{Json, JsonValue};

verus! {

/// Why a call on the IPC layer did not produce a value.
#[derive(Debug, Clone, PartialEq)]
pub enum WireError {
    /// The socket path was missing or unreachable when connecting.
    ConnectFailed,
    /// A read or write failed for a reason other than the peer closing.
    IoError,
    /// The peer closed the stream before a whole frame had arrived.
    ConnectionClosed,
    /// The bytes are no JSON text, or a length cannot be put in a header.
    Malformed,
    /// The compositor answered with an object that has an `"error"` member;
    /// the member's value is carried as it came.
    RemoteError(JsonValue),
}

/// Mathematical counterpart of [`WireError`].
pub enum WireFault {
    ConnectFailed,
    IoError,
    ConnectionClosed,
    Malformed,
    RemoteError(Json),
}

impl View for WireError {
    type V = WireFault;

    open spec fn view(&self) -> WireFault {
        match self {
            WireError::ConnectFailed => WireFault::ConnectFailed,
            WireError::IoError => WireFault::IoError,
            WireError::ConnectionClosed => WireFault::ConnectionClosed,
            WireError::Malformed => WireFault::Malformed,
            WireError::RemoteError(value) => WireFault::RemoteError(value@),
        }
    }
}

} // verus!
