//! Client-side protocol logic for the Wayfire compositor's JSON IPC socket,
//! together with the plain data model of the surrounding desktop shell.
//!
//! Everything here is free of I/O: sockets, clocks owned by a toolkit and
//! process-wide state live with the caller, which feeds bytes and events in
//! and carries the resulting bytes and decisions out.

pub mod codec;
pub mod compositor;
pub mod decimal;
pub mod error;
pub mod frame;
pub mod json;
pub mod launch;
pub mod notify;
pub mod reader;
pub mod source;
pub mod wf_ipc;
pub mod wf_socket;
