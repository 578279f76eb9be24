//! Host-side link layer for a cartridge-style peripheral: framing, handshake
//! and command/response/packet dispatch, written without any I/O of its own.
//!
//! Every operation that needs the transport is given as a sequence of
//! steps. A step names the read or write that comes next; whoever drives
//! the link performs it and hands back a report of what happened.

pub mod discovery;
pub mod error;
pub mod frame;
pub mod link;
pub mod reader;
pub mod receive;
pub mod serial;
pub mod stream;
