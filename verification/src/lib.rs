//! A verified networking core for a streamed simulation: a typed in-process
//! message pipe, a fixed binary wire codec, the server-side broadcast
//! registry that fans snapshots out to websocket clients and prunes the
//! failed, the per-connection forwarding logic, and the reconnecting
//! consumer-side client with its single-slot latest-state mailbox and
//! buffered command queue. Transport I/O itself stays outside; the core
//! holds the data, the decisions and the proofs.

use vstd::prelude::*;

pub mod channel;
pub mod client;
pub mod codec;
pub mod geometry;
pub mod message;
pub mod protocol;
pub mod server;
pub mod ui;
pub mod viewer;

verus! {

/// The library's error taxonomy. Transient transport conditions drive a
/// reconnect or a client removal; everything else is surfaced loudly.
#[derive(Clone, Debug)]
pub enum Error {
    SystemIo { message: String },
    Internal { message: String },
    BadValue { from: String, to: String, value: String },
    WebSocket { message: String },
    Encode { message: String },
}

/// Branch prediction hint; the value passes through unchanged.
#[inline(always)]
pub fn unlikely(b: bool) -> (r: bool)
    ensures
        r == b,
{
    b
}

/// Branch prediction hint; the value passes through unchanged.
#[inline(always)]
pub fn likely(b: bool) -> (r: bool)
    ensures
        r == b,
{
    b
}

} // verus!
