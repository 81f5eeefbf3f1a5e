use vstd::prelude::*;

use crate::codec;
use crate::message::{Frame, FromWebSocketMessage, SpawnRequest};

verus! {

/// What the per-connection forwarding task does with one inbound frame.
#[derive(Copy, Clone, Debug, PartialEq, Eq, Structural)]
pub enum ForwardAction {
    /// A binary frame whose payload was exactly one spawn-request encoding:
    /// the decoded command is pushed onto the shared forward queue.
    Deliver(SpawnRequest),
    /// A binary frame that did not decode: logged and dropped, the
    /// connection stays open and nothing is queued.
    DropMalformed,
    /// A text, ping or pong frame: logged and dropped, the connection stays
    /// open and nothing is queued.
    DropNonBinary,
    /// A close frame: the forwarding task ends.
    Stop,
}

/// Decide what one inbound frame becomes on the forwarding path.
///
/// A command is produced only from a binary frame whose payload is exactly
/// one spawn-request encoding, so a malformed frame never enqueues a
/// command; and no frame kind stops the task but a close frame.
pub fn forward_step(frame: &Frame) -> (r: ForwardAction)
    ensures
        match frame {
            Frame::Binary(b) => match codec::spec_parse_spawn_request(b@) {
                Some(q) => r == ForwardAction::Deliver(q),
                None => r == ForwardAction::DropMalformed,
            },
            Frame::Close => r == ForwardAction::Stop,
            _ => r == ForwardAction::DropNonBinary,
        },
{
    match frame {
        Frame::Binary(bytes) => match SpawnRequest::from_wire(bytes) {
            Some(q) => ForwardAction::Deliver(q),
            None => ForwardAction::DropMalformed,
        },
        Frame::Text(_) => ForwardAction::DropNonBinary,
        Frame::Ping(_) => ForwardAction::DropNonBinary,
        Frame::Pong(_) => ForwardAction::DropNonBinary,
        Frame::Close => ForwardAction::Stop,
    }
}

} // verus!
