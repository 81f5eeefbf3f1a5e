use holodeck::channel::{forward_step, ForwardAction};
use holodeck::client::{ClientDirective, ClientEvent, ReconnectingClient, RECONNECT_DELAY_MS};
use holodeck::codec::{encode_spawn_request, encode_state};
use holodeck::message::{Entity, Frame, SimulationState, SpawnRequest};

fn snapshot(tick: u64) -> SimulationState {
    SimulationState {
        tick,
        entity_count: 1,
        entities: vec![Entity { id: 1, tag: 1, x: 0, y: 0, z: 0 }],
    }
}

#[test]
fn handshake_failure_waits_the_fixed_delay() {
    let mut c = ReconnectingClient::new();
    let d = c.on_event(ClientEvent::ConnectFailed);
    assert_eq!(d, ClientDirective::RetryAfter(RECONNECT_DELAY_MS));
    assert_eq!(RECONNECT_DELAY_MS, 3000);
    // Failure is retried indefinitely, same delay each time.
    for _ in 0..3 {
        assert_eq!(c.on_event(ClientEvent::ConnectFailed), ClientDirective::RetryAfter(3000));
    }
    assert_eq!(c.on_event(ClientEvent::ConnectSucceeded), ClientDirective::Continue);
}

#[test]
fn mailbox_holds_the_latest_snapshot() {
    let mut c = ReconnectingClient::new();
    c.on_event(ClientEvent::ConnectSucceeded);
    c.on_event(ClientEvent::FrameReceived(Frame::Binary(encode_state(&snapshot(1)))));
    c.on_event(ClientEvent::FrameReceived(Frame::Binary(encode_state(&snapshot(2)))));
    // Latest wins: the intermediate tick is dropped, never re-exposed.
    let got = c.take_state().expect("a snapshot is waiting");
    assert_eq!(got.tick, 2);
    assert!(c.take_state().is_none());
}

#[test]
fn mailbox_never_regresses_across_samples() {
    let mut c = ReconnectingClient::new();
    c.on_event(ClientEvent::ConnectSucceeded);
    let mut last_seen = 0u64;
    for tick in [1u64, 3, 3, 7, 9] {
        c.on_event(ClientEvent::FrameReceived(Frame::Binary(encode_state(&snapshot(tick)))));
        // Malformed payloads interleave freely without disturbing the slot.
        c.on_event(ClientEvent::FrameReceived(Frame::Binary(vec![0xff; 7])));
        if tick % 2 == 1 {
            // Sample at arbitrary times: never an older tick than before.
            if let Some(s) = c.take_state() {
                assert!(s.tick >= last_seen);
                last_seen = s.tick;
            }
        }
    }
    assert_eq!(last_seen, 9);
}

#[test]
fn malformed_frames_leave_the_mailbox_alone() {
    let mut c = ReconnectingClient::new();
    c.on_event(ClientEvent::ConnectSucceeded);
    c.on_event(ClientEvent::FrameReceived(Frame::Binary(encode_state(&snapshot(5)))));
    let d = c.on_event(ClientEvent::FrameReceived(Frame::Binary(vec![1, 2, 3])));
    assert_eq!(d, ClientDirective::Continue);
    c.on_event(ClientEvent::FrameReceived(Frame::Text("hello".to_string())));
    c.on_event(ClientEvent::FrameReceived(Frame::Ping(vec![])));
    let got = c.take_state().expect("the good snapshot is still there");
    assert_eq!(got.tick, 5);
}

#[test]
fn connection_loss_reconnects_and_keeps_state() {
    let mut c = ReconnectingClient::new();
    c.on_event(ClientEvent::ConnectSucceeded);
    c.on_event(ClientEvent::FrameReceived(Frame::Binary(encode_state(&snapshot(4)))));
    let d = c.on_event(ClientEvent::ConnectionLost);
    assert_eq!(d, ClientDirective::Reconnect);
    // The mailbox survives the reconnect; nothing older ever arrives after
    // it, because the server only fans out freshly published snapshots.
    c.on_event(ClientEvent::ConnectSucceeded);
    c.on_event(ClientEvent::FrameReceived(Frame::Binary(encode_state(&snapshot(6)))));
    assert_eq!(c.take_state().unwrap().tick, 6);
}

#[test]
fn queued_command_survives_disconnect_and_drains_once() {
    // Scenario: a spawn request is submitted by a disconnected client; it
    // stays queued; after the reconnect it is handed out exactly once, in
    // submission order relative to other queued commands.
    let mut c = ReconnectingClient::new();
    let q1 = SpawnRequest { x: 5.0f32.to_bits(), y: 5.0f32.to_bits(), z: 0.0f32.to_bits() };
    let q2 = SpawnRequest { x: 1.0f32.to_bits(), y: 0, z: 0 };
    c.submit(q1);
    c.submit(q2);
    // Still disconnected: a failed handshake does not lose the queue.
    c.on_event(ClientEvent::ConnectFailed);
    c.on_event(ClientEvent::ConnectSucceeded);
    let frames = c.drain_outbox();
    assert_eq!(frames.len(), 2);
    assert_eq!(frames[0], Frame::Binary(encode_spawn_request(&q1)));
    assert_eq!(frames[1], Frame::Binary(encode_spawn_request(&q2)));
    // Exactly once: a second drain hands out nothing.
    assert!(c.drain_outbox().is_empty());
    // The forwarding side decodes them back, in order.
    assert_eq!(forward_step(&frames[0]), ForwardAction::Deliver(q1));
    assert_eq!(forward_step(&frames[1]), ForwardAction::Deliver(q2));
}

#[test]
fn malformed_inbound_frame_is_dropped_not_queued() {
    // A malformed binary frame neither crashes the forwarding step nor
    // produces a command.
    assert_eq!(forward_step(&Frame::Binary(vec![])), ForwardAction::DropMalformed);
    assert_eq!(forward_step(&Frame::Binary(vec![0xde, 0xad, 0xbe, 0xef])), ForwardAction::DropMalformed);
    assert_eq!(forward_step(&Frame::Binary(vec![0u8; 13])), ForwardAction::DropMalformed);
}

#[test]
fn non_binary_frames_are_dropped_and_close_stops() {
    assert_eq!(forward_step(&Frame::Text("nope".to_string())), ForwardAction::DropNonBinary);
    assert_eq!(forward_step(&Frame::Ping(vec![1])), ForwardAction::DropNonBinary);
    assert_eq!(forward_step(&Frame::Pong(vec![2])), ForwardAction::DropNonBinary);
    assert_eq!(forward_step(&Frame::Close), ForwardAction::Stop);
}

#[test]
fn well_formed_command_frame_is_delivered() {
    let q = SpawnRequest { x: 5.0f32.to_bits(), y: 5.0f32.to_bits(), z: 0 };
    let frame = Frame::Binary(encode_spawn_request(&q));
    assert_eq!(forward_step(&frame), ForwardAction::Deliver(q));
}
