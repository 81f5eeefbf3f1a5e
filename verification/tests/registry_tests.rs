use holodeck::client::{ClientEvent, ReconnectingClient};
use holodeck::codec::encode_state;
use holodeck::message::{Entity, Frame, SimulationState, SpawnRequest};
use holodeck::protocol::{server_channel, Recv};
use holodeck::server::{classify_poll, forward_commands, BroadcastRegistry, Config, RegistryStep,
    WebSocketServer};

#[test]
fn default_config_values() {
    let c = Config::default();
    assert_eq!(c.ip, [0, 0, 0, 0]);
    assert_eq!(c.port, 7000);
    assert_eq!(c.tick, 33);
    assert_eq!(f32::from_bits(c.simulation_world_size), 1000.0);
    assert_eq!(c.max_entities, 1024);
    assert_eq!(c.handoff_capacity, 32);
    assert_eq!(c.forward_capacity, 32);
}

#[test]
fn server_holds_its_config() {
    let mut c = Config::default();
    c.port = 7777;
    let server = WebSocketServer::new(c);
    assert_eq!(server.config.port, 7777);
}

#[test]
fn registry_starts_empty_and_enrolls_fresh_handles() {
    let mut reg = BroadcastRegistry::new();
    assert_eq!(reg.client_count(), 0);
    let a = reg.enroll().expect("handles are plentiful");
    let b = reg.enroll().expect("handles are plentiful");
    assert_ne!(a, b);
    assert_eq!(reg.client_count(), 2);
    assert_eq!(reg.client_ids(), vec![a, b]);
}

#[test]
fn failed_send_drops_the_client_for_the_next_broadcast() {
    let mut reg = BroadcastRegistry::new();
    let a = reg.enroll().unwrap();
    let b = reg.enroll().unwrap();
    let c = reg.enroll().unwrap();
    // Broadcasting tick T: the send to `b` fails.
    let kept = reg.apply_send_results(&vec![true, false, true]);
    assert_eq!(kept, 2);
    // For the broadcast of tick T+1 the failed client is absent.
    let targets = reg.client_ids();
    assert_eq!(targets, vec![a, c]);
    assert!(!targets.contains(&b));
}

#[test]
fn a_dropped_handle_is_never_handed_out_again() {
    let mut reg = BroadcastRegistry::new();
    let a = reg.enroll().unwrap();
    let kept = reg.apply_send_results(&vec![false]);
    assert_eq!(kept, 0);
    let fresh = reg.enroll().unwrap();
    assert_ne!(fresh, a);
}

#[test]
fn poll_outcomes_drive_the_iteration() {
    assert_eq!(
        classify_poll(&Recv::Msg(SimulationState { tick: 1, entity_count: 0, entities: vec![] })),
        RegistryStep::Broadcast
    );
    assert_eq!(classify_poll(&Recv::Empty), RegistryStep::Idle);
    assert_eq!(classify_poll(&Recv::Invalid), RegistryStep::Idle);
    assert_eq!(classify_poll(&Recv::Disconnected), RegistryStep::Shutdown);
}

#[test]
fn forwarded_commands_reach_the_simulation_in_order() {
    let (frontend, backend) = server_channel::<SimulationState, SpawnRequest>();
    let q1 = SpawnRequest { x: 1, y: 0, z: 0 };
    let q2 = SpawnRequest { x: 2, y: 0, z: 0 };
    let sent = forward_commands(&frontend, &vec![q1, q2]).expect("channel is alive");
    assert_eq!(sent, 2);
    // An empty batch always succeeds: no send is attempted.
    assert_eq!(forward_commands(&frontend, &vec![]).expect("nothing to send"), 0);
    assert!(matches!(backend.recv(), Recv::Msg(got) if got == q1));
    assert!(matches!(backend.recv(), Recv::Msg(got) if got == q2));
    assert!(matches!(backend.recv(), Recv::Empty));
}

#[test]
fn broadcast_scenario_two_clients_one_drop() {
    // Scenario: the registry starts with no clients; two clients connect; a
    // snapshot at tick 1 with one entity is published and reaches both
    // mailboxes; one client drops; the tick-2 snapshot reaches only the
    // survivor and the registry shrinks to one.
    let mut reg = BroadcastRegistry::new();
    assert_eq!(reg.client_count(), 0);

    let mut client_a = ReconnectingClient::new();
    let mut client_b = ReconnectingClient::new();
    client_a.on_event(ClientEvent::ConnectSucceeded);
    client_b.on_event(ClientEvent::ConnectSucceeded);
    let id_a = reg.enroll().unwrap();
    let _id_b = reg.enroll().unwrap();
    assert_eq!(reg.client_count(), 2);

    let snapshot1 = SimulationState {
        tick: 1,
        entity_count: 1,
        entities: vec![Entity { id: 1, tag: 1, x: 0, y: 0, z: 0 }],
    };
    let bytes1 = encode_state(&snapshot1);
    for c in [&mut client_a, &mut client_b] {
        c.on_event(ClientEvent::FrameReceived(Frame::Binary(bytes1.clone())));
    }
    let got_a = client_a.take_state().expect("the snapshot reached A");
    assert_eq!(got_a.tick, 1);
    assert_eq!(got_a.entity_count, 1);
    assert_eq!(got_a.entities, snapshot1.entities);
    let got_b = client_b.take_state().expect("the snapshot reached B");
    assert_eq!(got_b.tick, 1);
    assert_eq!(got_b.entities, snapshot1.entities);

    // Client A disconnects: its send fails during the tick-2 broadcast.
    client_a.on_event(ClientEvent::ConnectionLost);
    let snapshot2 = SimulationState { tick: 2, entity_count: 1, entities: snapshot1.entities.clone() };
    let bytes2 = encode_state(&snapshot2);
    let results: Vec<bool> = reg.client_ids().iter().map(|id| *id != id_a).collect();
    for id in reg.client_ids() {
        if id != id_a {
            client_b.on_event(ClientEvent::FrameReceived(Frame::Binary(bytes2.clone())));
        }
    }
    reg.apply_send_results(&results);

    assert!(client_a.take_state().is_none());
    let got_b2 = client_b.take_state().expect("the snapshot reached B");
    assert_eq!(got_b2.tick, 2);
    assert_eq!(reg.client_count(), 1);
}
