use holodeck::codec::{decode_spawn_request, decode_state, encode_spawn_request, encode_state};
use holodeck::message::{Entity, SimulationState, SpawnRequest};

fn sample_entity(id: u64) -> Entity {
    Entity {
        id,
        tag: (id % 7) as u16 + 1,
        x: (id as f32 * 1.5).to_bits(),
        y: (-3.25f32).to_bits(),
        z: (id as f32).to_bits(),
    }
}

#[test]
fn round_trip_empty_state() {
    let s = SimulationState { tick: 0, entity_count: 0, entities: vec![] };
    let bytes = encode_state(&s);
    assert_eq!(bytes.len(), 24);
    let d = decode_state(&bytes).expect("an encoded state must decode");
    assert_eq!(d.tick, 0);
    assert_eq!(d.entity_count, 0);
    assert_eq!(d.entities, vec![]);
}

#[test]
fn round_trip_state_with_entities() {
    let entities: Vec<Entity> = (1..=5).map(sample_entity).collect();
    let s = SimulationState { tick: 42, entity_count: 5, entities: entities.clone() };
    let bytes = encode_state(&s);
    assert_eq!(bytes.len(), 24 + 5 * 22);
    let d = decode_state(&bytes).expect("an encoded state must decode");
    assert_eq!(d.tick, 42);
    assert_eq!(d.entity_count, 5);
    assert_eq!(d.entities, entities);
    for (a, b) in d.entities.iter().zip(entities.iter()) {
        assert_eq!(a.id, b.id);
        assert_eq!(a.tag, b.tag);
        assert_eq!(a.x, b.x);
        assert_eq!(a.y, b.y);
        assert_eq!(a.z, b.z);
    }
}

#[test]
fn round_trip_extreme_values() {
    let e = Entity { id: u64::MAX, tag: u16::MAX, x: u32::MAX, y: 0, z: f32::NAN.to_bits() };
    let s = SimulationState { tick: u64::MAX, entity_count: 7, entities: vec![e] };
    let d = decode_state(&encode_state(&s)).expect("an encoded state must decode");
    assert_eq!(d.tick, u64::MAX);
    assert_eq!(d.entity_count, 7);
    assert_eq!(d.entities, vec![e]);
}

#[test]
fn state_wire_layout_is_fixed_little_endian() {
    let e = Entity { id: 1, tag: 1, x: 0f32.to_bits(), y: 0f32.to_bits(), z: 0f32.to_bits() };
    let s = SimulationState { tick: 1, entity_count: 1, entities: vec![e] };
    let bytes = encode_state(&s);
    let mut expected = vec![];
    expected.extend_from_slice(&1u64.to_le_bytes());
    expected.extend_from_slice(&1u64.to_le_bytes());
    expected.extend_from_slice(&1u64.to_le_bytes());
    expected.extend_from_slice(&1u64.to_le_bytes());
    expected.extend_from_slice(&1u16.to_le_bytes());
    expected.extend_from_slice(&0f32.to_bits().to_le_bytes());
    expected.extend_from_slice(&0f32.to_bits().to_le_bytes());
    expected.extend_from_slice(&0f32.to_bits().to_le_bytes());
    assert_eq!(bytes, expected);
}

#[test]
fn state_encoding_matches_reference_serializer() {
    // The wire layout coincides with the fixed little-endian layout that
    // bincode's plain `serialize` writes for the same shape of data.
    let entities: Vec<Entity> = (1..=3).map(sample_entity).collect();
    let s = SimulationState { tick: 99, entity_count: 3, entities: entities.clone() };
    let tuple: (u64, u64, Vec<(u64, u16, f32, f32, f32)>) = (
        99,
        3,
        entities
            .iter()
            .map(|e| {
                (e.id, e.tag, f32::from_bits(e.x), f32::from_bits(e.y), f32::from_bits(e.z))
            })
            .collect(),
    );
    let reference = bincode::serialize(&tuple).expect("reference serializer");
    assert_eq!(encode_state(&s), reference);
}

#[test]
fn spawn_request_encoding_matches_reference_serializer() {
    let q = SpawnRequest { x: 5.0f32.to_bits(), y: 5.0f32.to_bits(), z: 0.0f32.to_bits() };
    let reference = bincode::serialize(&(5.0f32, 5.0f32, 0.0f32)).expect("reference serializer");
    assert_eq!(encode_spawn_request(&q), reference);
}

#[test]
fn round_trip_spawn_request() {
    let q = SpawnRequest { x: 5.0f32.to_bits(), y: (-5.5f32).to_bits(), z: 0 };
    let d = decode_spawn_request(&encode_spawn_request(&q)).expect("must decode");
    assert_eq!(d, q);
}

#[test]
fn truncated_state_does_not_decode() {
    let s = SimulationState { tick: 3, entity_count: 1, entities: vec![sample_entity(1)] };
    let mut bytes = encode_state(&s);
    bytes.pop();
    assert!(decode_state(&bytes).is_none());
}

#[test]
fn short_header_does_not_decode() {
    assert!(decode_state(&vec![]).is_none());
    assert!(decode_state(&vec![0u8; 23]).is_none());
}

#[test]
fn wrong_count_prefix_does_not_decode() {
    let s = SimulationState { tick: 3, entity_count: 2, entities: vec![sample_entity(1)] };
    let mut bytes = encode_state(&s);
    // Overstate the sequence length: the payload no longer fits it.
    bytes[16] = 2;
    assert!(decode_state(&bytes).is_none());
}

#[test]
fn trailing_garbage_does_not_decode() {
    let s = SimulationState { tick: 3, entity_count: 0, entities: vec![] };
    let mut bytes = encode_state(&s);
    bytes.push(0);
    assert!(decode_state(&bytes).is_none());
}

#[test]
fn spawn_request_wrong_length_does_not_decode() {
    assert!(decode_spawn_request(&vec![]).is_none());
    assert!(decode_spawn_request(&vec![0u8; 11]).is_none());
    assert!(decode_spawn_request(&vec![0u8; 13]).is_none());
}
