use vstd::prelude::*;

use crate::codec;
use crate::Error;

verus! {

/// One simulated entity. The three coordinates are carried as IEEE-754
/// single-precision bit patterns, so that every wire round trip is
/// bit-identical and the library never computes on floating point.
#[derive(Copy, Clone, Debug, PartialEq, Eq, Structural)]
pub struct Entity {
    pub id: u64,
    pub tag: u16,
    pub x: u32,
    pub y: u32,
    pub z: u32,
}

/// A command from a consumer asking the simulation to spawn an entity
/// at the given position (coordinates as IEEE-754 bit patterns).
#[derive(Copy, Clone, Debug, PartialEq, Eq, Structural)]
pub struct SpawnRequest {
    pub x: u32,
    pub y: u32,
    pub z: u32,
}

/// One published snapshot of the simulation for a given tick.
#[derive(Clone, Debug)]
pub struct SimulationState {
    pub tick: u64,
    pub entity_count: u64,
    pub entities: Vec<Entity>,
}

/// The mathematical value of a `SimulationState`.
pub ghost struct StateView {
    pub tick: u64,
    pub entity_count: u64,
    pub entities: Seq<Entity>,
}

impl View for SimulationState {
    type V = StateView;

    open spec fn view(&self) -> StateView {
        StateView { tick: self.tick, entity_count: self.entity_count, entities: self.entities@ }
    }
}

#[derive(Copy, Clone, Debug, PartialEq, Eq, Structural)]
pub enum Message {
    Test,
}

/// One transport frame. Payloads travel as `Binary`; every other kind is
/// a protocol anomaly except `Close`, the normal disconnect signal.
#[derive(Clone, Debug, PartialEq)]
pub enum Frame {
    Binary(Vec<u8>),
    Text(String),
    Ping(Vec<u8>),
    Pong(Vec<u8>),
    Close,
}

/// Capability of a value to become an outbound binary frame, with a fixed,
/// deterministic, versionless encoding described by `wire`.
pub trait ToWebSocketMessage: Sized {
    /// The exact bytes of this value's wire encoding.
    spec fn wire(&self) -> Seq<u8>;

    /// Encode this value as a binary frame.
    fn to_message(&self) -> (r: Result<Frame, Error>)
        ensures
            r matches Ok(f) && f matches Frame::Binary(b) && b@ == self.wire(),
    ;
}

/// Capability of a value to be decoded from the payload of a binary frame.
/// `parses` is the exact (partial) inverse of the wire encoding: it returns
/// `Some` only on byte strings that are an encoding.
pub trait FromWebSocketMessage: Sized + View {
    /// The decoded value, if the bytes are exactly one wire encoding.
    spec fn parses(bytes: Seq<u8>) -> Option<Self::V>;

    /// Decode a binary payload; `None` on any malformed byte string.
    fn from_wire(bytes: &Vec<u8>) -> (r: Option<Self>)
        ensures
            match r {
                Some(v) => Self::parses(bytes@) == Some(v@),
                None => Self::parses(bytes@) is None,
            },
    ;
}

impl ToWebSocketMessage for SimulationState {
    open spec fn wire(&self) -> Seq<u8> {
        codec::spec_encode_state(self@)
    }

    fn to_message(&self) -> (r: Result<Frame, Error>) {
        Ok(Frame::Binary(codec::encode_state(self)))
    }
}

impl ToWebSocketMessage for SpawnRequest {
    open spec fn wire(&self) -> Seq<u8> {
        codec::spec_encode_spawn_request(*self)
    }

    fn to_message(&self) -> (r: Result<Frame, Error>) {
        Ok(Frame::Binary(codec::encode_spawn_request(self)))
    }
}

impl View for SpawnRequest {
    type V = SpawnRequest;

    open spec fn view(&self) -> SpawnRequest {
        *self
    }
}

impl FromWebSocketMessage for SimulationState {
    open spec fn parses(bytes: Seq<u8>) -> Option<StateView> {
        codec::spec_parse_state(bytes)
    }

    fn from_wire(bytes: &Vec<u8>) -> (r: Option<SimulationState>) {
        codec::decode_state(bytes)
    }
}

impl FromWebSocketMessage for SpawnRequest {
    open spec fn parses(bytes: Seq<u8>) -> Option<SpawnRequest> {
        codec::spec_parse_spawn_request(bytes)
    }

    fn from_wire(bytes: &Vec<u8>) -> (r: Option<SpawnRequest>) {
        codec::decode_spawn_request(bytes)
    }
}

} // verus!
