use vstd::prelude::*;

use crate::message::{Entity, SimulationState, SpawnRequest, StateView};

verus! {

// The wire layout is fixed, deterministic and versionless: integers are
// little-endian with no padding; a sequence is its 64-bit length followed by
// its elements. An entity is 22 bytes: id (8), tag (2), x, y, z (4 each).
// A snapshot is tick (8), entity_count (8), then the entity sequence.
// A spawn request is x, y, z (4 each), 12 bytes.

pub open spec fn spec_u16_le(v: u16) -> Seq<u8> {
    seq![(v & 0xff) as u8, ((v >> 8) & 0xff) as u8]
}

pub open spec fn spec_u32_le(v: u32) -> Seq<u8> {
    seq![
        (v & 0xff) as u8,
        ((v >> 8) & 0xff) as u8,
        ((v >> 16) & 0xff) as u8,
        ((v >> 24) & 0xff) as u8,
    ]
}

pub open spec fn spec_u64_le(v: u64) -> Seq<u8> {
    seq![
        (v & 0xff) as u8,
        ((v >> 8) & 0xff) as u8,
        ((v >> 16) & 0xff) as u8,
        ((v >> 24) & 0xff) as u8,
        ((v >> 32) & 0xff) as u8,
        ((v >> 40) & 0xff) as u8,
        ((v >> 48) & 0xff) as u8,
        ((v >> 56) & 0xff) as u8,
    ]
}

pub open spec fn spec_le_u16(b: Seq<u8>) -> u16
    recommends
        b.len() == 2,
{
    (b[0] as u16) | ((b[1] as u16) << 8)
}

pub open spec fn spec_le_u32(b: Seq<u8>) -> u32
    recommends
        b.len() == 4,
{
    (b[0] as u32) | ((b[1] as u32) << 8) | ((b[2] as u32) << 16) | ((b[3] as u32) << 24)
}

pub open spec fn spec_le_u64(b: Seq<u8>) -> u64
    recommends
        b.len() == 8,
{
    (b[0] as u64) | ((b[1] as u64) << 8) | ((b[2] as u64) << 16) | ((b[3] as u64) << 24)
        | ((b[4] as u64) << 32) | ((b[5] as u64) << 40) | ((b[6] as u64) << 48)
        | ((b[7] as u64) << 56)
}

pub proof fn lemma_u16_round_trip(v: u16)
    ensures
        spec_le_u16(spec_u16_le(v)) == v,
{
    assert((((v & 0xff) as u8) as u16 | ((((v >> 8) & 0xff) as u8) as u16) << 8) == v)
        by (bit_vector);
}

pub proof fn lemma_u32_round_trip(v: u32)
    ensures
        spec_le_u32(spec_u32_le(v)) == v,
{
    assert((((v & 0xff) as u8) as u32 | ((((v >> 8) & 0xff) as u8) as u32) << 8
        | ((((v >> 16) & 0xff) as u8) as u32) << 16
        | ((((v >> 24) & 0xff) as u8) as u32) << 24) == v) by (bit_vector);
}

pub proof fn lemma_u64_round_trip(v: u64)
    ensures
        spec_le_u64(spec_u64_le(v)) == v,
{
    assert((((v & 0xff) as u8) as u64 | ((((v >> 8) & 0xff) as u8) as u64) << 8
        | ((((v >> 16) & 0xff) as u8) as u64) << 16
        | ((((v >> 24) & 0xff) as u8) as u64) << 24
        | ((((v >> 32) & 0xff) as u8) as u64) << 32
        | ((((v >> 40) & 0xff) as u8) as u64) << 40
        | ((((v >> 48) & 0xff) as u8) as u64) << 48
        | ((((v >> 56) & 0xff) as u8) as u64) << 56) == v) by (bit_vector);
}

pub proof fn lemma_u16_bytes_round_trip(b: Seq<u8>)
    requires
        b.len() == 2,
    ensures
        spec_u16_le(spec_le_u16(b)) == b,
{
    let b0 = b[0];
    let b1 = b[1];
    let v = spec_le_u16(b);
    assert(v == (b0 as u16 | (b1 as u16) << 8));
    assert(((b0 as u16 | (b1 as u16) << 8) & 0xff) as u8 == b0
        && (((b0 as u16 | (b1 as u16) << 8) >> 8) & 0xff) as u8 == b1) by (bit_vector);
    assert(spec_u16_le(v) =~= b);
}

pub proof fn lemma_u32_bytes_round_trip(b: Seq<u8>)
    requires
        b.len() == 4,
    ensures
        spec_u32_le(spec_le_u32(b)) == b,
{
    let b0 = b[0];
    let b1 = b[1];
    let b2 = b[2];
    let b3 = b[3];
    let v = spec_le_u32(b);
    assert(v == (b0 as u32 | (b1 as u32) << 8 | (b2 as u32) << 16 | (b3 as u32) << 24));
    assert({
        let x = b0 as u32 | (b1 as u32) << 8 | (b2 as u32) << 16 | (b3 as u32) << 24;
        (x & 0xff) as u8 == b0 && ((x >> 8) & 0xff) as u8 == b1
            && ((x >> 16) & 0xff) as u8 == b2 && ((x >> 24) & 0xff) as u8 == b3
    }) by (bit_vector);
    assert(spec_u32_le(v) =~= b);
}

pub proof fn lemma_u64_bytes_round_trip(b: Seq<u8>)
    requires
        b.len() == 8,
    ensures
        spec_u64_le(spec_le_u64(b)) == b,
{
    let b0 = b[0];
    let b1 = b[1];
    let b2 = b[2];
    let b3 = b[3];
    let b4 = b[4];
    let b5 = b[5];
    let b6 = b[6];
    let b7 = b[7];
    let v = spec_le_u64(b);
    assert(v == (b0 as u64 | (b1 as u64) << 8 | (b2 as u64) << 16 | (b3 as u64) << 24
        | (b4 as u64) << 32 | (b5 as u64) << 40 | (b6 as u64) << 48 | (b7 as u64) << 56));
    assert({
        let x = b0 as u64 | (b1 as u64) << 8 | (b2 as u64) << 16 | (b3 as u64) << 24
            | (b4 as u64) << 32 | (b5 as u64) << 40 | (b6 as u64) << 48 | (b7 as u64) << 56;
        (x & 0xff) as u8 == b0 && ((x >> 8) & 0xff) as u8 == b1
            && ((x >> 16) & 0xff) as u8 == b2 && ((x >> 24) & 0xff) as u8 == b3
            && ((x >> 32) & 0xff) as u8 == b4 && ((x >> 40) & 0xff) as u8 == b5
            && ((x >> 48) & 0xff) as u8 == b6 && ((x >> 56) & 0xff) as u8 == b7
    }) by (bit_vector);
    assert(spec_u64_le(v) =~= b);
}

fn push_u16_le(out: &mut Vec<u8>, v: u16)
    ensures
        final(out)@ == old(out)@ + spec_u16_le(v),
{
    proof {
        assert((v & 0xff) < 256 && ((v >> 8) & 0xff) < 256) by (bit_vector);
    }
    out.push((v & 0xff) as u8);
    out.push(((v >> 8) & 0xff) as u8);
    assert(out@ =~= old(out)@ + spec_u16_le(v));
}

fn push_u32_le(out: &mut Vec<u8>, v: u32)
    ensures
        final(out)@ == old(out)@ + spec_u32_le(v),
{
    proof {
        assert((v & 0xff) < 256 && ((v >> 8) & 0xff) < 256 && ((v >> 16) & 0xff) < 256
            && ((v >> 24) & 0xff) < 256) by (bit_vector);
    }
    out.push((v & 0xff) as u8);
    out.push(((v >> 8) & 0xff) as u8);
    out.push(((v >> 16) & 0xff) as u8);
    out.push(((v >> 24) & 0xff) as u8);
    assert(out@ =~= old(out)@ + spec_u32_le(v));
}

fn push_u64_le(out: &mut Vec<u8>, v: u64)
    ensures
        final(out)@ == old(out)@ + spec_u64_le(v),
{
    proof {
        assert((v & 0xff) < 256 && ((v >> 8) & 0xff) < 256 && ((v >> 16) & 0xff) < 256
            && ((v >> 24) & 0xff) < 256 && ((v >> 32) & 0xff) < 256 && ((v >> 40) & 0xff) < 256
            && ((v >> 48) & 0xff) < 256 && ((v >> 56) & 0xff) < 256) by (bit_vector);
    }
    out.push((v & 0xff) as u8);
    out.push(((v >> 8) & 0xff) as u8);
    out.push(((v >> 16) & 0xff) as u8);
    out.push(((v >> 24) & 0xff) as u8);
    out.push(((v >> 32) & 0xff) as u8);
    out.push(((v >> 40) & 0xff) as u8);
    out.push(((v >> 48) & 0xff) as u8);
    out.push(((v >> 56) & 0xff) as u8);
    assert(out@ =~= old(out)@ + spec_u64_le(v));
}

pub open spec fn spec_encode_entity(e: Entity) -> Seq<u8> {
    spec_u64_le(e.id) + spec_u16_le(e.tag) + spec_u32_le(e.x) + spec_u32_le(e.y)
        + spec_u32_le(e.z)
}

pub open spec fn spec_parse_entity(b: Seq<u8>) -> Entity
    recommends
        b.len() == 22,
{
    Entity {
        id: spec_le_u64(b.subrange(0, 8)),
        tag: spec_le_u16(b.subrange(8, 10)),
        x: spec_le_u32(b.subrange(10, 14)),
        y: spec_le_u32(b.subrange(14, 18)),
        z: spec_le_u32(b.subrange(18, 22)),
    }
}

pub proof fn lemma_entity_round_trip(e: Entity)
    ensures
        spec_encode_entity(e).len() == 22,
        spec_parse_entity(spec_encode_entity(e)) == e,
{
    let b = spec_encode_entity(e);
    assert(b.subrange(0, 8) =~= spec_u64_le(e.id));
    assert(b.subrange(8, 10) =~= spec_u16_le(e.tag));
    assert(b.subrange(10, 14) =~= spec_u32_le(e.x));
    assert(b.subrange(14, 18) =~= spec_u32_le(e.y));
    assert(b.subrange(18, 22) =~= spec_u32_le(e.z));
    lemma_u64_round_trip(e.id);
    lemma_u16_round_trip(e.tag);
    lemma_u32_round_trip(e.x);
    lemma_u32_round_trip(e.y);
    lemma_u32_round_trip(e.z);
}

pub proof fn lemma_entity_bytes_round_trip(b: Seq<u8>)
    requires
        b.len() == 22,
    ensures
        spec_encode_entity(spec_parse_entity(b)) == b,
{
    lemma_u64_bytes_round_trip(b.subrange(0, 8));
    lemma_u16_bytes_round_trip(b.subrange(8, 10));
    lemma_u32_bytes_round_trip(b.subrange(10, 14));
    lemma_u32_bytes_round_trip(b.subrange(14, 18));
    lemma_u32_bytes_round_trip(b.subrange(18, 22));
    assert(spec_encode_entity(spec_parse_entity(b)) =~= b);
}

pub open spec fn spec_encode_entities(s: Seq<Entity>) -> Seq<u8>
    decreases s.len(),
{
    if s.len() == 0 {
        Seq::empty()
    } else {
        spec_encode_entity(s[0]) + spec_encode_entities(s.drop_first())
    }
}

pub open spec fn spec_parse_entities(b: Seq<u8>, n: nat) -> Seq<Entity>
    recommends
        b.len() >= 22 * n,
    decreases n,
{
    if n == 0 {
        Seq::empty()
    } else {
        seq![spec_parse_entity(b.subrange(0, 22))] + spec_parse_entities(
            b.skip(22),
            (n - 1) as nat,
        )
    }
}

pub proof fn lemma_encode_entities_len(s: Seq<Entity>)
    ensures
        spec_encode_entities(s).len() == 22 * s.len(),
    decreases s.len(),
{
    if s.len() > 0 {
        lemma_entity_round_trip(s[0]);
        lemma_encode_entities_len(s.drop_first());
    }
}

pub proof fn lemma_parse_entities_len(b: Seq<u8>, n: nat)
    requires
        b.len() >= 22 * n,
    ensures
        spec_parse_entities(b, n).len() == n,
    decreases n,
{
    if n > 0 {
        lemma_parse_entities_len(b.skip(22), (n - 1) as nat);
    }
}

/// Appending one entity to a sequence appends its 22 bytes to the encoding.
pub proof fn lemma_encode_entities_snoc(s: Seq<Entity>)
    requires
        s.len() > 0,
    ensures
        spec_encode_entities(s) == spec_encode_entities(s.drop_last()) + spec_encode_entity(
            s.last(),
        ),
    decreases s.len(),
{
    if s.len() == 1 {
        assert(s.drop_last() =~= Seq::<Entity>::empty());
        assert(s.drop_first() =~= Seq::<Entity>::empty());
        assert(spec_encode_entities(s) =~= spec_encode_entities(s.drop_last())
            + spec_encode_entity(s.last()));
    } else {
        lemma_encode_entities_snoc(s.drop_first());
        assert(s.drop_first().drop_last() =~= s.drop_last().drop_first());
        assert(s.drop_last()[0] == s[0]);
        assert(s.drop_first().last() == s.last());
        assert(spec_encode_entities(s.drop_last()) == spec_encode_entity(s[0])
            + spec_encode_entities(s.drop_last().drop_first()));
        assert(spec_encode_entities(s) =~= spec_encode_entities(s.drop_last())
            + spec_encode_entity(s.last()));
    }
}

pub proof fn lemma_entities_round_trip(s: Seq<Entity>)
    ensures
        spec_parse_entities(spec_encode_entities(s), s.len()) == s,
    decreases s.len(),
{
    lemma_encode_entities_len(s);
    if s.len() > 0 {
        let b = spec_encode_entities(s);
        lemma_entity_round_trip(s[0]);
        lemma_encode_entities_len(s.drop_first());
        assert(b.subrange(0, 22) =~= spec_encode_entity(s[0]));
        assert(b.skip(22) =~= spec_encode_entities(s.drop_first()));
        lemma_entities_round_trip(s.drop_first());
        assert(spec_parse_entities(b, s.len()) =~= s);
    } else {
        assert(spec_parse_entities(spec_encode_entities(s), 0) =~= s);
    }
}

pub proof fn lemma_entities_bytes_round_trip(b: Seq<u8>, n: nat)
    requires
        b.len() == 22 * n,
    ensures
        spec_encode_entities(spec_parse_entities(b, n)) == b,
    decreases n,
{
    let s = spec_parse_entities(b, n);
    lemma_parse_entities_len(b, n);
    if n == 0 {
        assert(spec_encode_entities(s) =~= b);
    } else {
        lemma_entity_bytes_round_trip(b.subrange(0, 22));
        lemma_entities_bytes_round_trip(b.skip(22), (n - 1) as nat);
        assert(s[0] == spec_parse_entity(b.subrange(0, 22)));
        assert(s.drop_first() =~= spec_parse_entities(b.skip(22), (n - 1) as nat));
        assert(spec_encode_entities(s) =~= b);
    }
}

/// Every position of the parsed sequence comes from its own 22-byte chunk.
pub proof fn lemma_parse_entities_index(b: Seq<u8>, n: nat, i: int)
    requires
        b.len() >= 22 * n,
        0 <= i < n,
    ensures
        spec_parse_entities(b, n)[i] == spec_parse_entity(b.subrange(22 * i, 22 * i + 22)),
    decreases n,
{
    lemma_parse_entities_len(b, n);
    if i == 0 {
        assert(spec_parse_entities(b, n)[0] == spec_parse_entity(b.subrange(0, 22)));
    } else {
        lemma_parse_entities_index(b.skip(22), (n - 1) as nat, i - 1);
        assert(b.skip(22).subrange(22 * (i - 1), 22 * (i - 1) + 22) =~= b.subrange(
            22 * i,
            22 * i + 22,
        ));
    }
}

pub open spec fn spec_encode_state(v: StateView) -> Seq<u8> {
    spec_u64_le(v.tick) + spec_u64_le(v.entity_count) + spec_u64_le(v.entities.len() as u64)
        + spec_encode_entities(v.entities)
}

pub open spec fn spec_parse_state(b: Seq<u8>) -> Option<StateView> {
    if b.len() >= 24 {
        let n = spec_le_u64(b.subrange(16, 24));
        if b.len() - 24 == 22 * (n as int) {
            Some(
                StateView {
                    tick: spec_le_u64(b.subrange(0, 8)),
                    entity_count: spec_le_u64(b.subrange(8, 16)),
                    entities: spec_parse_entities(b.skip(24), n as nat),
                },
            )
        } else {
            None
        }
    } else {
        None
    }
}

pub open spec fn spec_encode_spawn_request(r: SpawnRequest) -> Seq<u8> {
    spec_u32_le(r.x) + spec_u32_le(r.y) + spec_u32_le(r.z)
}

pub open spec fn spec_parse_spawn_request(b: Seq<u8>) -> Option<SpawnRequest> {
    if b.len() == 12 {
        Some(
            SpawnRequest {
                x: spec_le_u32(b.subrange(0, 4)),
                y: spec_le_u32(b.subrange(4, 8)),
                z: spec_le_u32(b.subrange(8, 12)),
            },
        )
    } else {
        None
    }
}

/// Law: decoding an encoded snapshot yields the identical snapshot — same
/// tick, same entity count, and the same entities with bit-identical fields —
/// for any number of entities.
pub proof fn lemma_state_round_trip(v: StateView)
    requires
        v.entities.len() <= u64::MAX,
    ensures
        spec_parse_state(spec_encode_state(v)) == Some(v),
{
    let b = spec_encode_state(v);
    lemma_encode_entities_len(v.entities);
    assert(b.subrange(0, 8) =~= spec_u64_le(v.tick));
    assert(b.subrange(8, 16) =~= spec_u64_le(v.entity_count));
    assert(b.subrange(16, 24) =~= spec_u64_le(v.entities.len() as u64));
    assert(b.skip(24) =~= spec_encode_entities(v.entities));
    lemma_u64_round_trip(v.tick);
    lemma_u64_round_trip(v.entity_count);
    lemma_u64_round_trip(v.entities.len() as u64);
    lemma_entities_round_trip(v.entities);
}

/// Law: a successful decode pins the bytes down: only exact encodings decode.
pub proof fn lemma_state_canonical(b: Seq<u8>, v: StateView)
    requires
        spec_parse_state(b) == Some(v),
    ensures
        spec_encode_state(v) == b,
        v.entities.len() <= u64::MAX,
{
    let n = spec_le_u64(b.subrange(16, 24));
    lemma_parse_entities_len(b.skip(24), n as nat);
    lemma_u64_bytes_round_trip(b.subrange(0, 8));
    lemma_u64_bytes_round_trip(b.subrange(8, 16));
    lemma_u64_bytes_round_trip(b.subrange(16, 24));
    lemma_entities_bytes_round_trip(b.skip(24), n as nat);
    assert(v.entities.len() as u64 == n);
    assert(spec_encode_state(v) =~= b);
}

/// Law: decoding an encoded spawn request yields it back, bit-identical.
pub proof fn lemma_spawn_request_round_trip(r: SpawnRequest)
    ensures
        spec_parse_spawn_request(spec_encode_spawn_request(r)) == Some(r),
{
    let b = spec_encode_spawn_request(r);
    assert(b.subrange(0, 4) =~= spec_u32_le(r.x));
    assert(b.subrange(4, 8) =~= spec_u32_le(r.y));
    assert(b.subrange(8, 12) =~= spec_u32_le(r.z));
    lemma_u32_round_trip(r.x);
    lemma_u32_round_trip(r.y);
    lemma_u32_round_trip(r.z);
}

/// Law: only exact 12-byte encodings decode as spawn requests.
pub proof fn lemma_spawn_request_canonical(b: Seq<u8>, r: SpawnRequest)
    requires
        spec_parse_spawn_request(b) == Some(r),
    ensures
        spec_encode_spawn_request(r) == b,
{
    lemma_u32_bytes_round_trip(b.subrange(0, 4));
    lemma_u32_bytes_round_trip(b.subrange(4, 8));
    lemma_u32_bytes_round_trip(b.subrange(8, 12));
    assert(spec_encode_spawn_request(r) =~= b);
}

fn read_u16_le(b: &Vec<u8>, off: usize) -> (r: u16)
    requires
        off + 2 <= b@.len(),
    ensures
        r == spec_le_u16(b@.subrange(off as int, off as int + 2)),
{
    let len = b.len();
    assert(off + 2 <= len);
    let r = (b[off] as u16) | ((b[off + 1] as u16) << 8);
    proof {
        let s = b@.subrange(off as int, off as int + 2);
        assert(s[0] == b@[off as int] && s[1] == b@[off as int + 1]);
    }
    r
}

fn read_u32_le(b: &Vec<u8>, off: usize) -> (r: u32)
    requires
        off + 4 <= b@.len(),
    ensures
        r == spec_le_u32(b@.subrange(off as int, off as int + 4)),
{
    let len = b.len();
    assert(off + 4 <= len);
    let r = (b[off] as u32) | ((b[off + 1] as u32) << 8) | ((b[off + 2] as u32) << 16)
        | ((b[off + 3] as u32) << 24);
    proof {
        let s = b@.subrange(off as int, off as int + 4);
        assert(s[0] == b@[off as int] && s[1] == b@[off as int + 1] && s[2] == b@[off as int + 2]
            && s[3] == b@[off as int + 3]);
    }
    r
}

fn read_u64_le(b: &Vec<u8>, off: usize) -> (r: u64)
    requires
        off + 8 <= b@.len(),
    ensures
        r == spec_le_u64(b@.subrange(off as int, off as int + 8)),
{
    let len = b.len();
    assert(off + 8 <= len);
    let r = (b[off] as u64) | ((b[off + 1] as u64) << 8) | ((b[off + 2] as u64) << 16)
        | ((b[off + 3] as u64) << 24) | ((b[off + 4] as u64) << 32) | ((b[off + 5] as u64) << 40)
        | ((b[off + 6] as u64) << 48) | ((b[off + 7] as u64) << 56);
    proof {
        let s = b@.subrange(off as int, off as int + 8);
        assert(s[0] == b@[off as int] && s[1] == b@[off as int + 1] && s[2] == b@[off as int + 2]
            && s[3] == b@[off as int + 3] && s[4] == b@[off as int + 4]
            && s[5] == b@[off as int + 5] && s[6] == b@[off as int + 6]
            && s[7] == b@[off as int + 7]);
    }
    r
}

fn push_entity(out: &mut Vec<u8>, e: &Entity)
    ensures
        final(out)@ == old(out)@ + spec_encode_entity(*e),
{
    push_u64_le(out, e.id);
    push_u16_le(out, e.tag);
    push_u32_le(out, e.x);
    push_u32_le(out, e.y);
    push_u32_le(out, e.z);
    assert(out@ =~= old(out)@ + spec_encode_entity(*e));
}

/// Encode a snapshot with the fixed wire layout.
pub fn encode_state(s: &SimulationState) -> (r: Vec<u8>)
    ensures
        r@ == spec_encode_state(s@),
{
    let mut out: Vec<u8> = Vec::new();
    push_u64_le(&mut out, s.tick);
    push_u64_le(&mut out, s.entity_count);
    push_u64_le(&mut out, s.entities.len() as u64);
    let ghost header = out@;
    let n = s.entities.len();
    for i in 0..n
        invariant
            n == s.entities.len(),
            out@ == header + spec_encode_entities(s.entities@.take(i as int)),
    {
        push_entity(&mut out, &s.entities[i]);
        proof {
            let t = s.entities@.take(i + 1);
            assert(t.drop_last() =~= s.entities@.take(i as int));
            assert(t.last() == s.entities@[i as int]);
            lemma_encode_entities_snoc(t);
        }
    }
    proof {
        assert(s.entities@.take(n as int) =~= s.entities@);
    }
    out
}

/// Encode a spawn request with the fixed wire layout.
pub fn encode_spawn_request(r: &SpawnRequest) -> (out: Vec<u8>)
    ensures
        out@ == spec_encode_spawn_request(*r),
{
    let mut out: Vec<u8> = Vec::new();
    push_u32_le(&mut out, r.x);
    push_u32_le(&mut out, r.y);
    push_u32_le(&mut out, r.z);
    assert(out@ =~= spec_encode_spawn_request(*r));
    out
}

fn read_entity(b: &Vec<u8>, off: usize) -> (e: Entity)
    requires
        off + 22 <= b@.len(),
    ensures
        e == spec_parse_entity(b@.subrange(off as int, off as int + 22)),
{
    let len = b.len();
    assert(off + 22 <= len);
    let e = Entity {
        id: read_u64_le(b, off),
        tag: read_u16_le(b, off + 8),
        x: read_u32_le(b, off + 10),
        y: read_u32_le(b, off + 14),
        z: read_u32_le(b, off + 18),
    };
    proof {
        let c = b@.subrange(off as int, off as int + 22);
        assert(c.subrange(0, 8) =~= b@.subrange(off as int, off as int + 8));
        assert(c.subrange(8, 10) =~= b@.subrange(off as int + 8, off as int + 10));
        assert(c.subrange(10, 14) =~= b@.subrange(off as int + 10, off as int + 14));
        assert(c.subrange(14, 18) =~= b@.subrange(off as int + 14, off as int + 18));
        assert(c.subrange(18, 22) =~= b@.subrange(off as int + 18, off as int + 22));
    }
    e
}

/// Decode a snapshot; `None` exactly on byte strings that are not an encoding.
pub fn decode_state(b: &Vec<u8>) -> (r: Option<SimulationState>)
    ensures
        match r {
            Some(s) => spec_parse_state(b@) == Some(s@),
            None => spec_parse_state(b@) is None,
        },
{
    if b.len() < 24 {
        return None;
    }
    let tick = read_u64_le(b, 0);
    let entity_count = read_u64_le(b, 8);
    let n = read_u64_le(b, 16);
    let rem = b.len() - 24;
    proof {
        vstd::arithmetic::div_mod::lemma_fundamental_div_mod(rem as int, 22);
    }
    if rem % 22 != 0 || (rem / 22) as u64 != n {
        proof {
            assert(rem as int != 22 * (n as int));
        }
        return None;
    }
    let count = rem / 22;
    proof {
        assert(b@.len() - 24 == 22 * (n as int));
        lemma_parse_entities_len(b@.skip(24), n as nat);
    }
    let mut entities: Vec<Entity> = Vec::new();
    for i in 0..count
        invariant
            count == (b@.len() - 24) / 22,
            b@.len() - 24 == 22 * (count as int),
            b@.len() >= 24,
            b@.len() <= usize::MAX,
            entities@.len() == i,
            forall|j: int|
                0 <= j < i ==> entities@[j] == spec_parse_entities(b@.skip(24), count as nat)[j],
    {
        proof {
            assert(22 * (i as int) + 22 <= 22 * (count as int)) by (nonlinear_arith)
                requires
                    i < count,
            ;
        }
        let e = read_entity(b, 24 + i * 22);
        proof {
            lemma_parse_entities_index(b@.skip(24), count as nat, i as int);
            assert(b@.skip(24).subrange(22 * (i as int), 22 * (i as int) + 22) =~= b@.subrange(
                24 + (i as int) * 22,
                24 + (i as int) * 22 + 22,
            ));
        }
        entities.push(e);
    }
    let s = SimulationState { tick, entity_count, entities };
    proof {
        assert(s.entities@ =~= spec_parse_entities(b@.skip(24), count as nat));
        assert(spec_parse_state(b@) == Some(s@));
    }
    Some(s)
}

/// Decode a spawn request; `None` exactly on byte strings that are not an
/// encoding.
pub fn decode_spawn_request(b: &Vec<u8>) -> (r: Option<SpawnRequest>)
    ensures
        match r {
            Some(v) => spec_parse_spawn_request(b@) == Some(v),
            None => spec_parse_spawn_request(b@) is None,
        },
{
    if b.len() != 12 {
        return None;
    }
    Some(SpawnRequest { x: read_u32_le(b, 0), y: read_u32_le(b, 4), z: read_u32_le(b, 8) })
}

} // verus!
