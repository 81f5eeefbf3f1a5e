use vstd::prelude::*;

use crate::message::{SimulationState, SpawnRequest};
use crate::protocol::{FrontEnd, Recv};
use crate::Error;

verus! {

/// Server configuration. Durations are carried in milliseconds and the world
/// size as an IEEE-754 single-precision bit pattern, so that the core never
/// computes on floating point; collaborators convert at the edge.
#[derive(Copy, Clone, Debug)]
pub struct Config {
    pub ip: [u8; 4],
    pub port: u16,
    /// Tick interval in milliseconds.
    pub tick: u64,
    /// World size along each axis, as an IEEE-754 bit pattern.
    pub simulation_world_size: u32,
    pub max_entities: usize,
    /// Capacity of the acceptor-to-registry handoff queue.
    pub handoff_capacity: usize,
    /// Capacity of the shared inbound command queue.
    pub forward_capacity: usize,
}

impl Default for Config {
    /// Listen everywhere on port 7000, tick every 33 ms, a 1000.0 world
    /// (bit pattern 0x447a_0000), at most 1024 entities, both queues at 32.
    fn default() -> (c: Config)
        ensures
            c.ip == [0u8, 0u8, 0u8, 0u8],
            c.port == 7000,
            c.tick == 33,
            c.simulation_world_size == 0x447a_0000u32,
            c.max_entities == 1024,
            c.handoff_capacity == 32,
            c.forward_capacity == 32,
    {
        Config {
            ip: [0, 0, 0, 0],
            port: 7000,
            tick: 33,
            simulation_world_size: 0x447a_0000,
            max_entities: 1024,
            handoff_capacity: 32,
            forward_capacity: 32,
        }
    }
}

/// The registry's client-handle vector: a small-vector that keeps up to 32
/// handles inline and spills to the heap beyond that.
#[verifier::external_body]
pub struct HandleVec {
    inner: smallvec::SmallVec<[u64; 32]>,
}

/// The items held by a client-handle vector, in order.
pub uninterp spec fn spec_handles(v: HandleVec) -> Seq<u64>;

/// Relies on smallvec::SmallVec::new: constructs an empty vector.
#[verifier::external_body]
fn handles_new() -> (r: HandleVec)
    ensures
        spec_handles(r) == Seq::<u64>::empty(),
{
    HandleVec { inner: smallvec::SmallVec::new() }
}

/// Relies on smallvec::SmallVec::push: appends one item at the end.
#[verifier::external_body]
fn handles_push(v: &mut HandleVec, id: u64)
    ensures
        spec_handles(*final(v)) == spec_handles(*old(v)).push(id),
{
    v.inner.push(id);
}

/// Relies on smallvec::SmallVec::len: the number of stored items.
#[verifier::external_body]
fn handles_len(v: &HandleVec) -> (n: usize)
    ensures
        n == spec_handles(*v).len(),
{
    v.inner.len()
}

/// Relies on smallvec::SmallVec::as_slice: all stored items, in order.
#[verifier::external_body]
fn handles_slice<'a>(v: &'a HandleVec) -> (s: &'a [u64])
    ensures
        s@ == spec_handles(*v),
{
    v.inner.as_slice()
}

/// Relies on smallvec::SmallVec::drain: empties the vector, yielding every
/// item in order.
#[verifier::external_body]
fn handles_drain(v: &mut HandleVec) -> (r: Vec<u64>)
    ensures
        r@ == spec_handles(*old(v)),
        spec_handles(*final(v)) == Seq::<u64>::empty(),
{
    v.inner.drain(..).collect()
}

/// The client handles that survive one broadcast: those whose send
/// succeeded, kept in order.
pub open spec fn spec_surviving(ids: Seq<u64>, ok: Seq<bool>) -> Seq<u64>
    recommends
        ids.len() == ok.len(),
    decreases ids.len(),
{
    if ids.len() == 0 {
        Seq::empty()
    } else {
        (if ok[0] {
            seq![ids[0]]
        } else {
            Seq::empty()
        }) + spec_surviving(ids.drop_first(), ok.drop_first())
    }
}

proof fn lemma_surviving_snoc(ids: Seq<u64>, ok: Seq<bool>)
    requires
        ids.len() == ok.len(),
        ids.len() > 0,
    ensures
        spec_surviving(ids, ok) == spec_surviving(ids.drop_last(), ok.drop_last()) + (
        if ok.last() {
            seq![ids.last()]
        } else {
            Seq::<u64>::empty()
        }),
    decreases ids.len(),
{
    if ids.len() == 1 {
        assert(ids.drop_first() =~= Seq::<u64>::empty());
        assert(spec_surviving(ids.drop_first(), ok.drop_first()) =~= Seq::<u64>::empty());
        assert(ids.drop_last() =~= Seq::<u64>::empty());
        assert(ok.drop_last() =~= Seq::<bool>::empty());
        assert(spec_surviving(ids.drop_last(), ok.drop_last()) =~= Seq::<u64>::empty());
        assert(ids.last() == ids[0] && ok.last() == ok[0]);
        assert(spec_surviving(ids, ok) =~= spec_surviving(ids.drop_last(), ok.drop_last()) + (
        if ok.last() {
            seq![ids.last()]
        } else {
            Seq::<u64>::empty()
        }));
    } else {
        lemma_surviving_snoc(ids.drop_first(), ok.drop_first());
        assert(ids.drop_first().drop_last() =~= ids.drop_last().drop_first());
        assert(ok.drop_first().drop_last() =~= ok.drop_last().drop_first());
        assert(ids.drop_first().last() == ids.last());
        assert(ok.drop_first().last() == ok.last());
        assert(ids.drop_last()[0] == ids[0] && ok.drop_last()[0] == ok[0]);
        assert(spec_surviving(ids, ok) =~= spec_surviving(ids.drop_last(), ok.drop_last()) + (
        if ok.last() {
            seq![ids.last()]
        } else {
            Seq::<u64>::empty()
        }));
    }
}

/// Every surviving handle was in the set before the broadcast.
pub proof fn lemma_surviving_subset(ids: Seq<u64>, ok: Seq<bool>, x: u64)
    requires
        ids.len() == ok.len(),
        spec_surviving(ids, ok).contains(x),
    ensures
        ids.contains(x),
    decreases ids.len(),
{
    if ids.len() > 0 {
        let rest = spec_surviving(ids.drop_first(), ok.drop_first());
        if rest.contains(x) {
            lemma_surviving_subset(ids.drop_first(), ok.drop_first(), x);
            let i = choose|i: int| 0 <= i < ids.drop_first().len() && ids.drop_first()[i] == x;
            assert(ids[i + 1] == x);
        } else {
            assert(ids[0] == x);
        }
    }
}

/// A handle whose send failed is not among the survivors, provided the
/// handles are distinct.
pub proof fn lemma_surviving_membership(ids: Seq<u64>, ok: Seq<bool>, i: int)
    requires
        ids.len() == ok.len(),
        forall|p: int, q: int| 0 <= p < q < ids.len() ==> ids[p] != ids[q],
        0 <= i < ids.len(),
    ensures
        ok[i] ==> spec_surviving(ids, ok).contains(ids[i]),
        !ok[i] ==> !spec_surviving(ids, ok).contains(ids[i]),
    decreases ids.len(),
{
    let s = spec_surviving(ids, ok);
    let rest = spec_surviving(ids.drop_first(), ok.drop_first());
    if i == 0 {
        if ok[0] {
            assert(s[0] == ids[0]);
            assert(s.contains(ids[0]));
        } else {
            if s.contains(ids[0]) {
                assert(rest.contains(ids[0]));
                lemma_surviving_subset(ids.drop_first(), ok.drop_first(), ids[0]);
                let j = choose|j: int|
                    0 <= j < ids.drop_first().len() && ids.drop_first()[j] == ids[0];
                assert(ids[j + 1] == ids[0]);
            }
        }
    } else {
        lemma_surviving_membership(ids.drop_first(), ok.drop_first(), i - 1);
        if ok[i] {
            assert(rest.contains(ids.drop_first()[i - 1]));
            let j = choose|j: int| 0 <= j < rest.len() && rest[j] == ids[i];
            if ok[0] {
                assert(s[j + 1] == ids[i]);
            } else {
                assert(s[j] == ids[i]);
            }
            assert(s.contains(ids[i]));
        } else {
            if s.contains(ids[i]) {
                if ok[0] {
                    let j = choose|j: int| 0 <= j < s.len() && s[j] == ids[i];
                    if j == 0 {
                        assert(ids[0] == ids[i]);
                    } else {
                        assert(rest[j - 1] == ids[i]);
                        assert(rest.contains(ids.drop_first()[i - 1]));
                    }
                } else {
                    assert(rest.contains(ids.drop_first()[i - 1]));
                }
            }
        }
    }
}

/// The distinct survivors stay distinct.
proof fn lemma_surviving_distinct(ids: Seq<u64>, ok: Seq<bool>)
    requires
        ids.len() == ok.len(),
        forall|p: int, q: int| 0 <= p < q < ids.len() ==> ids[p] != ids[q],
    ensures
        forall|p: int, q: int|
            0 <= p < q < spec_surviving(ids, ok).len() ==> spec_surviving(ids, ok)[p]
                != spec_surviving(ids, ok)[q],
    decreases ids.len(),
{
    if ids.len() > 0 {
        let s = spec_surviving(ids, ok);
        let rest = spec_surviving(ids.drop_first(), ok.drop_first());
        lemma_surviving_distinct(ids.drop_first(), ok.drop_first());
        if ok[0] {
            assert forall|p: int, q: int| 0 <= p < q < s.len() implies s[p] != s[q] by {
                if p == 0 {
                    assert(s[0] == ids[0]);
                    assert(rest[q - 1] == s[q]);
                    assert(rest.contains(s[q]));
                    lemma_surviving_subset(ids.drop_first(), ok.drop_first(), s[q]);
                    let j = choose|j: int|
                        0 <= j < ids.drop_first().len() && ids.drop_first()[j] == s[q];
                    assert(ids[j + 1] == s[q]);
                } else {
                    assert(s[p] == rest[p - 1] && s[q] == rest[q - 1]);
                }
            }
        }
    }
}

/// What one registry iteration does after the typed channel was polled.
#[derive(Copy, Clone, Debug, PartialEq, Eq, Structural)]
pub enum RegistryStep {
    /// A snapshot arrived: fan it out to every client in the set.
    Broadcast,
    /// Nothing usable arrived: skip broadcasting this iteration.
    Idle,
    /// The simulation side is gone: terminate the loop gracefully.
    Shutdown,
}

/// Decide the iteration step from the poll outcome: a message is broadcast,
/// an empty or invalid poll is skipped, and a disconnect shuts down.
pub fn classify_poll(poll: &Recv<SimulationState>) -> (r: RegistryStep)
    ensures
        match poll {
            Recv::Msg(_) => r == RegistryStep::Broadcast,
            Recv::Empty => r == RegistryStep::Idle,
            Recv::Invalid => r == RegistryStep::Idle,
            Recv::Disconnected => r == RegistryStep::Shutdown,
        },
{
    match poll {
        Recv::Msg(_) => RegistryStep::Broadcast,
        Recv::Empty => RegistryStep::Idle,
        Recv::Invalid => RegistryStep::Idle,
        Recv::Disconnected => RegistryStep::Shutdown,
    }
}

/// The live set of server-side client handles, owned and mutated only by
/// the broadcast loop. Handles are identifiers that the surrounding
/// collaborator binds to connection send halves; a dropped handle is never
/// re-admitted, a fresh connection gets a fresh handle.
pub struct BroadcastRegistry {
    clients: HandleVec,
    next_id: u64,
}

impl BroadcastRegistry {
    /// The current client handles, in admission order.
    pub closed spec fn clients(&self) -> Seq<u64> {
        spec_handles(self.clients)
    }

    /// Registry well-formedness: handles are distinct and below the
    /// fresh-handle counter.
    pub closed spec fn wf(&self) -> bool {
        &&& forall|p: int, q: int|
            0 <= p < q < self.clients().len() ==> self.clients()[p] != self.clients()[q]
        &&& forall|p: int| 0 <= p < self.clients().len() ==> self.clients()[p] < self.next_id
    }

    /// True once the fresh-handle counter is exhausted; no further client
    /// can then be admitted.
    pub closed spec fn exhausted(&self) -> bool {
        self.next_id == u64::MAX
    }

    /// The fresh-handle horizon: every handle ever issued lies below it, so
    /// a handle issued later is distinct from every handle issued earlier,
    /// dropped or not.
    pub closed spec fn horizon(&self) -> u64 {
        self.next_id
    }

    /// An empty registry.
    pub fn new() -> (r: BroadcastRegistry)
        ensures
            r.wf(),
            r.clients() == Seq::<u64>::empty(),
            !r.exhausted(),
            r.horizon() == 0,
    {
        BroadcastRegistry { clients: handles_new(), next_id: 0 }
    }

    /// The number of live clients.
    pub fn client_count(&self) -> (n: usize)
        ensures
            n == self.clients().len(),
    {
        handles_len(&self.clients)
    }

    /// The live client handles, in admission order.
    pub fn client_ids(&self) -> (ids: Vec<u64>)
        ensures
            ids@ == self.clients(),
    {
        let s = handles_slice(&self.clients);
        vstd::slice::slice_to_vec(s)
    }

    /// Enroll one freshly handshaked connection: a handle never seen before
    /// joins the set. `None` only once the handle space is exhausted.
    pub fn enroll(&mut self) -> (r: Option<u64>)
        requires
            old(self).wf(),
        ensures
            final(self).wf(),
            match r {
                Some(id) => {
                    &&& final(self).clients() == old(self).clients().push(id)
                    &&& !old(self).clients().contains(id)
                    &&& id == old(self).horizon()
                    &&& final(self).horizon() == old(self).horizon() + 1
                },
                None => {
                    &&& old(self).exhausted()
                    &&& *final(self) == *old(self)
                },
            },
            old(self).horizon() < u64::MAX ==> r is Some,
    {
        if self.next_id == u64::MAX {
            return None;
        }
        let id = self.next_id;
        self.next_id = self.next_id + 1;
        handles_push(&mut self.clients, id);
        proof {
            if old(self).clients().contains(id) {
                let j = choose|j: int|
                    0 <= j < old(self).clients().len() && old(self).clients()[j] == id;
            }
            assert forall|p: int, q: int|
                0 <= p < q < self.clients().len() implies self.clients()[p]
                != self.clients()[q] by {
                assert(self.clients() == old(self).clients().push(id));
            }
        }
        Some(id)
    }

    /// Apply the outcome of one broadcast: the client at position `i` of the
    /// set stays exactly when `results[i]` is true, in order; a client whose
    /// send failed is out of the set before the next broadcast and is never
    /// retried.
    pub fn apply_send_results(&mut self, results: &Vec<bool>) -> (kept: usize)
        requires
            old(self).wf(),
            results@.len() == old(self).clients().len(),
        ensures
            final(self).wf(),
            final(self).clients() == spec_surviving(old(self).clients(), results@),
            kept == final(self).clients().len(),
            forall|i: int|
                0 <= i < results@.len() && !results@[i] ==> !final(self).clients().contains(
                    old(self).clients()[i],
                ),
            forall|i: int|
                0 <= i < results@.len() && results@[i] ==> final(self).clients().contains(
                    old(self).clients()[i],
                ),
            final(self).horizon() == old(self).horizon(),
    {
        let all = handles_drain(&mut self.clients);
        let ghost ids = all@;
        let ghost ok = results@;
        let n = all.len();
        let mut i: usize = 0;
        let mut kept: usize = 0;
        while i < n
            invariant
                n == ids.len(),
                ids.len() == ok.len(),
                all@ == ids,
                results@ == ok,
                0 <= i <= n,
                spec_handles(self.clients) == spec_surviving(ids.take(i as int), ok.take(i as int)),
                kept == spec_handles(self.clients).len(),
                kept <= i,
                self.next_id == old(self).next_id,
            decreases n - i,
        {
            proof {
                let tp = ids.take(i as int + 1);
                let op = ok.take(i as int + 1);
                assert(tp.drop_last() =~= ids.take(i as int));
                assert(op.drop_last() =~= ok.take(i as int));
                assert(tp.last() == ids[i as int] && op.last() == ok[i as int]);
                lemma_surviving_snoc(tp, op);
            }
            if results[i] {
                handles_push(&mut self.clients, all[i]);
                kept = kept + 1;
                proof {
                    assert(spec_handles(self.clients) =~= spec_surviving(
                        ids.take(i as int + 1),
                        ok.take(i as int + 1),
                    ));
                }
            } else {
                proof {
                    assert(spec_handles(self.clients) =~= spec_surviving(
                        ids.take(i as int + 1),
                        ok.take(i as int + 1),
                    ));
                }
            }
            i = i + 1;
        }
        proof {
            assert(ids.take(n as int) =~= ids);
            assert(ok.take(n as int) =~= ok);
            assert(ids == old(self).clients());
            lemma_surviving_distinct(ids, ok);
            assert forall|p: int|
                0 <= p < self.clients().len() implies self.clients()[p] < self.next_id by {
                assert(spec_surviving(ids, ok).contains(self.clients()[p]));
                lemma_surviving_subset(ids, ok, self.clients()[p]);
                let j = choose|j: int| 0 <= j < ids.len() && ids[j] == self.clients()[p];
                assert(old(self).clients()[j] < old(self).next_id);
            }
            assert forall|i0: int| 0 <= i0 < ok.len() implies (ok[i0] ==> self.clients().contains(
                ids[i0],
            )) && (!ok[i0] ==> !self.clients().contains(ids[i0])) by {
                lemma_surviving_membership(ids, ok, i0);
            }
        }
        kept
    }
}

/// The websocket server component: holds the configuration under which the
/// acceptor binds and the broadcast loop runs.
pub struct WebSocketServer {
    pub config: Config,
}

impl WebSocketServer {
    pub fn new(config: Config) -> (r: WebSocketServer)
        ensures
            r.config == config,
    {
        WebSocketServer { config }
    }
}

/// Forward a batch of client commands upstream over the typed channel, in
/// submission order, stopping at the first failure (the channel being gone
/// is fatal for the surrounding collaborator).
pub fn forward_commands(
    service: &FrontEnd<SpawnRequest, SimulationState>,
    cmds: &Vec<SpawnRequest>,
) -> (r: Result<usize, Error>)
    ensures
        r matches Ok(n) ==> n == cmds@.len(),
        r matches Err(e) ==> e matches Error::SystemIo { .. },
        cmds@.len() == 0 ==> r is Ok,
{
    let n = cmds.len();
    let mut i: usize = 0;
    while i < n
        invariant
            n == cmds@.len(),
            0 <= i <= n,
        decreases n - i,
    {
        match service.send(&cmds[i]) {
            Ok(()) => {},
            Err(e) => {
                return Err(e);
            },
        }
        i = i + 1;
    }
    Ok(n)
}

/// One happening in the broadcast chronicle, as observed by one client
/// identity: either a snapshot is published (and fanned out to every client
/// then in the set), or this client completes a fresh handshake and joins.
pub enum ServerStep {
    Publish { tick: u64 },
    Connect,
}

pub open spec fn spec_is_publish(s: ServerStep) -> bool {
    match s {
        ServerStep::Publish { .. } => true,
        ServerStep::Connect => false,
    }
}

pub open spec fn spec_tick_of(s: ServerStep) -> u64 {
    match s {
        ServerStep::Publish { tick } => tick,
        ServerStep::Connect => 0,
    }
}

/// Whether the client has joined somewhere in the chronicle.
pub open spec fn spec_connected(chron: Seq<ServerStep>) -> bool {
    exists|k: int| 0 <= k < chron.len() && !spec_is_publish(#[trigger] chron[k])
}

/// The ticks delivered to the client: the broadcast loop fans a snapshot
/// out only to clients already in the set, so exactly the snapshots
/// published after the client joined reach it, in publish order.
pub open spec fn spec_delivered(chron: Seq<ServerStep>) -> Seq<u64>
    decreases chron.len(),
{
    if chron.len() == 0 {
        Seq::empty()
    } else {
        let rest = spec_delivered(chron.drop_last());
        if spec_is_publish(chron.last()) && spec_connected(chron.drop_last()) {
            rest.push(spec_tick_of(chron.last()))
        } else {
            rest
        }
    }
}

/// Publish ticks never decrease along the chronicle.
pub open spec fn spec_publishes_monotone(chron: Seq<ServerStep>) -> bool {
    forall|i: int, j: int|
        0 <= i <= j < chron.len() && spec_is_publish(#[trigger] chron[i]) && spec_is_publish(
            #[trigger] chron[j],
        ) ==> spec_tick_of(chron[i]) <= spec_tick_of(chron[j])
}

/// Before the client joins, nothing is delivered to it.
proof fn lemma_not_connected_no_delivery(chron: Seq<ServerStep>)
    requires
        !spec_connected(chron),
    ensures
        spec_delivered(chron).len() == 0,
    decreases chron.len(),
{
    if chron.len() > 0 {
        assert(!spec_connected(chron.drop_last())) by {
            if spec_connected(chron.drop_last()) {
                let k = choose|k: int|
                    0 <= k < chron.drop_last().len() && !spec_is_publish(chron.drop_last()[k]);
                assert(chron.drop_last()[k] == chron[k]);
                assert(!spec_is_publish(chron[k]));
            }
        }
        lemma_not_connected_no_delivery(chron.drop_last());
    }
}

/// Law: after a disconnect and reconnect, no snapshot older than the
/// reconnect point is delivered. A removed connection is never re-added:
/// reconnecting means a fresh handshake, joining at some position `k` of
/// the chronicle. Everything delivered from then on was published after
/// `k`, and publish ticks never decrease, so no delivered snapshot is older
/// than any snapshot published before the reconnect.
pub proof fn lemma_reconnect_no_stale(chron: Seq<ServerStep>, k: int, m: int, x: int)
    requires
        spec_publishes_monotone(chron),
        0 <= m < k < chron.len(),
        !spec_is_publish(chron[k]),
        !spec_connected(chron.take(k)),
        spec_is_publish(chron[m]),
        0 <= x < spec_delivered(chron).len(),
    ensures
        spec_delivered(chron)[x] >= spec_tick_of(chron[m]),
    decreases chron.len(),
{
    let prev = chron.drop_last();
    let rest = spec_delivered(prev);
    if k == chron.len() - 1 {
        assert(prev =~= chron.take(k));
        lemma_not_connected_no_delivery(prev);
        assert(!spec_is_publish(chron.last()));
        assert(false);
    } else {
        assert(prev.take(k) =~= chron.take(k));
        assert(prev[k] == chron[k] && prev[m] == chron[m]);
        assert(spec_publishes_monotone(prev)) by {
            assert forall|i: int, j: int|
                0 <= i <= j < prev.len() && spec_is_publish(#[trigger] prev[i]) && spec_is_publish(
                    #[trigger] prev[j],
                ) implies spec_tick_of(prev[i]) <= spec_tick_of(prev[j]) by {
                assert(prev[i] == chron[i] && prev[j] == chron[j]);
            }
        }
        if spec_is_publish(chron.last()) && spec_connected(prev) {
            if x < rest.len() {
                lemma_reconnect_no_stale(prev, k, m, x);
                assert(spec_delivered(chron)[x] == rest[x]);
            } else {
                assert(spec_delivered(chron)[x] == spec_tick_of(chron.last()));
                assert(chron.last() == chron[chron.len() - 1]);
                assert(spec_tick_of(chron[m]) <= spec_tick_of(chron[chron.len() - 1]));
            }
        } else {
            assert(spec_delivered(chron) == rest);
            lemma_reconnect_no_stale(prev, k, m, x);
        }
    }
}

} // verus!
