use vstd::prelude::*;

use crate::codec;
use crate::message::{Frame, FromWebSocketMessage, SimulationState, SpawnRequest, StateView,
    ToWebSocketMessage};

verus! {

/// Fixed delay between reconnect attempts, in milliseconds: no growth, no
/// jitter, no attempt cap.
pub const RECONNECT_DELAY_MS: u64 = 3000;

/// The consumer-side connection phases; the client cycles between them
/// forever, with no terminal state.
#[derive(Copy, Clone, Debug, PartialEq, Eq, Structural)]
pub enum ClientPhase {
    Connecting,
    Connected,
}

/// What the surrounding connection loop observed.
pub enum ClientEvent {
    /// The transport handshake succeeded.
    ConnectSucceeded,
    /// The transport handshake failed.
    ConnectFailed,
    /// One inbound frame arrived.
    FrameReceived(Frame),
    /// The stream ended, or a recoverable transport error occurred
    /// (connection closed, protocol error, I/O error mid-stream).
    ConnectionLost,
}

/// What the connection loop must do next.
#[derive(Copy, Clone, Debug, PartialEq, Eq, Structural)]
pub enum ClientDirective {
    /// Keep the session going: await the next inbound frame.
    Continue,
    /// Wait this many milliseconds, then retry the handshake.
    RetryAfter(u64),
    /// Retry the handshake immediately.
    Reconnect,
}

/// The mathematical value of a `ReconnectingClient`.
pub ghost struct ClientMachineView {
    pub phase: ClientPhase,
    pub mailbox: Option<StateView>,
    pub outbox: Seq<SpawnRequest>,
}

/// The consumer-side counterpart of the server: a persistent outbound
/// connection with infinite retry, a single-slot latest-state mailbox, and
/// an outbound command queue buffered across connection attempts. This type
/// holds the protocol state and decisions; the surrounding loop does the
/// transport work and reports what happened.
pub struct ReconnectingClient {
    phase: ClientPhase,
    mailbox: Option<SimulationState>,
    outbox: Vec<SpawnRequest>,
}

impl View for ReconnectingClient {
    type V = ClientMachineView;

    closed spec fn view(&self) -> ClientMachineView {
        ClientMachineView {
            phase: self.phase,
            mailbox: match self.mailbox {
                Some(s) => Some(s@),
                None => None,
            },
            outbox: self.outbox@,
        }
    }
}

impl ReconnectingClient {
    /// A fresh client: not yet connected, empty mailbox, empty queue.
    pub fn new() -> (r: ReconnectingClient)
        ensures
            r@.phase == ClientPhase::Connecting,
            r@.mailbox is None,
            r@.outbox == Seq::<SpawnRequest>::empty(),
    {
        let r = ReconnectingClient { phase: ClientPhase::Connecting, mailbox: None, outbox: Vec::new() };
        proof {
            assert(r@.outbox =~= Seq::<SpawnRequest>::empty());
        }
        r
    }

    /// Queue one command, whatever the phase: a command submitted while
    /// disconnected stays queued until a connection drains it.
    pub fn submit(&mut self, req: SpawnRequest)
        ensures
            final(self)@.outbox == old(self)@.outbox.push(req),
            final(self)@.phase == old(self)@.phase,
            final(self)@.mailbox == old(self)@.mailbox,
    {
        self.outbox.push(req);
    }

    /// Destructive read of the latest snapshot: the consumer takes the value
    /// and the slot empties.
    pub fn take_state(&mut self) -> (r: Option<SimulationState>)
        ensures
            match r {
                Some(s) => old(self)@.mailbox == Some(s@),
                None => old(self)@.mailbox is None,
            },
            final(self)@.mailbox is None,
            final(self)@.phase == old(self)@.phase,
            final(self)@.outbox == old(self)@.outbox,
    {
        self.mailbox.take()
    }

    /// Advance the state machine by one observed event.
    ///
    /// While connecting, a successful handshake connects and a failed one is
    /// retried after the fixed delay. While connected, a binary frame whose
    /// payload is exactly one snapshot encoding overwrites the mailbox
    /// (latest wins); any other frame is logged and dropped by the caller
    /// and changes nothing; a lost connection goes back to connecting with
    /// mailbox and queue intact. No event empties the queue or conjures a
    /// snapshot from a malformed frame.
    pub fn on_event(&mut self, event: ClientEvent) -> (d: ClientDirective)
        ensures
            final(self)@.outbox == old(self)@.outbox,
            match old(self)@.phase {
                ClientPhase::Connecting => match event {
                    ClientEvent::ConnectSucceeded => final(self)@.phase == ClientPhase::Connected
                        && final(self)@.mailbox == old(self)@.mailbox && d
                        == ClientDirective::Continue,
                    ClientEvent::ConnectFailed => final(self)@ == old(self)@ && d
                        == ClientDirective::RetryAfter(RECONNECT_DELAY_MS),
                    _ => final(self)@ == old(self)@ && d == ClientDirective::Reconnect,
                },
                ClientPhase::Connected => match event {
                    ClientEvent::FrameReceived(frame) => d == ClientDirective::Continue
                        && final(self)@.phase == ClientPhase::Connected && (match frame {
                        Frame::Binary(b) => match codec::spec_parse_state(b@) {
                            Some(v) => final(self)@.mailbox == Some(v),
                            None => final(self)@.mailbox == old(self)@.mailbox,
                        },
                        _ => final(self)@.mailbox == old(self)@.mailbox,
                    }),
                    ClientEvent::ConnectionLost => final(self)@.phase == ClientPhase::Connecting
                        && final(self)@.mailbox == old(self)@.mailbox && d
                        == ClientDirective::Reconnect,
                    _ => final(self)@ == old(self)@ && d == ClientDirective::Continue,
                },
            },
    {
        match self.phase {
            ClientPhase::Connecting => match event {
                ClientEvent::ConnectSucceeded => {
                    self.phase = ClientPhase::Connected;
                    ClientDirective::Continue
                },
                ClientEvent::ConnectFailed => ClientDirective::RetryAfter(RECONNECT_DELAY_MS),
                ClientEvent::FrameReceived(_) => ClientDirective::Reconnect,
                ClientEvent::ConnectionLost => ClientDirective::Reconnect,
            },
            ClientPhase::Connected => match event {
                ClientEvent::FrameReceived(frame) => {
                    match frame {
                        Frame::Binary(bytes) => {
                            match SimulationState::from_wire(&bytes) {
                                Some(state) => {
                                    self.mailbox = Some(state);
                                },
                                None => {},
                            }
                        },
                        _ => {},
                    }
                    ClientDirective::Continue
                },
                ClientEvent::ConnectionLost => {
                    self.phase = ClientPhase::Connecting;
                    ClientDirective::Reconnect
                },
                ClientEvent::ConnectSucceeded => ClientDirective::Continue,
                ClientEvent::ConnectFailed => ClientDirective::Continue,
            },
        }
    }

    /// Encode and hand out every queued command, in submission order, and
    /// empty the queue: each command leaves it exactly once. The encoding is
    /// total, so the whole batch always drains; were an encoding ever to
    /// fail, the batch would stop early with the remainder kept for the
    /// next cycle.
    pub fn drain_outbox(&mut self) -> (frames: Vec<Frame>)
        ensures
            final(self)@.outbox == Seq::<SpawnRequest>::empty(),
            final(self)@.phase == old(self)@.phase,
            final(self)@.mailbox == old(self)@.mailbox,
            frames@.len() == old(self)@.outbox.len(),
            forall|i: int|
                0 <= i < frames@.len() ==> (#[trigger] frames@[i] matches Frame::Binary(b) && b@
                    == codec::spec_encode_spawn_request(old(self)@.outbox[i])),
    {
        let mut frames: Vec<Frame> = Vec::new();
        let n = self.outbox.len();
        for i in 0..n
            invariant
                n == self.outbox.len(),
                self.outbox@ == old(self)@.outbox,
                self.phase == old(self).phase,
                self.mailbox == old(self).mailbox,
                frames@.len() == i,
                forall|j: int|
                    0 <= j < i ==> (#[trigger] frames@[j] matches Frame::Binary(b) && b@
                        == codec::spec_encode_spawn_request(self.outbox@[j])),
        {
            match self.outbox[i].to_message() {
                Ok(f) => {
                    frames.push(f);
                },
                Err(_) => {
                    // The snapshot and command encodings are total, so this
                    // batch-abort arm can never run.
                    proof {
                        assert(false);
                    }
                },
            }
        }
        self.outbox.clear();
        frames
    }
}

/// Ticks never decrease along a sequence.
pub open spec fn spec_non_decreasing(ticks: Seq<u64>) -> bool {
    forall|i: int, j: int| 0 <= i <= j < ticks.len() ==> ticks[i] <= ticks[j]
}

/// The mailbox after a sequence of deliveries: each arrival destructively
/// overwrites the slot, so the latest delivered tick is the one exposed.
pub open spec fn spec_mailbox_after(ticks: Seq<u64>) -> Option<u64> {
    if ticks.len() == 0 {
        None
    } else {
        Some(ticks.last())
    }
}

/// Law: monotonic overwrite. If the ticks delivered to a client never
/// decrease, then sampling the mailbox after `i` deliveries and again after
/// `j >= i` deliveries never exposes an older tick the second time.
pub proof fn lemma_mailbox_monotonic(ticks: Seq<u64>, i: int, j: int)
    requires
        spec_non_decreasing(ticks),
        0 <= i <= j <= ticks.len(),
    ensures
        spec_mailbox_after(ticks.take(i)) matches Some(ti) ==> spec_mailbox_after(ticks.take(j))
            matches Some(tj) && ti <= tj,
{
    if i > 0 {
        assert(ticks.take(i).last() == ticks[i - 1]);
        assert(ticks.take(j).last() == ticks[j - 1]);
    }
}

/// The tick a binary payload carries, when it is exactly one snapshot
/// encoding.
pub open spec fn spec_tick_at(payload: Seq<u8>) -> Option<u64> {
    match codec::spec_parse_state(payload) {
        Some(v) => Some(v.tick),
        None => None,
    }
}

/// The mailbox tick after a connected run of inbound binary payloads: a
/// payload that is exactly one snapshot encoding overwrites the slot, any
/// other payload leaves it alone.
pub open spec fn spec_mailbox_tick_fold(init: Option<u64>, payloads: Seq<Seq<u8>>) -> Option<u64>
    decreases payloads.len(),
{
    if payloads.len() == 0 {
        init
    } else {
        match spec_tick_at(payloads.last()) {
            Some(t) => Some(t),
            None => spec_mailbox_tick_fold(init, payloads.drop_last()),
        }
    }
}

/// The decodable payloads of a run carry non-decreasing ticks.
pub open spec fn spec_decodable_ticks_monotone(payloads: Seq<Seq<u8>>) -> bool {
    forall|k: int, l: int|
        0 <= k <= l < payloads.len() ==> (match (
            #[trigger] spec_tick_at(payloads[k]),
            #[trigger] spec_tick_at(payloads[l]),
        ) {
            (Some(a), Some(b)) => a <= b,
            _ => true,
        })
}

/// What the mailbox exposes is its starting value or some delivered tick.
proof fn lemma_fold_sources(init: Option<u64>, payloads: Seq<Seq<u8>>)
    ensures
        match spec_mailbox_tick_fold(init, payloads) {
            None => init is None,
            Some(t) => init == Some(t) || exists|k: int|
                0 <= k < payloads.len() && #[trigger] spec_tick_at(payloads[k]) == Some(t),
        },
    decreases payloads.len(),
{
    if payloads.len() > 0 {
        lemma_fold_sources(init, payloads.drop_last());
        match spec_tick_at(payloads.last()) {
            Some(t) => {
                assert(payloads[payloads.len() - 1] == payloads.last());
            },
            None => {
                match spec_mailbox_tick_fold(init, payloads.drop_last()) {
                    Some(t) => {
                        if init != Some(t) {
                            let k = choose|k: int|
                                0 <= k < payloads.drop_last().len() && #[trigger] spec_tick_at(
                                    payloads.drop_last()[k],
                                ) == Some(t);
                            assert(payloads[k] == payloads.drop_last()[k]);
                            assert(spec_tick_at(payloads[k]) == Some(t));
                        }
                    },
                    None => {},
                }
            },
        }
    }
}

/// Law: monotonic overwrite over raw frames. Along one connected run the
/// decodable payload ticks never decrease and none is below the starting
/// mailbox tick; then the mailbox, sampled after any prefix of the run and
/// again after any longer prefix, never exposes an older tick the second
/// time — and payloads that decode to nothing never disturb it.
pub proof fn lemma_mailbox_fold_monotonic(
    init: Option<u64>,
    payloads: Seq<Seq<u8>>,
    i: int,
    j: int,
)
    requires
        0 <= i <= j <= payloads.len(),
        spec_decodable_ticks_monotone(payloads),
        match init {
            Some(t0) => forall|k: int|
                0 <= k < payloads.len() ==> (match #[trigger] spec_tick_at(payloads[k]) {
                    Some(t) => t0 <= t,
                    None => true,
                }),
            None => true,
        },
    ensures
        spec_mailbox_tick_fold(init, payloads.take(i)) matches Some(ti)
            ==> spec_mailbox_tick_fold(init, payloads.take(j)) matches Some(tj) && ti <= tj,
    decreases j - i,
{
    if i < j {
        match spec_mailbox_tick_fold(init, payloads.take(i)) {
            Some(ti) => {
                lemma_mailbox_fold_monotonic(init, payloads, i, j - 1);
                let tp = payloads.take(j);
                assert(tp.drop_last() =~= payloads.take(j - 1));
                assert(tp.last() == payloads[j - 1]);
                match spec_tick_at(payloads[j - 1]) {
                    Some(t) => {
                        lemma_fold_sources(init, payloads.take(i));
                        if init == Some(ti) {
                            assert(ti <= t);
                        } else {
                            let k = choose|k: int|
                                0 <= k < payloads.take(i).len() && #[trigger] spec_tick_at(
                                    payloads.take(i)[k],
                                ) == Some(ti);
                            assert(payloads.take(i)[k] == payloads[k]);
                            assert(k <= j - 1);
                            assert(match (spec_tick_at(payloads[k]), spec_tick_at(
                                payloads[j - 1],
                            )) {
                                (Some(a), Some(b)) => a <= b,
                                _ => true,
                            });
                        }
                        assert(spec_mailbox_tick_fold(init, payloads.take(j)) == Some(t));
                    },
                    None => {
                        assert(spec_mailbox_tick_fold(init, payloads.take(j))
                            == spec_mailbox_tick_fold(init, payloads.take(j - 1)));
                    },
                }
            },
            None => {},
        }
    }
}

/// The ticks a client sees: an order-preserving selection out of the
/// published sequence (each connection forwards a subsequence, in order).
pub open spec fn spec_selected(published: Seq<u64>, picks: Seq<int>) -> Seq<u64> {
    picks.map_values(|k: int| published[k])
}

/// Law: what reaches one client is non-decreasing. The simulation publishes
/// ticks in non-decreasing order and each connection delivers an
/// order-preserving selection of them, so the delivered ticks never
/// decrease either — the premise of the monotonic-overwrite law.
pub proof fn lemma_selection_non_decreasing(published: Seq<u64>, picks: Seq<int>)
    requires
        spec_non_decreasing(published),
        forall|i: int| 0 <= i < picks.len() ==> 0 <= #[trigger] picks[i] < published.len(),
        forall|i: int, j: int| 0 <= i <= j < picks.len() ==> #[trigger] picks[i] <= #[trigger] picks[j],
    ensures
        spec_non_decreasing(spec_selected(published, picks)),
{
    let sel = spec_selected(published, picks);
    assert forall|i: int, j: int| 0 <= i <= j < sel.len() implies sel[i] <= sel[j] by {
        assert(sel[i] == published[picks[i]]);
        assert(sel[j] == published[picks[j]]);
    }
}

} // verus!
