use vstd::prelude::*;

use crate::message::{Frame, FromWebSocketMessage, ToWebSocketMessage};
use crate::Error;

verus! {

broadcast use vstd::string::group_string_axioms;

/// The single supported transport: a websocket upgrade over TCP.
#[derive(Copy, Clone, Debug)]
pub enum Transport {
    WebSocket,
}

/// ASCII lowercasing of one character; anything but `A`..`Z` is unchanged.
pub open spec fn spec_lower_char(c: char) -> char {
    if 65 <= c as u32 && c as u32 <= 90 {
        ((c as u32) + 32) as char
    } else {
        c
    }
}

/// ASCII lowercasing of a character sequence.
pub open spec fn spec_lower(s: Seq<char>) -> Seq<char> {
    s.map_values(|c: char| spec_lower_char(c))
}

fn lower_char(c: char) -> (r: char)
    ensures
        r == spec_lower_char(c),
{
    let u = c as u32;
    if 65 <= u && u <= 90 {
        ((c as u8) + 32) as char
    } else {
        c
    }
}

fn str_lower_eq(s: &str, t: &str) -> (r: bool)
    ensures
        r == (spec_lower(s@) == t@),
{
    let n = s.unicode_len();
    let m = t.unicode_len();
    if n != m {
        proof {
            assert(spec_lower(s@).len() == s@.len());
        }
        return false;
    }
    for i in 0..n
        invariant
            n == s@.len(),
            n == t@.len(),
            forall|j: int| 0 <= j < i ==> spec_lower_char(s@[j]) == t@[j],
    {
        let c = lower_char(s.get_char(i));
        let d = t.get_char(i);
        if c != d {
            proof {
                assert(spec_lower(s@)[i as int] != t@[i as int]);
            }
            return false;
        }
    }
    proof {
        assert(spec_lower(s@) =~= t@);
    }
    true
}

impl Transport {
    /// Parse a transport name, ASCII-case-insensitively. Exactly the names
    /// `ws`, `websocket` and `web-socket` are accepted.
    pub fn from_str(s: &str) -> (r: Option<Transport>)
        ensures
            r is Some <==> (spec_lower(s@) == "web-socket"@ || spec_lower(s@) == "websocket"@
                || spec_lower(s@) == "ws"@),
            r matches Some(t) ==> t == Transport::WebSocket,
    {
        if str_lower_eq(s, "web-socket") || str_lower_eq(s, "websocket") || str_lower_eq(s, "ws") {
            Some(Transport::WebSocket)
        } else {
            None
        }
    }
}

impl core::str::FromStr for Transport {
    type Err = Error;

    fn from_str(s: &str) -> Result<Transport, Error> {
        match Transport::from_str(s) {
            Some(t) => Ok(t),
            None => Err(
                Error::BadValue {
                    from: "str".to_owned(),
                    to: "Transport".to_owned(),
                    value: s.to_owned(),
                },
            ),
        }
    }
}

/// Outcome of one non-blocking receive attempt on a typed channel.
/// `Invalid` is a frame that did not decode into the expected type;
/// `Disconnected` means the peer side has been torn down.
pub enum Recv<M> {
    Msg(M),
    Empty,
    Invalid,
    Disconnected,
}

/// Raw outcome of one non-blocking attempt on the underlying queue.
enum RawRecv<T> {
    Got(T),
    Empty,
    Disconnected,
}

#[verifier::external_type_specification]
#[verifier::external_body]
#[verifier::reject_recursive_types(T)]
pub struct ExSender<T>(std::sync::mpsc::Sender<T>);

#[verifier::external_type_specification]
#[verifier::external_body]
#[verifier::reject_recursive_types(T)]
pub struct ExReceiver<T>(std::sync::mpsc::Receiver<T>);

/// Relies on std::sync::mpsc::channel: returns the two halves of a fresh
/// asynchronous (unbounded) queue. Nothing is assumed of the queue's
/// contents: what comes out depends on what other tasks put in.
#[verifier::external_body]
fn mpsc_channel<T>() -> (std::sync::mpsc::Sender<T>, std::sync::mpsc::Receiver<T>) {
    std::sync::mpsc::channel()
}

/// Relies on std::sync::mpsc::Sender::send: enqueues the value and returns
/// whether the receiving half was still alive; it never blocks.
#[verifier::external_body]
fn mpsc_send<T>(tx: &std::sync::mpsc::Sender<T>, value: T) -> bool {
    tx.send(value).is_ok()
}

/// Relies on std::sync::mpsc::Receiver::try_recv: one non-blocking attempt,
/// reporting a value, an empty queue, or a hung-up sender, one arm each.
#[verifier::external_body]
fn mpsc_try_recv<T>(rx: &std::sync::mpsc::Receiver<T>) -> RawRecv<T> {
    match rx.try_recv() {
        Ok(v) => RawRecv::Got(v),
        Err(std::sync::mpsc::TryRecvError::Empty) => RawRecv::Empty,
        Err(std::sync::mpsc::TryRecvError::Disconnected) => RawRecv::Disconnected,
    }
}

/// One direction-pair of plain typed queues: values of `Tx` go out, values
/// of `Rx` come in, unencoded.
#[verifier::reject_recursive_types(Tx)]
#[verifier::reject_recursive_types(Rx)]
pub struct BidirectionalStream<Tx, Rx> {
    tx: std::sync::mpsc::Sender<Tx>,
    rx: std::sync::mpsc::Receiver<Rx>,
}

impl<Tx, Rx> BidirectionalStream<Tx, Rx> {
    /// Enqueue one value for the peer. Fails only if the peer side is
    /// already torn down, which callers treat as fatal.
    pub fn send(&self, value: Tx) -> (r: Result<(), Error>)
        ensures
            r matches Err(e) ==> e matches Error::SystemIo { .. },
    {
        if mpsc_send(&self.tx, value) {
            Ok(())
        } else {
            Err(Error::SystemIo { message: "channel peer is gone".to_owned() })
        }
    }

    /// One non-blocking receive attempt; a plain stream never yields
    /// `Invalid`, since no decoding is involved.
    pub fn recv(&self) -> (r: Recv<Rx>)
        ensures
            !(r is Invalid),
    {
        match mpsc_try_recv(&self.rx) {
            RawRecv::Got(v) => Recv::Msg(v),
            RawRecv::Empty => Recv::Empty,
            RawRecv::Disconnected => Recv::Disconnected,
        }
    }
}

/// A bidirectional in-process pipe endpoint.
#[verifier::reject_recursive_types(Tx)]
#[verifier::reject_recursive_types(Rx)]
pub struct Channel<Tx, Rx>(BidirectionalStream<Tx, Rx>);

impl<Tx, Rx> Channel<Tx, Rx> {
    /// See `BidirectionalStream::send`.
    pub fn send(&self, value: Tx) -> (r: Result<(), Error>)
        ensures
            r matches Err(e) ==> e matches Error::SystemIo { .. },
    {
        self.0.send(value)
    }

    /// See `BidirectionalStream::recv`.
    pub fn recv(&self) -> (r: Recv<Rx>)
        ensures
            !(r is Invalid),
    {
        self.0.recv()
    }
}

/// Two connected plain endpoints: what one sends, the other receives.
pub fn channel_pair<S, C>() -> (Channel<C, S>, Channel<S, C>) {
    let (s_tx, s_rx) = mpsc_channel::<S>();
    let (c_tx, c_rx) = mpsc_channel::<C>();
    (
        Channel(BidirectionalStream { tx: c_tx, rx: s_rx }),
        Channel(BidirectionalStream { tx: s_tx, rx: c_rx }),
    )
}

/// A typed message pipe endpoint: outbound values are encoded into binary
/// frames, inbound frames are decoded, one non-blocking attempt at a time.
pub struct BidirectionMessageStream<Tx, Rx> {
    tx: std::sync::mpsc::Sender<Frame>,
    rx: std::sync::mpsc::Receiver<Frame>,
    _p: core::marker::PhantomData<(Tx, Rx)>,
}

impl<Tx, Rx> BidirectionMessageStream<Tx, Rx> where Tx: ToWebSocketMessage {
    /// Encode `value` with the fixed binary encoding and enqueue the frame.
    /// Fails only if the peer side is already torn down.
    pub fn send(&self, value: &Tx) -> (r: Result<(), Error>)
        ensures
            r matches Err(e) ==> e matches Error::SystemIo { .. },
    {
        match value.to_message() {
            Ok(frame) => {
                if mpsc_send(&self.tx, frame) {
                    Ok(())
                } else {
                    Err(Error::SystemIo { message: "channel peer is gone".to_owned() })
                }
            },
            Err(e) => Err(e),
        }
    }
}

/// Decode one pending inbound frame into a typed receive outcome: a binary
/// frame whose payload is exactly one encoding of `Rx` becomes `Msg` of the
/// decoded value; a binary frame that does not decode, and every other frame
/// kind, is `Invalid`.
pub fn classify_frame<Rx: FromWebSocketMessage>(frame: Frame) -> (r: Recv<Rx>)
    ensures
        match frame {
            Frame::Binary(b) => match Rx::parses(b@) {
                Some(m) => r matches Recv::Msg(mm) && mm@ == m,
                None => r is Invalid,
            },
            _ => r is Invalid,
        },
{
    match frame {
        Frame::Binary(bytes) => match Rx::from_wire(&bytes) {
            Some(m) => Recv::Msg(m),
            None => Recv::Invalid,
        },
        _ => Recv::Invalid,
    }
}

impl<Tx, Rx> BidirectionMessageStream<Tx, Rx> where Rx: FromWebSocketMessage {
    /// One non-blocking receive attempt, no retries. Whether a frame is
    /// pending at all depends on the other tasks, so only the classification
    /// of whatever was pending can be promised: a pending frame is put
    /// through `classify_frame`, so a message is returned exactly when the
    /// pending frame was binary and its payload one encoding of `Rx`, and
    /// `Invalid` exactly when it was any other pending frame; an empty queue
    /// is `Empty` and a torn-down peer `Disconnected`.
    pub fn recv(&self) -> (r: Recv<Rx>)
        ensures
            r matches Recv::Msg(m) ==> exists|b: Seq<u8>| Rx::parses(b) == Some(m@),
    {
        match mpsc_try_recv(&self.rx) {
            RawRecv::Got(frame) => classify_frame::<Rx>(frame),
            RawRecv::Empty => Recv::Empty,
            RawRecv::Disconnected => Recv::Disconnected,
        }
    }
}

/// A typed message pipe endpoint, as handed to the two collaborators.
pub struct MessageChannel<Tx, Rx> {
    stream: BidirectionMessageStream<Tx, Rx>,
}

pub type FrontEnd<Tx, Rx> = MessageChannel<Tx, Rx>;

pub type BackEnd<Tx, Rx> = MessageChannel<Tx, Rx>;

impl<Tx, Rx> MessageChannel<Tx, Rx> where Tx: ToWebSocketMessage {
    /// See `BidirectionMessageStream::send`.
    pub fn send(&self, value: &Tx) -> (r: Result<(), Error>)
        ensures
            r matches Err(e) ==> e matches Error::SystemIo { .. },
    {
        self.stream.send(value)
    }
}

impl<Tx, Rx> MessageChannel<Tx, Rx> where Rx: FromWebSocketMessage {
    /// See `BidirectionMessageStream::recv`.
    pub fn recv(&self) -> (r: Recv<Rx>)
        ensures
            r matches Recv::Msg(m) ==> exists|b: Seq<u8>| Rx::parses(b) == Some(m@),
    {
        self.stream.recv()
    }
}

/// Two connected typed endpoints: the front end (network side) and the back
/// end (simulation side). What one sends as `S`, the other receives as `S`,
/// and likewise for `C`, each value travelling as one encoded binary frame.
pub fn server_channel<S, C>() -> (FrontEnd<C, S>, BackEnd<S, C>) {
    let (s_tx, s_rx) = mpsc_channel::<Frame>();
    let (c_tx, c_rx) = mpsc_channel::<Frame>();
    (
        FrontEnd {
            stream: BidirectionMessageStream {
                tx: c_tx,
                rx: s_rx,
                _p: core::marker::PhantomData,
            },
        },
        BackEnd {
            stream: BidirectionMessageStream {
                tx: s_tx,
                rx: c_rx,
                _p: core::marker::PhantomData,
            },
        },
    )
}

} // verus!
