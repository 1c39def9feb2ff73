//! Per-connection state: lifecycle, the ingest dispatch machine, and the
//! outbound frame model.
//!
//! A live connection's shared mutable state (lifecycle state plus the ordered
//! sequence of frames handed to the writer half) is modeled by [`Connection`].
//! The ingest loop's per-frame decision is [`Connection::ingest_frame`]; the
//! unverified shell reads frames off the socket, feeds them here, and carries
//! out the returned action.

use vstd::prelude::*;
use vstd::string::StringExecFns;

use crate::types::{BinaryMessageEvent, CloseEvent, TextMessageEvent};

verus! {

/// The lifecycle of one WebSocket connection.
///
/// A connection advances CONNECTING -> OPEN -> (CLOSING ->) CLOSED and never
/// retreats; once CLOSED, all send operations fail.
#[derive(Clone, Copy, Debug, PartialEq, Eq, Structural)]
pub enum ConnState {
    /// The connection is open and active.
    OPEN,
    /// The connection has been closed.
    CLOSED,
    /// The connection is being established.
    CONNECTING,
    /// The connection is in the process of closing.
    CLOSING,
}

impl ConnState {
    /// Position of a state along the lifecycle; transitions never decrease it.
    pub open spec fn rank(self) -> int {
        match self {
            ConnState::CONNECTING => 0,
            ConnState::OPEN => 1,
            ConnState::CLOSING => 2,
            ConnState::CLOSED => 3,
        }
    }
}

/// The body of a close frame: code and reason.
pub struct CloseFrame {
    /// The close code from the wire.
    pub code: u16,
    /// The close reason from the wire.
    pub reason: String,
}

/// One WebSocket frame, as the engine sees it after decoding.
pub enum Frame {
    /// A UTF-8 text frame.
    Text(String),
    /// A binary frame.
    Binary(Vec<u8>),
    /// A ping control frame with its payload.
    Ping(Vec<u8>),
    /// A pong control frame with its payload.
    Pong(Vec<u8>),
    /// A close control frame, with its body if the peer sent one.
    Close(Option<CloseFrame>),
}

/// What the ingest loop must do with one inbound frame.
pub enum IngestAction {
    /// Invoke the user's text handler with this event.
    DispatchText(TextMessageEvent),
    /// Invoke the user's binary handler with this event.
    DispatchBinary(BinaryMessageEvent),
    /// A pong reply was queued on the writer; no user callback.
    PongSent,
    /// Nothing to do (inbound pong).
    NoAction,
    /// Invoke the user's close handler with this event, then run the
    /// close hook and leave the loop.
    DispatchClose(CloseEvent),
}

/// The ingest loop's decision for one inbound frame.
pub struct IngestStep {
    /// The action to carry out.
    pub action: IngestAction,
    /// Whether the ingest loop ends after this frame.
    pub exit: bool,
}

/// The shared per-connection state: identity, lifecycle state, and the
/// ordered sequence of frames handed to the writer half (oldest first).
///
/// The connection and every handle cloned from it share one value of this
/// type; the shell serializes access to it, so each operation here is one
/// atomic step of the session.
pub struct Connection {
    /// Unique identifier, assigned at accept time.
    pub id: u64,
    /// The remote address, rendered as text.
    pub addr: String,
    /// Current lifecycle state.
    pub state: ConnState,
    /// Every frame written on this connection, in write order. A frame is an
    /// atomic unit: a send appends exactly one complete frame.
    pub outbox: Vec<Frame>,
}

/// The parts of a connection that no operation may change: its identity.
pub open spec fn same_identity(c0: Connection, c1: Connection) -> bool {
    &&& c1.id == c0.id
    &&& c1.addr == c0.addr
}

/// `c1` is `c0` with one text frame carrying `msg` appended to its outbox.
pub open spec fn outbox_appended_text(c0: Connection, c1: Connection, msg: Seq<char>) -> bool {
    &&& same_identity(c0, c1)
    &&& c1.state == c0.state
    &&& c1.outbox@.len() == c0.outbox@.len() + 1
    &&& c1.outbox@.subrange(0, c0.outbox@.len() as int) == c0.outbox@
    &&& c1.outbox@.last() matches Frame::Text(t) && t@ == msg
}

/// `c1` is `c0` with one binary frame carrying `bytes` appended to its outbox.
pub open spec fn outbox_appended_binary(c0: Connection, c1: Connection, bytes: Seq<u8>) -> bool {
    &&& same_identity(c0, c1)
    &&& c1.state == c0.state
    &&& c1.outbox@.len() == c0.outbox@.len() + 1
    &&& c1.outbox@.subrange(0, c0.outbox@.len() as int) == c0.outbox@
    &&& c1.outbox@.last() matches Frame::Binary(b) && b@ == bytes
}

impl Connection {
    /// Creates the state for a connection that just completed its handshake.
    pub fn new(id: u64, addr: String) -> (r: Self)
        ensures
            r.id == id,
            r.addr@ == addr@,
            r.state == ConnState::CONNECTING,
            r.outbox@ =~= Seq::<Frame>::empty(),
    {
        Connection { id, addr, state: ConnState::CONNECTING, outbox: Vec::new() }
    }

    /// The unique identifier of this connection.
    pub fn id(&self) -> (r: u64)
        ensures
            r == self.id,
    {
        self.id
    }

    /// The remote address of this connection, as text.
    pub fn addr(&self) -> (r: &str)
        ensures
            r@ == self.addr@,
    {
        self.addr.as_str()
    }

    /// The current lifecycle state.
    pub fn state(&self) -> (r: ConnState)
        ensures
            r == self.state,
    {
        self.state
    }

    /// The transition CONNECTING -> OPEN, taken just before the user's open
    /// handler is invoked.
    pub fn mark_open(&mut self)
        requires
            old(self).state == ConnState::CONNECTING,
        ensures
            same_identity(*old(self), *final(self)),
            final(self).state == ConnState::OPEN,
            final(self).outbox@ == old(self).outbox@,
            old(self).state.rank() <= final(self).state.rank(),
    {
        self.state = ConnState::OPEN;
    }

    /// The ingest loop's step: decides what one inbound frame means.
    ///
    /// A ping is answered in place: the pong reply, carrying the ping's
    /// payload, is queued on the writer before the loop can read the next
    /// frame, so it precedes every later outbound frame. A close frame
    /// yields the close event for the user handler — the body's code and
    /// reason verbatim, or (1005, "No status received") when the body is
    /// absent — and ends the loop; the state transition to CLOSED happens
    /// with the registry removal (the close hook). No other frame changes
    /// this connection.
    pub fn ingest_frame(&mut self, frame: Frame) -> (step: IngestStep)
        ensures
            same_identity(*old(self), *final(self)),
            final(self).state == old(self).state,
            match frame {
                Frame::Text(t) => {
                    &&& step.action matches IngestAction::DispatchText(e) && e.data@ == t@
                    &&& !step.exit
                    &&& final(self).outbox@ == old(self).outbox@
                },
                Frame::Binary(b) => {
                    &&& step.action matches IngestAction::DispatchBinary(e) && e.data@ == b@
                    &&& !step.exit
                    &&& final(self).outbox@ == old(self).outbox@
                },
                Frame::Ping(p) => {
                    &&& step.action is PongSent
                    &&& !step.exit
                    &&& final(self).outbox@.len() == old(self).outbox@.len() + 1
                    &&& final(self).outbox@.subrange(
                        0,
                        old(self).outbox@.len() as int,
                    ) == old(self).outbox@
                    &&& final(self).outbox@.last() matches Frame::Pong(q) && q@ == p@
                },
                Frame::Pong(_) => {
                    &&& step.action is NoAction
                    &&& !step.exit
                    &&& final(self).outbox@ == old(self).outbox@
                },
                Frame::Close(body) => {
                    &&& step.action matches IngestAction::DispatchClose(e) && match body {
                        Some(cf) => e.code == cf.code && e.reason@ == cf.reason@,
                        None => e.code == 1005 && e.reason@ == "No status received"@,
                    }
                    &&& step.exit
                    &&& final(self).outbox@ == old(self).outbox@
                },
            },
    {
        match frame {
            Frame::Text(t) => IngestStep {
                action: IngestAction::DispatchText(TextMessageEvent::new(t)),
                exit: false,
            },
            Frame::Binary(b) => IngestStep {
                action: IngestAction::DispatchBinary(BinaryMessageEvent::new(b)),
                exit: false,
            },
            Frame::Ping(p) => {
                self.outbox.push(Frame::Pong(p));
                proof {
                    assert(final(self).outbox@.subrange(0, old(self).outbox@.len() as int)
                        =~= old(self).outbox@);
                }
                IngestStep { action: IngestAction::PongSent, exit: false }
            },
            Frame::Pong(_) => IngestStep { action: IngestAction::NoAction, exit: false },
            Frame::Close(body) => {
                let event = match body {
                    Some(cf) => CloseEvent::new(cf.code, cf.reason),
                    None => CloseEvent::new(1005, String::from_str("No status received")),
                };
                IngestStep { action: IngestAction::DispatchClose(event), exit: true }
            },
        }
    }
}

/// For every inbound ping, the pong reply precedes every frame the server
/// writes afterwards on that connection: the ingest step queues the pong at
/// once, and every later operation only appends to the outbox.
///
/// `out0` is the outbox before the ping arrived, `out1` just after the ingest
/// step, `out2` at any later time reached by appending.
pub proof fn lemma_pong_before_subsequent_frames(
    out0: Seq<Frame>,
    out1: Seq<Frame>,
    out2: Seq<Frame>,
    p: Seq<u8>,
)
    requires
        out1.len() == out0.len() + 1,
        out1.subrange(0, out0.len() as int) == out0,
        out1.last() matches Frame::Pong(q) && q@ == p,
        out2.len() >= out1.len(),
        out2.subrange(0, out1.len() as int) == out1,
    ensures
        out2[out0.len() as int] matches Frame::Pong(q) && q@ == p,
        out0.len() < out1.len() <= out2.len(),
{
    assert(out2[out0.len() as int] == out2.subrange(0, out1.len() as int)[out0.len() as int]);
    assert(out2[out0.len() as int] == out1.last());
}

/// Writer serialization: sends on one connection never interleave. Each send
/// appends one complete frame under the writer's exclusive access, so two
/// sends leave both frames whole, in call order, with nothing between them.
pub proof fn lemma_writer_serialization(out0: Seq<Frame>, f1: Frame, f2: Frame)
    ensures
        out0.push(f1).push(f2) == out0 + seq![f1, f2],
        out0.push(f1).push(f2)[out0.len() as int] == f1,
        out0.push(f1).push(f2)[out0.len() as int + 1] == f2,
{
    assert(out0.push(f1).push(f2) =~= out0 + seq![f1, f2]);
}

/// A text message event of the plain callback-per-connection API.
#[derive(Debug)]
pub struct WebSocketTextMessageEvent {
    /// The UTF-8 text content of the message.
    pub data: String,
}

/// A binary message event of the plain callback-per-connection API.
#[derive(Debug)]
pub struct WebSocketBinaryMessageEvent {
    /// The binary data as a vector of bytes.
    pub data: Vec<u8>,
}

/// Relies on `uuid::Uuid::new_v4` and its `Display` rendering: a freshly
/// generated version-4 UUID formatted in the hyphenated form — 36
/// characters, with hyphens at positions 8, 13, 18 and 23. The value is
/// random, so nothing is assumed beyond the shape.
#[verifier::external_body]
fn fresh_uuid_string() -> (r: String)
    ensures
        r@.len() == 36,
        r@[8] == '-',
        r@[13] == '-',
        r@[18] == '-',
        r@[23] == '-',
{
    uuid::Uuid::new_v4().to_string()
}

/// The connection type of the plain callback-per-connection API. The engine
/// state it carries is the connection's identity: a fresh UUID in hyphenated
/// form. Its callbacks and its writer half live in the shell.
#[derive(Clone, Debug)]
pub struct WebSocketConn {
    /// The connection's unique id: a version-4 UUID in hyphenated form.
    pub id: String,
}

impl WebSocketConn {
    /// Creates a connection identity with a freshly drawn UUID.
    pub fn new() -> (r: Self)
        ensures
            r.id@.len() == 36,
            r.id@[8] == '-',
            r.id@[13] == '-',
            r.id@[18] == '-',
            r.id@[23] == '-',
    {
        WebSocketConn { id: fresh_uuid_string() }
    }
}

} // verus!
