//! One connection of the ingress server as a state machine. The caller owns
//! the socket and the backend channels: it performs each action that `step`
//! returns and comes back with the event that followed.

use crate::ingress::frames::{fallback_frame, fallback_text, frame_bytes, frame_from, ok_text};
use crate::ingress::protocol::{
    dispatch, spec_dispatch, Backend, ChannelType, Fallback, MessageKind,
};
use bytes::Bytes;
use std::collections::VecDeque;
use vstd::prelude::*;

verus! {

/// What happened on the connection since the last action. `P` is a payload:
/// `Vec<u8>` in the executable, `Seq<u8>` in specifications.
#[derive(Debug, PartialEq, Eq)]
pub enum Event<P> {
    /// The first frame arrived and named a channel.
    Banner(ChannelType),
    /// A control frame arrived and carried a message of this kind.
    Message(MessageKind),
    /// A frame arrived on the transaction channel.
    Transaction(P),
    /// A frame arrived that does not decode as what was expected.
    Malformed,
    /// The peer closed the stream, or the frame decoder failed.
    StreamEnded,
    /// The backend channel took what was forwarded.
    Forwarded,
    /// The backend channel is closed.
    BackendClosed,
    /// The oldest awaited reply slot resolved: with the backend's serialized
    /// answer, or with nothing when the slot was dropped unfilled.
    Reply(Option<P>),
    /// The frame was written.
    Written,
    /// The frame could not be written.
    WriteFailed,
}

/// What the caller does next. `P` is a payload and `F` a frame: `Vec<u8>` and
/// `Bytes` in the executable, `Seq<u8>` both in specifications.
#[derive(Debug, PartialEq, Eq)]
pub enum Action<P, F> {
    /// Wait for the next inbound frame.
    Receive,
    /// Wait for the next inbound frame or for the oldest awaited reply slot,
    /// whichever comes first.
    ReceiveOrAwaitReply,
    /// Hand the command of the message just received to a backend channel,
    /// keeping its reply slot when the reply is awaited.
    Forward { target: Backend, await_reply: bool },
    /// Hand the payload, with the peer's address, to the transaction channel.
    ForwardTransaction(P),
    /// Write the frame to the peer.
    Send(F),
    /// Drop the connection.
    Close,
}

impl View for Event<Vec<u8>> {
    type V = Event<Seq<u8>>;

    open spec fn view(&self) -> Event<Seq<u8>> {
        match *self {
            Event::Banner(channel) => Event::Banner(channel),
            Event::Message(kind) => Event::Message(kind),
            Event::Transaction(payload) => Event::Transaction(payload@),
            Event::Malformed => Event::Malformed,
            Event::StreamEnded => Event::StreamEnded,
            Event::Forwarded => Event::Forwarded,
            Event::BackendClosed => Event::BackendClosed,
            Event::Reply(Some(answer)) => Event::Reply(Some(answer@)),
            Event::Reply(None) => Event::Reply(None),
            Event::Written => Event::Written,
            Event::WriteFailed => Event::WriteFailed,
        }
    }
}

impl View for Action<Vec<u8>, Bytes> {
    type V = Action<Seq<u8>, Seq<u8>>;

    open spec fn view(&self) -> Action<Seq<u8>, Seq<u8>> {
        match *self {
            Action::Receive => Action::Receive,
            Action::ReceiveOrAwaitReply => Action::ReceiveOrAwaitReply,
            Action::Forward { target, await_reply } => Action::Forward { target, await_reply },
            Action::ForwardTransaction(payload) => Action::ForwardTransaction(payload@),
            Action::Send(frame) => Action::Send(frame_bytes(frame)),
            Action::Close => Action::Close,
        }
    }
}

/// Where a connection stands.
#[derive(Clone, Copy, Debug, PartialEq, Eq, Structural)]
pub enum Phase {
    /// Accepted; the banner has not arrived.
    Accepted,
    /// Classified by its banner, whose acknowledgement is being written.
    Classified(ChannelType),
    /// Serving control traffic, between two steps.
    WorkerIdle,
    /// Serving control traffic; a command is on its way to a backend channel.
    WorkerForwarding(MessageKind),
    /// Serving control traffic; a reply frame is being written.
    WorkerWriting,
    /// Serving transactions, waiting for the next one.
    TransactionIdle,
    /// Serving transactions; a payload is on its way to the transaction channel.
    TransactionForwarding,
    /// Serving transactions; an acknowledgement is being written.
    TransactionWriting,
    /// Closed for good.
    Closed,
}

/// What an inbound frame carries.
#[derive(Clone, Copy, Debug, PartialEq, Eq, Structural)]
pub enum FrameKind {
    /// The serialized channel type that opens a connection.
    Banner,
    /// A serialized control message.
    Message,
    /// The raw bytes of a transaction.
    Transaction,
}

/// What the next inbound frame is read as in a phase: the first frame of a
/// connection is its banner, and every later one belongs to the channel that
/// the banner named. In a phase that waits for something else, no frame is
/// read.
pub open spec fn spec_inbound(phase: Phase) -> Option<FrameKind> {
    match phase {
        Phase::Accepted => Some(FrameKind::Banner),
        Phase::WorkerIdle => Some(FrameKind::Message),
        Phase::TransactionIdle => Some(FrameKind::Transaction),
        _ => None,
    }
}

/// A reply that is owed to the peer.
#[derive(Clone, Copy, Debug, PartialEq, Eq, Structural)]
pub struct Pending {
    /// Whether the frame waits for the backend's answer.
    pub awaited: bool,
    /// What is written when no answer is awaited, or none comes.
    pub fallback: Fallback,
}

/// The reply owed for a message of the given kind.
pub open spec fn owed_for(kind: MessageKind) -> Pending {
    Pending { awaited: spec_dispatch(kind).await_reply, fallback: spec_dispatch(kind).fallback }
}

/// The mathematical state of a connection.
pub struct Model {
    pub phase: Phase,
    /// The replies owed on a control channel, oldest first.
    pub pending: Seq<Pending>,
}

/// The state of a connection that was just accepted.
pub open spec fn accepted() -> Model {
    Model { phase: Phase::Accepted, pending: Seq::empty() }
}

/// A closed connection, and the action that closes it.
pub open spec fn closed() -> (Model, Action<Seq<u8>, Seq<u8>>) {
    (Model { phase: Phase::Closed, pending: Seq::empty() }, Action::Close)
}

/// How a control channel goes on once nothing is in flight: it writes the
/// oldest owed reply if that one needs no answer, and otherwise waits, for a
/// frame or for the answer that the oldest reply needs. A reply that needs an
/// answer holds back every reply behind it.
pub open spec fn resume(pending: Seq<Pending>) -> (Model, Action<Seq<u8>, Seq<u8>>) {
    if pending.len() == 0 {
        (Model { phase: Phase::WorkerIdle, pending }, Action::Receive)
    } else if pending[0].awaited {
        (Model { phase: Phase::WorkerIdle, pending }, Action::ReceiveOrAwaitReply)
    } else {
        (
            Model { phase: Phase::WorkerWriting, pending: pending.drop_first() },
            Action::Send(fallback_text(pending[0].fallback)),
        )
    }
}

/// The frame that answers an awaited reply once its slot has resolved.
pub open spec fn resolved_text(answer: Option<Seq<u8>>, fallback: Fallback) -> Seq<u8> {
    match answer {
        Some(payload) => payload,
        None => fallback_text(fallback),
    }
}

/// The transition function: the state and the action that follow an event.
/// An event that the phase does not expect closes the connection.
pub open spec fn next(s: Model, e: Event<Seq<u8>>) -> (Model, Action<Seq<u8>, Seq<u8>>) {
    match (s.phase, e) {
        (Phase::Accepted, Event::Banner(channel)) => (
            Model { phase: Phase::Classified(channel), pending: s.pending },
            Action::Send(ok_text()),
        ),
        (Phase::Classified(ChannelType::Worker), Event::Written) => resume(s.pending),
        (Phase::Classified(ChannelType::Transaction), Event::Written) => (
            Model { phase: Phase::TransactionIdle, pending: s.pending },
            Action::Receive,
        ),
        (Phase::WorkerIdle, Event::Message(kind)) => (
            Model { phase: Phase::WorkerForwarding(kind), pending: s.pending },
            Action::Forward {
                target: spec_dispatch(kind).target,
                await_reply: spec_dispatch(kind).await_reply,
            },
        ),
        (Phase::WorkerIdle, Event::Reply(answer)) => if s.pending.len() > 0
            && s.pending[0].awaited {
            (
                Model { phase: Phase::WorkerWriting, pending: s.pending.drop_first() },
                Action::Send(resolved_text(answer, s.pending[0].fallback)),
            )
        } else {
            closed()
        },
        (Phase::WorkerForwarding(kind), Event::Forwarded) => resume(s.pending.push(owed_for(kind))),
        (Phase::WorkerWriting, Event::Written) => resume(s.pending),
        (Phase::TransactionIdle, Event::Transaction(payload)) => (
            Model { phase: Phase::TransactionForwarding, pending: s.pending },
            Action::ForwardTransaction(payload),
        ),
        (Phase::TransactionForwarding, Event::Forwarded) => (
            Model { phase: Phase::TransactionWriting, pending: s.pending },
            Action::Send(ok_text()),
        ),
        (Phase::TransactionWriting, Event::Written) => (
            Model { phase: Phase::TransactionIdle, pending: s.pending },
            Action::Receive,
        ),
        _ => closed(),
    }
}

/// One connection of the ingress server.
pub struct Connection {
    phase: Phase,
    pending: VecDeque<Pending>,
}

impl View for Connection {
    type V = Model;

    closed spec fn view(&self) -> Model {
        Model { phase: self.phase, pending: self.pending@ }
    }
}

impl Connection {
    /// The state of a connection that was just accepted. The caller's first
    /// action is to wait for the banner frame.
    pub fn new() -> (connection: Connection)
        ensures
            connection@ == accepted(),
    {
        Connection { phase: Phase::Accepted, pending: VecDeque::new() }
    }

    /// Where the connection stands.
    pub fn phase(&self) -> (phase: Phase)
        ensures
            phase == self@.phase,
    {
        self.phase
    }

    /// What the next inbound frame is read as, if one is read in this phase.
    pub fn inbound(&self) -> (kind: Option<FrameKind>)
        ensures
            kind == spec_inbound(self@.phase),
    {
        match self.phase {
            Phase::Accepted => Some(FrameKind::Banner),
            Phase::WorkerIdle => Some(FrameKind::Message),
            Phase::TransactionIdle => Some(FrameKind::Transaction),
            _ => None,
        }
    }

    /// The number of replies owed to the peer.
    pub fn owed(&self) -> (count: usize)
        ensures
            count == self@.pending.len(),
    {
        self.pending.len()
    }

    /// Closes the connection.
    fn close(&mut self) -> (action: Action<Vec<u8>, Bytes>)
        ensures
            (final(self)@, action@) == closed(),
    {
        self.phase = Phase::Closed;
        self.pending = VecDeque::new();
        Action::Close
    }

    /// Goes on with a control channel once nothing is in flight.
    fn resume(&mut self) -> (action: Action<Vec<u8>, Bytes>)
        ensures
            (final(self)@, action@) == resume(old(self)@.pending),
    {
        if self.pending.len() == 0 {
            self.phase = Phase::WorkerIdle;
            Action::Receive
        } else if self.pending[0].awaited {
            self.phase = Phase::WorkerIdle;
            Action::ReceiveOrAwaitReply
        } else {
            let head = self.pending.pop_front();
            self.phase = Phase::WorkerWriting;
            Action::Send(fallback_frame(head.unwrap().fallback))
        }
    }

    /// Takes the event that followed the last action and returns the next
    /// action. Every decision of the connection is made here: what a banner
    /// leads to, which backend channel takes a message, whether its reply is
    /// awaited, which reply frame leaves next, and when the connection ends.
    pub fn step(&mut self, event: Event<Vec<u8>>) -> (action: Action<Vec<u8>, Bytes>)
        ensures
            (final(self)@, action@) == next(old(self)@, event@),
    {
        match (self.phase, event) {
            (Phase::Accepted, Event::Banner(channel)) => {
                self.phase = Phase::Classified(channel);
                Action::Send(fallback_frame(Fallback::Acknowledged))
            },
            (Phase::Classified(ChannelType::Worker), Event::Written) => self.resume(),
            (Phase::Classified(ChannelType::Transaction), Event::Written) => {
                self.phase = Phase::TransactionIdle;
                Action::Receive
            },
            (Phase::WorkerIdle, Event::Message(kind)) => {
                let row = dispatch(kind);
                self.phase = Phase::WorkerForwarding(kind);
                Action::Forward { target: row.target, await_reply: row.await_reply }
            },
            (Phase::WorkerIdle, Event::Reply(answer)) => {
                if self.pending.len() > 0 && self.pending[0].awaited {
                    let head = self.pending.pop_front().unwrap();
                    self.phase = Phase::WorkerWriting;
                    match answer {
                        Some(payload) => Action::Send(frame_from(payload)),
                        None => Action::Send(fallback_frame(head.fallback)),
                    }
                } else {
                    self.close()
                }
            },
            (Phase::WorkerForwarding(kind), Event::Forwarded) => {
                let row = dispatch(kind);
                self.pending.push_back(Pending { awaited: row.await_reply, fallback: row.fallback });
                self.resume()
            },
            (Phase::WorkerWriting, Event::Written) => self.resume(),
            (Phase::TransactionIdle, Event::Transaction(payload)) => {
                self.phase = Phase::TransactionForwarding;
                Action::ForwardTransaction(payload)
            },
            (Phase::TransactionForwarding, Event::Forwarded) => {
                self.phase = Phase::TransactionWriting;
                Action::Send(fallback_frame(Fallback::Acknowledged))
            },
            (Phase::TransactionWriting, Event::Written) => {
                self.phase = Phase::TransactionIdle;
                Action::Receive
            },
            _ => self.close(),
        }
    }
}

} // verus!
