//! What holds of every run of a connection: replies leave in the order in
//! which their requests came, and each round trip ends as the protocol says.

use crate::ingress::connection::{
    accepted, closed, next, owed_for, resolved_text, Action, Event, Model, Pending, Phase,
};
use crate::ingress::frames::{fallback_text, not_found_text, ok_text};
use crate::ingress::protocol::{spec_dispatch, Backend, ChannelType, MessageKind};
use vstd::prelude::*;

verus! {

/// What a control channel has taken in and written out since it began to
/// serve.
pub struct Transcript {
    /// The kinds of the messages received, in arrival order.
    pub messages: Seq<MessageKind>,
    /// What the awaited reply slots resolved to, in the order in which they
    /// resolved.
    pub answers: Seq<Option<Seq<u8>>>,
    /// The frames handed out for writing, in order.
    pub frames: Seq<Seq<u8>>,
}

/// The transcript of a channel that has seen nothing yet.
pub open spec fn blank() -> Transcript {
    Transcript { messages: Seq::empty(), answers: Seq::empty(), frames: Seq::empty() }
}

/// The state of a control channel that begins to serve.
pub open spec fn serving() -> Model {
    Model { phase: Phase::WorkerIdle, pending: Seq::empty() }
}

/// The transcript after one more event and the action that answered it.
pub open spec fn record(
    t: Transcript,
    e: Event<Seq<u8>>,
    a: Action<Seq<u8>, Seq<u8>>,
) -> Transcript {
    Transcript {
        messages: match e {
            Event::Message(kind) => t.messages.push(kind),
            _ => t.messages,
        },
        answers: match e {
            Event::Reply(answer) => t.answers.push(answer),
            _ => t.answers,
        },
        frames: match a {
            Action::Send(frame) => t.frames.push(frame),
            _ => t.frames,
        },
    }
}

/// The number of messages among the first `i` whose reply is awaited.
pub open spec fn awaited_before(messages: Seq<MessageKind>, i: int) -> nat
    decreases i,
{
    if i <= 0 {
        0
    } else {
        awaited_before(messages, i - 1) + if spec_dispatch(messages[i - 1]).await_reply {
            1nat
        } else {
            0nat
        }
    }
}

/// The frame that the dispatch table asks for in answer to message `i`: what
/// its own reply slot resolved to where the reply is awaited, and the text
/// `OK` where it is not.
pub open spec fn due_frame(t: Transcript, i: int) -> Seq<u8> {
    let row = spec_dispatch(t.messages[i]);
    if row.await_reply {
        resolved_text(t.answers[awaited_before(t.messages, i) as int], row.fallback)
    } else {
        fallback_text(row.fallback)
    }
}

/// The state and the transcript agree: every frame written so far answers the
/// message of its own index, and the replies still owed are those of the
/// messages that follow, in order.
pub open spec fn in_order(s: Model, t: Transcript) -> bool {
    let written = t.frames.len() as int;
    &&& match s.phase {
        Phase::WorkerIdle => written + s.pending.len() == t.messages.len() && (s.pending.len() == 0
            || s.pending[0].awaited),
        Phase::WorkerWriting => written + s.pending.len() == t.messages.len(),
        Phase::WorkerForwarding(kind) => written + s.pending.len() + 1 == t.messages.len()
            && t.messages.last() == kind,
        _ => false,
    }
    &&& forall|j: int|
        0 <= j < s.pending.len() ==> #[trigger] s.pending[j] == owed_for(t.messages[written + j])
    &&& t.answers.len() == awaited_before(t.messages, written)
    &&& forall|i: int| 0 <= i < written ==> #[trigger] t.frames[i] == due_frame(t, i)
}

/// The state and the transcript after a run of events.
pub open spec fn run(s: Model, t: Transcript, events: Seq<Event<Seq<u8>>>) -> (Model, Transcript)
    decreases events.len(),
{
    if events.len() == 0 {
        (s, t)
    } else {
        let (after, action) = next(s, events[0]);
        run(after, record(t, events[0], action), events.drop_first())
    }
}

/// No event of the run closes the connection.
pub open spec fn stays_open(s: Model, events: Seq<Event<Seq<u8>>>) -> bool
    decreases events.len(),
{
    events.len() == 0 || (next(s, events[0]).1 != Action::<Seq<u8>, Seq<u8>>::Close && stays_open(
        next(s, events[0]).0,
        events.drop_first(),
    ))
}

/// The count of awaited messages depends only on the messages counted.
pub proof fn lemma_awaited_before_prefix(a: Seq<MessageKind>, b: Seq<MessageKind>, i: int)
    requires
        i <= a.len(),
        i <= b.len(),
        forall|j: int| 0 <= j < i ==> a[j] == b[j],
    ensures
        awaited_before(a, i) == awaited_before(b, i),
    decreases i,
{
    if i > 0 {
        lemma_awaited_before_prefix(a, b, i - 1);
    }
}

/// The count of awaited messages grows with the number of messages counted.
pub proof fn lemma_awaited_before_grows(messages: Seq<MessageKind>, i: int, j: int)
    requires
        i <= j,
    ensures
        awaited_before(messages, i) <= awaited_before(messages, j),
    decreases j - i,
{
    if i < j {
        lemma_awaited_before_grows(messages, i, j - 1);
    }
}

/// Every event that leaves a control channel open keeps its replies in
/// order.
pub proof fn law_step_keeps_order(s: Model, t: Transcript, e: Event<Seq<u8>>)
    requires
        in_order(s, t),
        next(s, e).1 != Action::<Seq<u8>, Seq<u8>>::Close,
    ensures
        in_order(next(s, e).0, record(t, e, next(s, e).1)),
{
    let (after, action) = next(s, e);
    let grown = record(t, e, action);
    let written = t.frames.len() as int;
    let written_after = grown.frames.len() as int;
    assert forall|i: int| 0 <= i <= t.messages.len() implies awaited_before(grown.messages, i)
        == awaited_before(t.messages, i) by {
        lemma_awaited_before_prefix(grown.messages, t.messages, i);
    }
    assert forall|i: int| 0 <= i < written implies #[trigger] grown.frames[i] == due_frame(grown, i) by {
        assert(t.frames[i] == due_frame(t, i));
        lemma_awaited_before_grows(t.messages, i + 1, written);
    }
    if written_after > written {
        // One frame was handed out: the one owed for the message of its index.
        let i = written;
        assert(awaited_before(t.messages, i + 1) == awaited_before(t.messages, i) + if spec_dispatch(
            t.messages[i],
        ).await_reply {
            1nat
        } else {
            0nat
        });
        match s.phase {
            Phase::WorkerForwarding(kind) => {
                let queue = s.pending.push(owed_for(kind));
                assert(queue[0] == owed_for(t.messages[written]));
            },
            _ => {
                assert(s.pending[0] == owed_for(t.messages[written + 0]));
            },
        }
        assert(grown.frames[i] == due_frame(grown, i));
    }
    assert forall|j: int| 0 <= j < after.pending.len() implies #[trigger] after.pending[j] == owed_for(
        grown.messages[written_after + j],
    ) by {
        match s.phase {
            Phase::WorkerForwarding(kind) => {
                let queue = s.pending.push(owed_for(kind));
                let k = if written_after > written { j + 1 } else { j };
                assert(after.pending[j] == queue[k]);
                if k < s.pending.len() {
                    assert(s.pending[k] == owed_for(t.messages[written + k]));
                }
            },
            _ => {
                let k = if written_after > written { j + 1 } else { j };
                assert(s.pending[k] == owed_for(t.messages[written + k]));
            },
        }
    }
}

/// Every run that leaves a control channel open keeps its replies in order.
pub proof fn lemma_run_keeps_order(s: Model, t: Transcript, events: Seq<Event<Seq<u8>>>)
    requires
        in_order(s, t),
        stays_open(s, events),
    ensures
        in_order(run(s, t, events).0, run(s, t, events).1),
    decreases events.len(),
{
    if events.len() > 0 {
        let (after, action) = next(s, events[0]);
        law_step_keeps_order(s, t, events[0]);
        lemma_run_keeps_order(after, record(t, events[0], action), events.drop_first());
    }
}

/// Reply ordering. Take any run of events on a control channel that does not
/// end the connection. Then the frames written are, index by index, the
/// replies that the dispatch table asks for in answer to the messages
/// received: frame `i` answers message `i`. No frame is written for a message
/// that has not come. Once the channel is idle and every awaited reply slot
/// has resolved, there are exactly as many frames as messages.
pub proof fn law_replies_follow_requests(events: Seq<Event<Seq<u8>>>)
    requires
        stays_open(serving(), events),
    ensures
        ({
            let (s, t) = run(serving(), blank(), events);
            &&& t.frames.len() <= t.messages.len()
            &&& forall|i: int| 0 <= i < t.frames.len() ==> #[trigger] t.frames[i] == due_frame(t, i)
            &&& s.phase == Phase::WorkerIdle && t.answers.len() == awaited_before(
                t.messages,
                t.messages.len() as int,
            ) ==> t.frames.len() == t.messages.len()
        }),
{
    assert(in_order(serving(), blank()));
    lemma_run_keeps_order(serving(), blank(), events);
    let (s, t) = run(serving(), blank(), events);
    let written = t.frames.len() as int;
    if s.phase == Phase::WorkerIdle && s.pending.len() > 0 {
        assert(s.pending[0] == owed_for(t.messages[written + 0]));
        lemma_awaited_before_grows(t.messages, written + 1, t.messages.len() as int);
    }
}

/// A closed connection stays closed, whatever comes.
pub proof fn law_closed_stays_closed(s: Model, e: Event<Seq<u8>>)
    requires
        s.phase == Phase::Closed,
    ensures
        next(s, e) == closed(),
{
}

/// Banner round trip: whatever channel the banner names, the text `OK` is
/// written next, and once it is written the connection serves that channel.
pub proof fn law_banner_round_trip(channel: ChannelType)
    ensures
        next(accepted(), Event::Banner(channel)).1 == Action::<Seq<u8>, Seq<u8>>::Send(ok_text()),
        next(next(accepted(), Event::Banner(channel)).0, Event::Written) == (
            Model {
                phase: match channel {
                    ChannelType::Worker => Phase::WorkerIdle,
                    ChannelType::Transaction => Phase::TransactionIdle,
                },
                pending: Seq::empty(),
            },
            Action::<Seq<u8>, Seq<u8>>::Receive,
        ),
{
}

/// Transaction round trip: a payload that arrives on the transaction channel
/// is handed on unchanged, then `OK` is written, then the channel waits for
/// the next payload.
pub proof fn law_transaction_round_trip(s: Model, payload: Seq<u8>)
    requires
        s.phase == Phase::TransactionIdle,
    ensures
        ({
            let (forwarding, forward) = next(s, Event::Transaction(payload));
            let (writing, write) = next(forwarding, Event::Forwarded);
            let (idle, wait) = next(writing, Event::Written);
            &&& forward == Action::<Seq<u8>, Seq<u8>>::ForwardTransaction(payload)
            &&& write == Action::<Seq<u8>, Seq<u8>>::Send(ok_text())
            &&& wait == Action::<Seq<u8>, Seq<u8>>::Receive
            &&& idle == s
        }),
{
}

/// Query round trip: a query that arrives on an idle control channel with no
/// reply owed goes to the worker backend with a reply slot. When the slot
/// resolves with an answer, the answer is the frame written; when it was
/// dropped unfilled, the text `NOTFOUND` is.
pub proof fn law_query_round_trip(answer: Option<Seq<u8>>)
    ensures
        ({
            let (forwarding, forward) = next(serving(), Event::Message(MessageKind::Query));
            let (waiting, wait) = next(forwarding, Event::Forwarded);
            let (writing, write) = next(waiting, Event::Reply(answer));
            &&& forward == Action::<Seq<u8>, Seq<u8>>::Forward {
                target: Backend::Worker,
                await_reply: true,
            }
            &&& wait == Action::<Seq<u8>, Seq<u8>>::ReceiveOrAwaitReply
            &&& write == Action::<Seq<u8>, Seq<u8>>::Send(
                match answer {
                    Some(payload) => payload,
                    None => not_found_text(),
                },
            )
            &&& writing == Model { phase: Phase::WorkerWriting, pending: Seq::empty() }
        }),
{
    let queue = Seq::<Pending>::empty().push(owed_for(MessageKind::Query));
    assert(queue[0] == owed_for(MessageKind::Query));
    assert(queue.drop_first() =~= Seq::empty());
}

} // verus!
