//! The message taxonomy at the protocol boundary and the dispatch table.

use vstd::prelude::*;

verus! {

/// What a connection carries, as named by its banner.
#[derive(Clone, Copy, Debug, PartialEq, Eq, Structural)]
pub enum ChannelType {
    /// Control traffic between workers.
    Worker,
    /// Raw client transactions.
    Transaction,
}

/// The tag of a control message. The payloads are opaque to the ingress.
#[derive(Clone, Copy, Debug, PartialEq, Eq, Structural)]
pub enum MessageKind {
    /// Asks the backend for data and waits for its answer.
    Query,
    /// Asks the backend to fetch missing data.
    Synchronize,
    /// Any other message, such as a batch: handed over and acknowledged.
    Other,
}

/// A backend channel that takes commands.
#[derive(Clone, Copy, Debug, PartialEq, Eq, Structural)]
pub enum Backend {
    /// Takes queries and every message that is not a synchronize request.
    Worker,
    /// Takes synchronize requests.
    Synchronize,
}

/// A reply that the ingress writes by itself.
#[derive(Clone, Copy, Debug, PartialEq, Eq, Structural)]
pub enum Fallback {
    /// The text `OK`.
    Acknowledged,
    /// The text `NOTFOUND`.
    NotFound,
}

/// One row of the dispatch table.
#[derive(Clone, Copy, Debug, PartialEq, Eq, Structural)]
pub struct Dispatch {
    /// Whether the reply frame waits for the backend's answer.
    pub await_reply: bool,
    /// What is written when no answer is awaited, or none comes.
    pub fallback: Fallback,
    /// The backend channel that takes the command.
    pub target: Backend,
}

/// The dispatch table.
pub open spec fn spec_dispatch(kind: MessageKind) -> Dispatch {
    match kind {
        MessageKind::Query => Dispatch {
            await_reply: true,
            fallback: Fallback::NotFound,
            target: Backend::Worker,
        },
        MessageKind::Synchronize => Dispatch {
            await_reply: false,
            fallback: Fallback::Acknowledged,
            target: Backend::Synchronize,
        },
        MessageKind::Other => Dispatch {
            await_reply: false,
            fallback: Fallback::Acknowledged,
            target: Backend::Worker,
        },
    }
}

/// Looks a message kind up in the dispatch table.
pub fn dispatch(kind: MessageKind) -> (row: Dispatch)
    ensures
        row == spec_dispatch(kind),
{
    match kind {
        MessageKind::Query => Dispatch {
            await_reply: true,
            fallback: Fallback::NotFound,
            target: Backend::Worker,
        },
        MessageKind::Synchronize => Dispatch {
            await_reply: false,
            fallback: Fallback::Acknowledged,
            target: Backend::Synchronize,
        },
        MessageKind::Other => Dispatch {
            await_reply: false,
            fallback: Fallback::Acknowledged,
            target: Backend::Worker,
        },
    }
}

} // verus!
