//! The task that accepts visitors on a session's public port and pairs each
//! with a data channel, as a step function.

use crate::protocol::Message;
use vstd::prelude::*;

verus! {

/// Seconds a visitor waits for the data channel that is to serve it.
pub const PAIRING_TIMEOUT_SECS: u64 = 10;

/// Where the task stands that accepts visitors on a session's public listener.
#[derive(Clone, Copy, Debug, PartialEq, Eq, Structural)]
pub enum AcceptorState {
    /// Waiting for the next visitor; none is held.
    Accepting,
    /// A visitor is held; the client is being asked for a data channel.
    Requesting,
    /// A visitor is held and the request is queued; the data channel is
    /// awaited.
    AwaitingDataChannel,
    /// The task has ended.
    Stopped,
}

/// What the outside world reports to the acceptor.
#[derive(Clone, Copy, Debug, PartialEq, Eq, Structural)]
pub enum AcceptorEvent {
    /// A visitor connected to the public port.
    VisitorAccepted,
    /// The listener failed.
    AcceptFailed,
    /// The request for a data channel is in the session's queue.
    RequestQueued,
    /// The session's queue is gone.
    RequestFailed,
    /// A data channel came out of the session's queue.
    DataChannelArrived,
    /// No data channel came within `PAIRING_TIMEOUT_SECS`.
    PairingTimedOut,
    /// The queue of data channels is closed.
    DataQueueClosed,
}

/// What the acceptor asks the outside world to do next. Each request but
/// `Stop` and `Done` is answered by one event.
#[derive(Clone, Copy, Debug, PartialEq, Eq, Structural)]
pub enum AcceptorAction {
    /// Accept the next visitor.
    Accept,
    /// Put `message` into the session's queue of messages for the client.
    Request { message: Message },
    /// Take the next data channel from the session's queue, waiting at most
    /// `timeout_secs`.
    AwaitDataChannel { timeout_secs: u64 },
    /// Start a byte pump between the visitor and the data channel that
    /// arrived, then accept the next visitor.
    PairThenAccept,
    /// Close the visitor unserved, then accept the next one.
    DropVisitorThenAccept,
    /// End the task; close the visitor that is held, if `drop_visitor`.
    Stop { drop_visitor: bool },
    /// Nothing is left to do.
    Done,
}

impl AcceptorState {
    /// Whether a visitor is held that has no data channel yet.
    pub open spec fn holds_visitor(self) -> bool {
        self is Requesting || self is AwaitingDataChannel
    }

    /// The step that `event` lets the acceptor take, where the acceptor
    /// runs and awaits such an event.
    pub open spec fn advance(self, event: AcceptorEvent) -> Option<(AcceptorState, AcceptorAction)> {
        match (self, event) {
            (AcceptorState::Accepting, AcceptorEvent::VisitorAccepted) => Some(
                (
                    AcceptorState::Requesting,
                    AcceptorAction::Request { message: Message::CreateDataChannel },
                ),
            ),
            (AcceptorState::Requesting, AcceptorEvent::RequestQueued) => Some(
                (
                    AcceptorState::AwaitingDataChannel,
                    AcceptorAction::AwaitDataChannel { timeout_secs: PAIRING_TIMEOUT_SECS },
                ),
            ),
            (AcceptorState::AwaitingDataChannel, AcceptorEvent::DataChannelArrived) => Some(
                (AcceptorState::Accepting, AcceptorAction::PairThenAccept),
            ),
            (AcceptorState::AwaitingDataChannel, AcceptorEvent::PairingTimedOut) => Some(
                (AcceptorState::Accepting, AcceptorAction::DropVisitorThenAccept),
            ),
            _ => None,
        }
    }

    /// The state after `event` and the request that goes with it. A running
    /// acceptor advances on the events it awaits; any other event stops it.
    /// A stopped acceptor stays stopped.
    pub open spec fn next(self, event: AcceptorEvent) -> (AcceptorState, AcceptorAction) {
        if self is Stopped {
            (AcceptorState::Stopped, AcceptorAction::Done)
        } else {
            match self.advance(event) {
                Some(step) => step,
                None => (
                    AcceptorState::Stopped,
                    AcceptorAction::Stop { drop_visitor: self.holds_visitor() },
                ),
            }
        }
    }

    /// An acceptor that waits for its first visitor.
    pub fn new() -> (r: Self)
        ensures
            r == AcceptorState::Accepting,
    {
        AcceptorState::Accepting
    }

    /// The request with which every acceptor starts: accept a visitor.
    pub fn first_request() -> (r: AcceptorAction)
        ensures
            r == AcceptorAction::Accept,
    {
        AcceptorAction::Accept
    }

    /// Takes `event` in and answers with what to do next.
    pub fn step(&mut self, event: AcceptorEvent) -> (action: AcceptorAction)
        ensures
            (*final(self), action) == old(self).next(event),
    {
        let state = *self;
        let (after, action) = match state {
            AcceptorState::Stopped => (AcceptorState::Stopped, AcceptorAction::Done),
            AcceptorState::Accepting => match event {
                AcceptorEvent::VisitorAccepted => (
                    AcceptorState::Requesting,
                    AcceptorAction::Request { message: Message::CreateDataChannel },
                ),
                _ => (AcceptorState::Stopped, AcceptorAction::Stop { drop_visitor: false }),
            },
            AcceptorState::Requesting => match event {
                AcceptorEvent::RequestQueued => (
                    AcceptorState::AwaitingDataChannel,
                    AcceptorAction::AwaitDataChannel { timeout_secs: PAIRING_TIMEOUT_SECS },
                ),
                _ => (AcceptorState::Stopped, AcceptorAction::Stop { drop_visitor: true }),
            },
            AcceptorState::AwaitingDataChannel => match event {
                AcceptorEvent::DataChannelArrived => (
                    AcceptorState::Accepting,
                    AcceptorAction::PairThenAccept,
                ),
                AcceptorEvent::PairingTimedOut => (
                    AcceptorState::Accepting,
                    AcceptorAction::DropVisitorThenAccept,
                ),
                _ => (AcceptorState::Stopped, AcceptorAction::Stop { drop_visitor: true }),
            },
        };
        *self = after;
        action
    }
}

/// The state that an acceptor reaches from its start through `events`.
pub open spec fn run(events: Seq<AcceptorEvent>) -> AcceptorState
    decreases events.len(),
{
    if events.len() == 0 {
        AcceptorState::Accepting
    } else {
        run(events.drop_last()).next(events.last()).0
    }
}

/// The request that is open after `events`; before the first event the
/// acceptor is accepting.
pub open spec fn pending(events: Seq<AcceptorEvent>) -> AcceptorAction {
    if events.len() == 0 {
        AcceptorAction::Accept
    } else {
        run(events.drop_last()).next(events.last()).1
    }
}

/// Whether `event` is a report that the outside world may give while
/// `request` is open.
pub open spec fn answers(request: AcceptorAction, event: AcceptorEvent) -> bool {
    match request {
        AcceptorAction::Accept
        | AcceptorAction::PairThenAccept
        | AcceptorAction::DropVisitorThenAccept => event is VisitorAccepted
            || event is AcceptFailed,
        AcceptorAction::Request { .. } => event is RequestQueued || event is RequestFailed,
        AcceptorAction::AwaitDataChannel { .. } => event is DataChannelArrived
            || event is PairingTimedOut || event is DataQueueClosed,
        AcceptorAction::Stop { .. } => false,
        AcceptorAction::Done => false,
    }
}

/// Whether every event of the sequence answers the request that was open
/// when it came.
pub open spec fn faithful(events: Seq<AcceptorEvent>) -> bool
    decreases events.len(),
{
    events.len() == 0 || (faithful(events.drop_last()) && answers(
        pending(events.drop_last()),
        events.last(),
    ))
}

/// How many visitors connected during `events`.
pub open spec fn accepted(events: Seq<AcceptorEvent>) -> nat
    decreases events.len(),
{
    if events.len() == 0 {
        0
    } else {
        accepted(events.drop_last()) + if events.last() is VisitorAccepted {
            1nat
        } else {
            0nat
        }
    }
}

/// How many data channels came out of the queue during `events`.
pub open spec fn arrived(events: Seq<AcceptorEvent>) -> nat
    decreases events.len(),
{
    if events.len() == 0 {
        0
    } else {
        arrived(events.drop_last()) + if events.last() is DataChannelArrived {
            1nat
        } else {
            0nat
        }
    }
}

/// How many byte pumps the acceptor asked for during `events`.
pub open spec fn paired(events: Seq<AcceptorEvent>) -> nat
    decreases events.len(),
{
    if events.len() == 0 {
        0
    } else {
        paired(events.drop_last()) + if pending(events) is PairThenAccept {
            1nat
        } else {
            0nat
        }
    }
}

/// How many visitors the acceptor asked to close unserved during `events`.
pub open spec fn dropped(events: Seq<AcceptorEvent>) -> nat
    decreases events.len(),
{
    if events.len() == 0 {
        0
    } else {
        dropped(events.drop_last()) + if pending(events) is DropVisitorThenAccept || pending(events)
            == (AcceptorAction::Stop { drop_visitor: true }) {
            1nat
        } else {
            0nat
        }
    }
}

/// The open request tells the state.
pub proof fn lemma_pending_fits_state(events: Seq<AcceptorEvent>)
    requires
        faithful(events),
    ensures
        match pending(events) {
            AcceptorAction::Accept
            | AcceptorAction::PairThenAccept
            | AcceptorAction::DropVisitorThenAccept => run(events) is Accepting,
            AcceptorAction::Request { .. } => run(events) is Requesting,
            AcceptorAction::AwaitDataChannel { .. } => run(events) is AwaitingDataChannel,
            AcceptorAction::Stop { .. } => run(events) is Stopped,
            AcceptorAction::Done => run(events) is Stopped,
        },
    decreases events.len(),
{
    if events.len() > 0 {
        lemma_pending_fits_state(events.drop_last());
    }
}

/// Every visitor is accounted for: it was paired, or it was closed unserved,
/// or it is the one visitor that is held. Every data channel that came out
/// of the queue went to exactly one visitor.
pub proof fn lemma_visitors_accounted_for(events: Seq<AcceptorEvent>)
    requires
        faithful(events),
    ensures
        accepted(events) == paired(events) + dropped(events) + if run(events).holds_visitor() {
            1nat
        } else {
            0nat
        },
        paired(events) == arrived(events),
    decreases events.len(),
{
    if events.len() > 0 {
        lemma_visitors_accounted_for(events.drop_last());
        lemma_pending_fits_state(events.drop_last());
    }
}

/// A visitor whose data channel does not come in time is closed, and the
/// acceptor goes on accepting.
pub proof fn lemma_pairing_timeout_keeps_accepting(state: AcceptorState)
    requires
        state is AwaitingDataChannel,
    ensures
        state.next(AcceptorEvent::PairingTimedOut) == (
            AcceptorState::Accepting,
            AcceptorAction::DropVisitorThenAccept,
        ),
{
}

} // verus!
