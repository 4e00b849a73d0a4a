//! The server's side of one connection, from its first frame to its end, as
//! a step function, and what holds of every run of it.

use crate::protocol::Message;
use vstd::multiset::Multiset;
use vstd::prelude::*;

verus! {

/// Seconds a new connection has to send its first frame.
pub const FIRST_FRAME_TIMEOUT_SECS: u64 = 10;

/// Seconds between two heartbeats that an established session sends.
pub const HEARTBEAT_INTERVAL_SECS: u64 = 20;

/// The three stages in the life of a control channel.
#[derive(Clone, Copy, Debug, PartialEq, Eq, Structural)]
pub enum SessionPhase {
    /// The tunnel is being set up.
    AwaitingFirstFrame,
    /// The tunnel is up: the public listener is bound and the client has its port.
    Established,
    /// The end: nothing is held any more.
    Closed,
}

/// Where a connection to the server stands.
#[derive(Clone, Copy, Debug, PartialEq, Eq, Structural)]
pub enum SessionState {
    /// Nothing has been read yet.
    AwaitingFirstFrame,
    /// The first frame asked for a tunnel; a public port is being allocated.
    AwaitingPort,
    /// A port is held; the public listener is being bound to it.
    AwaitingListener { port: u16 },
    /// The listener is bound; the answer to the client is being written.
    AwaitingResponseSent { port: u16 },
    /// The client has its answer; the session is being entered in the
    /// server's table and its acceptor started.
    Installing { port: u16 },
    /// The control loop runs.
    Established { port: u16 },
    /// The connection is done with.
    Closed,
}

/// What the outside world reports to a session.
#[derive(Clone, Copy, Debug, PartialEq, Eq, Structural)]
pub enum SessionEvent {
    /// A frame arrived on the connection.
    FrameReceived(Message),
    /// No first frame arrived within `FIRST_FRAME_TIMEOUT_SECS`.
    FirstFrameTimedOut,
    /// Reading failed: an I/O error, the end of the stream, or a frame that
    /// could not be decoded.
    ReadFailed,
    /// The allocator handed out this port.
    PortAllocated(u16),
    /// The allocator has no port left.
    AllocationFailed,
    /// The public listener is bound.
    ListenerBound,
    /// The public listener could not be bound.
    BindFailed,
    /// The message of the last `Send` is written.
    Sent,
    /// The message of the last `Send` could not be written.
    SendFailed,
    /// The session is in the server's table and its acceptor runs.
    Installed,
    /// The session could not be entered in the server's table.
    InstallFailed,
    /// The session's own queue holds this message for the client.
    Outbound(Message),
    /// `HEARTBEAT_INTERVAL_SECS` have passed since the last tick.
    HeartbeatDue,
    /// The server is shutting down.
    Shutdown,
}

/// What a session asks the outside world to do next. Each request is
/// answered by one event.
#[derive(Clone, Copy, Debug, PartialEq, Eq, Structural)]
pub enum SessionAction {
    /// Read the first frame of the connection, waiting at most
    /// `timeout_secs`. This is the request that is open when a connection
    /// comes in.
    AwaitFirstFrame { timeout_secs: u64 },
    /// Ask the allocator for a port.
    AllocatePort,
    /// Bind the public listener on `0.0.0.0:port`.
    BindListener { port: u16 },
    /// Write this message to the client.
    Send { message: Message },
    /// Enter the session in the server's table and start accepting visitors
    /// on the listener.
    Install { port: u16 },
    /// Wait for the next frame, for the next message in the session's
    /// queue, or for the heartbeat tick, which comes every `heartbeat_secs`.
    Wait { heartbeat_secs: u64 },
    /// The connection is no control channel: look up the session of its peer
    /// and queue the connection there as a data channel.
    RouteAsDataChannel,
    /// Close the connection and give back what the session holds: drop the
    /// listener if `listener`, take the session out of the table if
    /// `registered`, then release the port in `release`.
    Teardown { release: Option<u16>, listener: bool, registered: bool },
    /// Nothing is left to do.
    Done,
}

impl SessionState {
    /// The stage of the control channel's life that this state belongs to.
    pub open spec fn phase(self) -> SessionPhase {
        match self {
            SessionState::AwaitingFirstFrame
            | SessionState::AwaitingPort
            | SessionState::AwaitingListener { .. }
            | SessionState::AwaitingResponseSent { .. } => SessionPhase::AwaitingFirstFrame,
            SessionState::Installing { .. } | SessionState::Established { .. } => {
                SessionPhase::Established
            },
            SessionState::Closed => SessionPhase::Closed,
        }
    }

    /// The port that the session holds from the allocator.
    pub open spec fn held_port(self) -> Option<u16> {
        match self {
            SessionState::AwaitingListener { port }
            | SessionState::AwaitingResponseSent { port }
            | SessionState::Installing { port }
            | SessionState::Established { port } => Some(port),
            _ => None,
        }
    }

    /// Whether the session's public listener is bound.
    pub open spec fn has_listener(self) -> bool {
        match self {
            SessionState::AwaitingResponseSent { .. }
            | SessionState::Installing { .. }
            | SessionState::Established { .. } => true,
            _ => false,
        }
    }

    /// Whether the session stands in the server's table.
    pub open spec fn is_registered(self) -> bool {
        self is Established
    }

    /// The request that is open when a connection comes in.
    pub open spec fn first() -> SessionAction {
        SessionAction::AwaitFirstFrame { timeout_secs: FIRST_FRAME_TIMEOUT_SECS }
    }

    /// The request to wait for what comes next on an established session.
    pub open spec fn wait() -> SessionAction {
        SessionAction::Wait { heartbeat_secs: HEARTBEAT_INTERVAL_SECS }
    }

    /// The request that gives back everything this state holds.
    pub open spec fn teardown(self) -> SessionAction {
        SessionAction::Teardown {
            release: self.held_port(),
            listener: self.has_listener(),
            registered: self.is_registered(),
        }
    }

    /// The step that `event` lets the session take, where the session is
    /// open and awaits such an event.
    pub open spec fn advance(self, event: SessionEvent) -> Option<(SessionState, SessionAction)> {
        match (self, event) {
            (
                SessionState::AwaitingFirstFrame,
                SessionEvent::FrameReceived(Message::TunnelRequest { .. }),
            ) => Some((SessionState::AwaitingPort, SessionAction::AllocatePort)),
            (SessionState::AwaitingFirstFrame, SessionEvent::FrameReceived(_)) => Some(
                (SessionState::Closed, SessionAction::RouteAsDataChannel),
            ),
            (SessionState::AwaitingFirstFrame, SessionEvent::FirstFrameTimedOut) => Some(
                (SessionState::Closed, SessionAction::RouteAsDataChannel),
            ),
            (SessionState::AwaitingPort, SessionEvent::PortAllocated(port)) => Some(
                (SessionState::AwaitingListener { port }, SessionAction::BindListener { port }),
            ),
            (SessionState::AwaitingListener { port }, SessionEvent::ListenerBound) => Some(
                (
                    SessionState::AwaitingResponseSent { port },
                    SessionAction::Send { message: Message::TunnelResponse { assigned_port: port } },
                ),
            ),
            (SessionState::AwaitingResponseSent { port }, SessionEvent::Sent) => Some(
                (SessionState::Installing { port }, SessionAction::Install { port }),
            ),
            (SessionState::Installing { port }, SessionEvent::Installed) => Some(
                (SessionState::Established { port }, Self::wait()),
            ),
            (
                SessionState::Established { port },
                SessionEvent::FrameReceived(Message::Heartbeat),
            ) => Some(
                (
                    SessionState::Established { port },
                    SessionAction::Send { message: Message::Heartbeat },
                ),
            ),
            (SessionState::Established { port }, SessionEvent::FrameReceived(_)) => Some(
                (SessionState::Established { port }, Self::wait()),
            ),
            (SessionState::Established { port }, SessionEvent::Outbound(message)) => Some(
                (SessionState::Established { port }, SessionAction::Send { message }),
            ),
            (SessionState::Established { port }, SessionEvent::HeartbeatDue) => Some(
                (
                    SessionState::Established { port },
                    SessionAction::Send { message: Message::Heartbeat },
                ),
            ),
            (SessionState::Established { port }, SessionEvent::Sent) => Some(
                (SessionState::Established { port }, Self::wait()),
            ),
            _ => None,
        }
    }

    /// The state after `event` and the request that goes with it. An open
    /// session advances on the events it awaits; any other event closes it
    /// and gives back what it holds. A closed session stays closed.
    pub open spec fn next(self, event: SessionEvent) -> (SessionState, SessionAction) {
        if self is Closed {
            (SessionState::Closed, SessionAction::Done)
        } else {
            match self.advance(event) {
                Some(step) => step,
                None => (SessionState::Closed, self.teardown()),
            }
        }
    }

    /// A connection on which nothing has been read yet.
    pub fn new() -> (r: Self)
        ensures
            r == SessionState::AwaitingFirstFrame,
    {
        SessionState::AwaitingFirstFrame
    }

    /// The request with which every connection starts: read its first
    /// frame.
    pub fn first_request() -> (r: SessionAction)
        ensures
            r == Self::first(),
    {
        SessionAction::AwaitFirstFrame { timeout_secs: FIRST_FRAME_TIMEOUT_SECS }
    }

    /// The request that gives back everything the session holds.
    fn release_all(&self) -> (r: SessionAction)
        ensures
            r == self.teardown(),
    {
        match self {
            SessionState::AwaitingListener { port } => SessionAction::Teardown {
                release: Some(*port),
                listener: false,
                registered: false,
            },
            SessionState::AwaitingResponseSent { port } | SessionState::Installing { port } => {
                SessionAction::Teardown { release: Some(*port), listener: true, registered: false }
            },
            SessionState::Established { port } => SessionAction::Teardown {
                release: Some(*port),
                listener: true,
                registered: true,
            },
            _ => SessionAction::Teardown { release: None, listener: false, registered: false },
        }
    }

    /// Takes `event` in and answers with what to do next.
    pub fn step(&mut self, event: SessionEvent) -> (action: SessionAction)
        ensures
            (*final(self), action) == old(self).next(event),
    {
        let state = *self;
        let wait = SessionAction::Wait { heartbeat_secs: HEARTBEAT_INTERVAL_SECS };
        let (after, action) = match state {
            SessionState::Closed => (SessionState::Closed, SessionAction::Done),
            SessionState::AwaitingFirstFrame => match event {
                SessionEvent::FrameReceived(Message::TunnelRequest { .. }) => (
                    SessionState::AwaitingPort,
                    SessionAction::AllocatePort,
                ),
                SessionEvent::FrameReceived(_) | SessionEvent::FirstFrameTimedOut => (
                    SessionState::Closed,
                    SessionAction::RouteAsDataChannel,
                ),
                _ => (SessionState::Closed, state.release_all()),
            },
            SessionState::AwaitingPort => match event {
                SessionEvent::PortAllocated(port) => (
                    SessionState::AwaitingListener { port },
                    SessionAction::BindListener { port },
                ),
                _ => (SessionState::Closed, state.release_all()),
            },
            SessionState::AwaitingListener { port } => match event {
                SessionEvent::ListenerBound => (
                    SessionState::AwaitingResponseSent { port },
                    SessionAction::Send { message: Message::TunnelResponse { assigned_port: port } },
                ),
                _ => (SessionState::Closed, state.release_all()),
            },
            SessionState::AwaitingResponseSent { port } => match event {
                SessionEvent::Sent => (
                    SessionState::Installing { port },
                    SessionAction::Install { port },
                ),
                _ => (SessionState::Closed, state.release_all()),
            },
            SessionState::Installing { port } => match event {
                SessionEvent::Installed => (SessionState::Established { port }, wait),
                _ => (SessionState::Closed, state.release_all()),
            },
            SessionState::Established { port } => match event {
                SessionEvent::FrameReceived(Message::Heartbeat) | SessionEvent::HeartbeatDue => (
                    state,
                    SessionAction::Send { message: Message::Heartbeat },
                ),
                SessionEvent::FrameReceived(_) | SessionEvent::Sent => (state, wait),
                SessionEvent::Outbound(message) => (state, SessionAction::Send { message }),
                _ => (SessionState::Closed, state.release_all()),
            },
        };
        *self = after;
        action
    }

    /// The stage of the control channel's life.
    pub fn current_phase(&self) -> (r: SessionPhase)
        ensures
            r == self.phase(),
    {
        match self {
            SessionState::AwaitingFirstFrame
            | SessionState::AwaitingPort
            | SessionState::AwaitingListener { .. }
            | SessionState::AwaitingResponseSent { .. } => SessionPhase::AwaitingFirstFrame,
            SessionState::Installing { .. } | SessionState::Established { .. } => {
                SessionPhase::Established
            },
            SessionState::Closed => SessionPhase::Closed,
        }
    }

    /// The public port of the tunnel, once one is held.
    pub fn assigned_port(&self) -> (r: Option<u16>)
        ensures
            r == self.held_port(),
    {
        match self {
            SessionState::AwaitingListener { port }
            | SessionState::AwaitingResponseSent { port }
            | SessionState::Installing { port }
            | SessionState::Established { port } => Some(*port),
            _ => None,
        }
    }
}

/// What exists outside a session on its behalf, as the requests and reports
/// that passed between the two account for it.
pub struct Holdings {
    /// Ports taken from the allocator and not given back.
    pub ports: Multiset<u16>,
    /// Ports on which a public listener of the session is bound.
    pub listeners: Multiset<u16>,
    /// Ports under which the session stands in the server's table.
    pub registered: Multiset<u16>,
}

/// The state that a session reaches from its start through `events`.
pub open spec fn run(events: Seq<SessionEvent>) -> SessionState
    decreases events.len(),
{
    if events.len() == 0 {
        SessionState::AwaitingFirstFrame
    } else {
        run(events.drop_last()).next(events.last()).0
    }
}

/// The request that is open after `events`: the answer to the last of them,
/// or the reading of the first frame before the first.
pub open spec fn pending(events: Seq<SessionEvent>) -> SessionAction {
    if events.len() == 0 {
        SessionState::first()
    } else {
        run(events.drop_last()).next(events.last()).1
    }
}

/// Whether `event` is a report that the outside world may give while
/// `request` is open.
pub open spec fn answers(request: SessionAction, event: SessionEvent) -> bool {
    match request {
        SessionAction::AwaitFirstFrame { .. } => event is FrameReceived
            || event is FirstFrameTimedOut || event is ReadFailed || event is Shutdown,
        SessionAction::AllocatePort => event is PortAllocated || event is AllocationFailed,
        SessionAction::BindListener { .. } => event is ListenerBound || event is BindFailed,
        SessionAction::Send { .. } => event is Sent || event is SendFailed,
        SessionAction::Install { .. } => event is Installed || event is InstallFailed,
        SessionAction::Wait { .. } => event is FrameReceived || event is ReadFailed
            || event is Outbound || event is HeartbeatDue || event is Shutdown,
        SessionAction::RouteAsDataChannel => false,
        SessionAction::Teardown { .. } => false,
        SessionAction::Done => false,
    }
}

/// Whether every event of the sequence answers the request that was open
/// when it came.
pub open spec fn faithful(events: Seq<SessionEvent>) -> bool
    decreases events.len(),
{
    events.len() == 0 || (faithful(events.drop_last()) && answers(
        pending(events.drop_last()),
        events.last(),
    ))
}

/// What one step changes outside the session: a report of success adds what
/// the open request asked for, and a teardown takes away what it names.
pub open spec fn settle(
    before: Holdings,
    request: SessionAction,
    event: SessionEvent,
    answer: SessionAction,
) -> Holdings {
    let gained = match (request, event) {
        (SessionAction::AllocatePort, SessionEvent::PortAllocated(port)) => Holdings {
            ports: before.ports.insert(port),
            ..before
        },
        (SessionAction::BindListener { port }, SessionEvent::ListenerBound) => Holdings {
            listeners: before.listeners.insert(port),
            ..before
        },
        (SessionAction::Install { port }, SessionEvent::Installed) => Holdings {
            registered: before.registered.insert(port),
            ..before
        },
        _ => before,
    };
    match answer {
        SessionAction::Teardown { release: Some(port), listener, registered } => Holdings {
            ports: gained.ports.remove(port),
            listeners: if listener {
                gained.listeners.remove(port)
            } else {
                gained.listeners
            },
            registered: if registered {
                gained.registered.remove(port)
            } else {
                gained.registered
            },
        },
        _ => gained,
    }
}

/// What exists outside a session after `events`.
pub open spec fn holdings(events: Seq<SessionEvent>) -> Holdings
    decreases events.len(),
{
    if events.len() == 0 {
        Holdings {
            ports: Multiset::empty(),
            listeners: Multiset::empty(),
            registered: Multiset::empty(),
        }
    } else {
        settle(
            holdings(events.drop_last()),
            pending(events.drop_last()),
            events.last(),
            run(events.drop_last()).next(events.last()).1,
        )
    }
}

/// The ports in `slot`, as a multiset.
pub open spec fn at_most_one(slot: Option<u16>) -> Multiset<u16> {
    match slot {
        Some(port) => Multiset::singleton(port),
        None => Multiset::empty(),
    }
}

/// What a state says the session holds.
pub open spec fn holdings_of(state: SessionState) -> Holdings {
    Holdings {
        ports: at_most_one(state.held_port()),
        listeners: if state.has_listener() {
            at_most_one(state.held_port())
        } else {
            Multiset::empty()
        },
        registered: if state.is_registered() {
            at_most_one(state.held_port())
        } else {
            Multiset::empty()
        },
    }
}

/// The request that is open tells the state: a session asks only for what its
/// state is waiting for, gives a first frame `FIRST_FRAME_TIMEOUT_SECS`, and
/// has its heartbeat tick every `HEARTBEAT_INTERVAL_SECS`.
pub proof fn lemma_pending_fits_state(events: Seq<SessionEvent>)
    requires
        faithful(events),
    ensures
        match pending(events) {
            SessionAction::AwaitFirstFrame { timeout_secs } => run(events) is AwaitingFirstFrame
                && timeout_secs == 10,
            SessionAction::AllocatePort => run(events) is AwaitingPort,
            SessionAction::BindListener { port } => run(events) == (
            SessionState::AwaitingListener { port }),
            SessionAction::Send { message } => run(events) is Established || (run(
                events,
            ) is AwaitingResponseSent && message == (Message::TunnelResponse {
                assigned_port: run(events)->AwaitingResponseSent_port,
            })),
            SessionAction::Install { port } => run(events) == (SessionState::Installing { port }),
            SessionAction::Wait { heartbeat_secs } => run(events) is Established && heartbeat_secs
                == 20,
            SessionAction::RouteAsDataChannel => run(events) is Closed,
            SessionAction::Teardown { .. } => run(events) is Closed,
            SessionAction::Done => run(events) is Closed,
        },
    decreases events.len(),
{
    if events.len() > 0 {
        lemma_pending_fits_state(events.drop_last());
    }
}

/// The account of what exists outside a session agrees with the session's
/// state at every moment: it holds at most one port, its listener is bound
/// on that port, and it stands in the table under that port.
pub proof fn lemma_holdings_follow_state(events: Seq<SessionEvent>)
    requires
        faithful(events),
    ensures
        holdings(events).ports =~= holdings_of(run(events)).ports,
        holdings(events).listeners =~= holdings_of(run(events)).listeners,
        holdings(events).registered =~= holdings_of(run(events)).registered,
    decreases events.len(),
{
    if events.len() > 0 {
        let before = events.drop_last();
        lemma_holdings_follow_state(before);
        lemma_pending_fits_state(before);
        let state = run(before);
        let held = holdings(before);
        assert(held.ports =~= holdings_of(state).ports);
        assert(held.listeners =~= holdings_of(state).listeners);
        assert(held.registered =~= holdings_of(state).registered);
        match state.held_port() {
            Some(port) => {
                assert(Multiset::singleton(port).remove(port) =~= Multiset::<u16>::empty());
                assert(Multiset::<u16>::empty().remove(port) =~= Multiset::<u16>::empty());
            },
            None => {},
        }
        match events.last() {
            SessionEvent::PortAllocated(port) => {
                assert(Multiset::<u16>::empty().insert(port) =~= Multiset::singleton(port));
            },
            _ => {},
        }
        match pending(before) {
            SessionAction::BindListener { port } => {
                assert(Multiset::<u16>::empty().insert(port) =~= Multiset::singleton(port));
            },
            SessionAction::Install { port } => {
                assert(Multiset::<u16>::empty().insert(port) =~= Multiset::singleton(port));
            },
            _ => {},
        }
    }
}

/// While a session is established, exactly one public listener exists for
/// it, bound on its assigned port, and the session holds that port.
pub proof fn lemma_established_has_one_listener(events: Seq<SessionEvent>)
    requires
        faithful(events),
        run(events).phase() == SessionPhase::Established,
    ensures
        run(events).held_port() is Some,
        holdings(events).listeners =~= Multiset::singleton(run(events).held_port()->Some_0),
        holdings(events).listeners.len() == 1,
        holdings(events).ports =~= Multiset::singleton(run(events).held_port()->Some_0),
{
    lemma_holdings_follow_state(events);
}

/// After a session has closed, nothing exists for it any more: its listener
/// is dropped, it is out of the table, and its port is back with the
/// allocator.
pub proof fn lemma_closed_holds_nothing(events: Seq<SessionEvent>)
    requires
        faithful(events),
        run(events).phase() == SessionPhase::Closed,
    ensures
        holdings(events).ports =~= Multiset::<u16>::empty(),
        holdings(events).listeners =~= Multiset::<u16>::empty(),
        holdings(events).registered =~= Multiset::<u16>::empty(),
{
    lemma_holdings_follow_state(events);
}

/// A closed session stays closed whatever is reported to it.
pub proof fn lemma_closed_is_final(state: SessionState, event: SessionEvent)
    requires
        state is Closed,
    ensures
        state.next(event) == (SessionState::Closed, SessionAction::Done),
{
}

/// A failure or a shutdown closes an open session at once and gives back
/// all that it holds.
pub proof fn lemma_failure_closes(state: SessionState, event: SessionEvent)
    requires
        !(state is Closed),
        event is ReadFailed || event is SendFailed || event is BindFailed
            || event is AllocationFailed || event is InstallFailed || event is Shutdown,
    ensures
        state.next(event) == (SessionState::Closed, state.teardown()),
{
}

} // verus!
