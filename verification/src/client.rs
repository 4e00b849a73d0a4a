//! The client's side of a tunnel: registration, the control loop, and the
//! retry after every failure, as a step function.

use crate::protocol::Message;
use vstd::prelude::*;

verus! {

/// Seconds between a failure and the next attempt to connect.
pub const RETRY_INTERVAL_SECS: u64 = 3;

/// Seconds between two heartbeats that the client sends.
pub const HEARTBEAT_INTERVAL_SECS: u64 = 20;

/// Seconds without any frame after which the control channel counts as dead.
pub const HEARTBEAT_TIMEOUT_SECS: u64 = 60;

/// Seconds the client waits for the answer to its tunnel request.
pub const RESPONSE_TIMEOUT_SECS: u64 = 10;

/// Why an attempt of the client failed. Each of these is followed by a retry.
#[derive(Clone, Copy, Debug, PartialEq, Eq, Structural)]
pub enum ClientError {
    /// The server could not be reached.
    ConnectFailed,
    /// The server did not answer the tunnel request with a tunnel response
    /// in time.
    UnexpectedResponse,
    /// No frame arrived for `HEARTBEAT_TIMEOUT_SECS`.
    HeartbeatTimeout,
    /// The control channel broke: a read or write failed, the stream ended,
    /// or a frame could not be decoded.
    ChannelFailed,
}

/// How the work of a client ends.
#[derive(Clone, Copy, Debug, PartialEq, Eq, Structural)]
pub enum ClientOutcome {
    /// The server assigned this public port.
    PortAssigned(u16),
    /// Shutdown was requested.
    ShutdownRequested,
}

/// What a client is run for.
#[derive(Clone, Copy, Debug, PartialEq, Eq, Structural)]
pub enum ClientMode {
    /// Register a tunnel, learn its public port and end.
    Probe,
    /// Register a tunnel and serve it until shutdown.
    Run,
}

/// Where a client stands.
#[derive(Clone, Copy, Debug, PartialEq, Eq, Structural)]
pub enum ClientState {
    /// The server is being dialled.
    Connecting,
    /// The tunnel request is being written.
    Requesting,
    /// The answer to the tunnel request is awaited.
    AwaitingResponse,
    /// The tunnel is up and the control loop runs. `heard` says that a frame
    /// has arrived which the receive deadline does not account for yet.
    Established { assigned_port: u16, heard: bool },
    /// An attempt failed; the retry interval is running.
    Backoff,
    /// The client has ended.
    Finished,
}

/// What the outside world reports to a client.
#[derive(Clone, Copy, Debug, PartialEq, Eq, Structural)]
pub enum ClientEvent {
    /// The control connection is open.
    Connected,
    /// The server could not be reached.
    ConnectFailed,
    /// The message of the last `Send` is written.
    Sent,
    /// The message of the last `Send` could not be written.
    SendFailed,
    /// A frame arrived on the control channel.
    FrameReceived(Message),
    /// Reading failed: an I/O error, the end of the stream, or a frame that
    /// could not be decoded.
    ReadFailed,
    /// No frame arrived within the time that the open request allows.
    ReadTimedOut,
    /// `HEARTBEAT_INTERVAL_SECS` have passed since the last tick.
    HeartbeatDue,
    /// The task of the data channel asked for is running.
    DataChannelStarted,
    /// The retry interval has passed.
    RetryElapsed,
    /// Shutdown is requested.
    Shutdown,
}

/// What a client asks the outside world to do next. Each request but
/// `Finish` and `Done` is answered by one event.
#[derive(Clone, Copy, Debug, PartialEq, Eq, Structural)]
pub enum ClientAction {
    /// Dial the server.
    Connect,
    /// Write this message to the server.
    Send { message: Message },
    /// Read one frame, waiting at most `timeout_secs`.
    AwaitResponse { timeout_secs: u64 },
    /// Wait for the next frame, for the heartbeat tick, which comes every
    /// `heartbeat_secs`, or for shutdown. The wait for a frame ends at the
    /// receive deadline: if `restart`, the deadline is set anew,
    /// `receive_timeout_secs` from now; otherwise the deadline that is
    /// running stays.
    Wait { receive_timeout_secs: u64, restart: bool, heartbeat_secs: u64 },
    /// Start a task that opens a data channel to the server and a connection
    /// to `127.0.0.1:local_port` and pumps bytes between the two.
    OpenDataChannel { local_port: u16 },
    /// Close the control connection, if any, and wait `delay_secs`.
    Retry { cause: ClientError, delay_secs: u64 },
    /// End with this outcome.
    Finish { outcome: ClientOutcome },
    /// Nothing is left to do.
    Done,
}

/// The decisions of the client side of a tunnel.
#[derive(Clone, Copy, Debug, PartialEq, Eq, Structural)]
pub struct Client {
    pub mode: ClientMode,
    pub local_port: u16,
    pub state: ClientState,
}

impl Client {
    /// The failure that `event` means in the state of this client, if it
    /// means one.
    pub open spec fn failure(self, event: ClientEvent) -> ClientError {
        match (self.state, event) {
            (ClientState::Connecting, ClientEvent::ConnectFailed) => ClientError::ConnectFailed,
            (ClientState::AwaitingResponse, ClientEvent::FrameReceived(_)) => {
                ClientError::UnexpectedResponse
            },
            (ClientState::AwaitingResponse, ClientEvent::ReadTimedOut) => {
                ClientError::UnexpectedResponse
            },
            (ClientState::Established { .. }, ClientEvent::ReadTimedOut) => {
                ClientError::HeartbeatTimeout
            },
            _ => ClientError::ChannelFailed,
        }
    }

    /// The request to wait for what comes next on an established tunnel.
    pub open spec fn wait(restart: bool) -> ClientAction {
        ClientAction::Wait {
            receive_timeout_secs: HEARTBEAT_TIMEOUT_SECS,
            restart,
            heartbeat_secs: HEARTBEAT_INTERVAL_SECS,
        }
    }

    /// The step that `event` lets the client take, where the client awaits
    /// such an event and it is good news.
    pub open spec fn advance(self, event: ClientEvent) -> Option<(ClientState, ClientAction)> {
        match (self.state, event) {
            (ClientState::Connecting, ClientEvent::Connected) => Some(
                (
                    ClientState::Requesting,
                    ClientAction::Send {
                        message: Message::TunnelRequest { local_port: self.local_port },
                    },
                ),
            ),
            (ClientState::Requesting, ClientEvent::Sent) => Some(
                (
                    ClientState::AwaitingResponse,
                    ClientAction::AwaitResponse { timeout_secs: RESPONSE_TIMEOUT_SECS },
                ),
            ),
            (
                ClientState::AwaitingResponse,
                ClientEvent::FrameReceived(Message::TunnelResponse { assigned_port }),
            ) => Some(
                match self.mode {
                    ClientMode::Probe => (
                        ClientState::Finished,
                        ClientAction::Finish { outcome: ClientOutcome::PortAssigned(assigned_port) },
                    ),
                    ClientMode::Run => (
                        ClientState::Established { assigned_port, heard: false },
                        Self::wait(true),
                    ),
                },
            ),
            (
                ClientState::Established { assigned_port, .. },
                ClientEvent::FrameReceived(Message::CreateDataChannel),
            ) => Some(
                (
                    ClientState::Established { assigned_port, heard: true },
                    ClientAction::OpenDataChannel { local_port: self.local_port },
                ),
            ),
            (
                ClientState::Established { assigned_port, .. },
                ClientEvent::FrameReceived(Message::Heartbeat),
            ) => Some(
                (
                    ClientState::Established { assigned_port, heard: true },
                    ClientAction::Send { message: Message::Heartbeat },
                ),
            ),
            (ClientState::Established { assigned_port, .. }, ClientEvent::FrameReceived(_)) => Some(
                (ClientState::Established { assigned_port, heard: false }, Self::wait(true)),
            ),
            (ClientState::Established { assigned_port, heard }, ClientEvent::HeartbeatDue) => Some(
                (
                    ClientState::Established { assigned_port, heard },
                    ClientAction::Send { message: Message::Heartbeat },
                ),
            ),
            (ClientState::Established { assigned_port, heard }, ClientEvent::Sent) => Some(
                (ClientState::Established { assigned_port, heard: false }, Self::wait(heard)),
            ),
            (
                ClientState::Established { assigned_port, heard },
                ClientEvent::DataChannelStarted,
            ) => Some(
                (ClientState::Established { assigned_port, heard: false }, Self::wait(heard)),
            ),
            (ClientState::Backoff, ClientEvent::RetryElapsed) => Some(
                (ClientState::Connecting, ClientAction::Connect),
            ),
            _ => None,
        }
    }

    /// The state after `event` and the request that goes with it. Shutdown
    /// ends a client wherever it stands. Otherwise a client advances on the
    /// good news it awaits, and on anything else gives the attempt up and
    /// retries after `RETRY_INTERVAL_SECS`. A finished client stays finished.
    pub open spec fn next(self, event: ClientEvent) -> (ClientState, ClientAction) {
        if self.state is Finished {
            (ClientState::Finished, ClientAction::Done)
        } else if event is Shutdown {
            (
                ClientState::Finished,
                ClientAction::Finish { outcome: ClientOutcome::ShutdownRequested },
            )
        } else {
            match self.advance(event) {
                Some(step) => step,
                None => (
                    ClientState::Backoff,
                    ClientAction::Retry {
                        cause: self.failure(event),
                        delay_secs: RETRY_INTERVAL_SECS,
                    },
                ),
            }
        }
    }

    /// A client for the local service on `local_port`, about to dial the
    /// server: its first request, `Connect`, is open.
    pub fn new(mode: ClientMode, local_port: u16) -> (r: Self)
        ensures
            r == (Client { mode, local_port, state: ClientState::Connecting }),
    {
        Client { mode, local_port, state: ClientState::Connecting }
    }

    /// The request with which every client starts: dial the server.
    pub fn first_request() -> (r: ClientAction)
        ensures
            r == ClientAction::Connect,
    {
        ClientAction::Connect
    }

    /// The failure that `event` means in the state of this client.
    fn classify_failure(&self, event: ClientEvent) -> (r: ClientError)
        ensures
            r == self.failure(event),
    {
        match (self.state, event) {
            (ClientState::Connecting, ClientEvent::ConnectFailed) => ClientError::ConnectFailed,
            (ClientState::AwaitingResponse, ClientEvent::FrameReceived(_)) => {
                ClientError::UnexpectedResponse
            },
            (ClientState::AwaitingResponse, ClientEvent::ReadTimedOut) => {
                ClientError::UnexpectedResponse
            },
            (ClientState::Established { .. }, ClientEvent::ReadTimedOut) => {
                ClientError::HeartbeatTimeout
            },
            _ => ClientError::ChannelFailed,
        }
    }

    /// Takes `event` in and answers with what to do next.
    pub fn step(&mut self, event: ClientEvent) -> (action: ClientAction)
        ensures
            final(self).mode == old(self).mode,
            final(self).local_port == old(self).local_port,
            (final(self).state, action) == old(self).next(event),
    {
        let secs = HEARTBEAT_TIMEOUT_SECS;
        let tick = HEARTBEAT_INTERVAL_SECS;
        let heartbeat = ClientAction::Send { message: Message::Heartbeat };
        let (after, action) = match self.state {
            ClientState::Finished => (ClientState::Finished, ClientAction::Done),
            _ if matches!(event, ClientEvent::Shutdown) => (
                ClientState::Finished,
                ClientAction::Finish { outcome: ClientOutcome::ShutdownRequested },
            ),
            ClientState::Established { assigned_port, heard } => match event {
                ClientEvent::FrameReceived(Message::CreateDataChannel) => (
                    ClientState::Established { assigned_port, heard: true },
                    ClientAction::OpenDataChannel { local_port: self.local_port },
                ),
                ClientEvent::FrameReceived(Message::Heartbeat) => (
                    ClientState::Established { assigned_port, heard: true },
                    heartbeat,
                ),
                ClientEvent::FrameReceived(_) => (
                    ClientState::Established { assigned_port, heard: false },
                    ClientAction::Wait { receive_timeout_secs: secs, restart: true, heartbeat_secs: tick },
                ),
                ClientEvent::HeartbeatDue => (self.state, heartbeat),
                ClientEvent::Sent | ClientEvent::DataChannelStarted => (
                    ClientState::Established { assigned_port, heard: false },
                    ClientAction::Wait { receive_timeout_secs: secs, restart: heard, heartbeat_secs: tick },
                ),
                _ => (ClientState::Backoff, self.retry(event)),
            },
            ClientState::Connecting => match event {
                ClientEvent::Connected => (
                    ClientState::Requesting,
                    ClientAction::Send {
                        message: Message::TunnelRequest { local_port: self.local_port },
                    },
                ),
                _ => (ClientState::Backoff, self.retry(event)),
            },
            ClientState::Requesting => match event {
                ClientEvent::Sent => (
                    ClientState::AwaitingResponse,
                    ClientAction::AwaitResponse { timeout_secs: RESPONSE_TIMEOUT_SECS },
                ),
                _ => (ClientState::Backoff, self.retry(event)),
            },
            ClientState::AwaitingResponse => match event {
                ClientEvent::FrameReceived(Message::TunnelResponse { assigned_port }) => {
                    match self.mode {
                        ClientMode::Probe => (
                            ClientState::Finished,
                            ClientAction::Finish {
                                outcome: ClientOutcome::PortAssigned(assigned_port),
                            },
                        ),
                        ClientMode::Run => (
                            ClientState::Established { assigned_port, heard: false },
                            ClientAction::Wait { receive_timeout_secs: secs, restart: true, heartbeat_secs: tick },
                        ),
                    }
                },
                _ => (ClientState::Backoff, self.retry(event)),
            },
            ClientState::Backoff => match event {
                ClientEvent::RetryElapsed => (ClientState::Connecting, ClientAction::Connect),
                _ => (ClientState::Backoff, self.retry(event)),
            },
        };
        self.state = after;
        action
    }

    /// The request to give the attempt up over `event` and try again later.
    fn retry(&self, event: ClientEvent) -> (r: ClientAction)
        ensures
            r == (ClientAction::Retry {
                cause: self.failure(event),
                delay_secs: RETRY_INTERVAL_SECS,
            }),
    {
        ClientAction::Retry { cause: self.classify_failure(event), delay_secs: RETRY_INTERVAL_SECS }
    }

    /// The public port of the tunnel while it is up.
    pub fn assigned_port(&self) -> (r: Option<u16>)
        ensures
            r == match self.state {
                ClientState::Established { assigned_port, .. } => Some(assigned_port),
                _ => None,
            },
    {
        match self.state {
            ClientState::Established { assigned_port, .. } => Some(assigned_port),
            _ => None,
        }
    }
}

/// The client that `start` has become through `events`.
pub open spec fn run(start: Client, events: Seq<ClientEvent>) -> Client
    decreases events.len(),
{
    if events.len() == 0 {
        start
    } else {
        let before = run(start, events.drop_last());
        Client { state: before.next(events.last()).0, ..before }
    }
}

/// The request that is open after `events`; at the start it is `Connect`.
pub open spec fn pending(start: Client, events: Seq<ClientEvent>) -> ClientAction {
    if events.len() == 0 {
        ClientAction::Connect
    } else {
        run(start, events.drop_last()).next(events.last()).1
    }
}

/// Whether `event` is a report that the outside world may give while
/// `request` is open. Shutdown may come at any time before the end.
pub open spec fn answers(request: ClientAction, event: ClientEvent) -> bool {
    match request {
        ClientAction::Connect => event is Connected || event is ConnectFailed || event is Shutdown,
        ClientAction::Send { .. } => event is Sent || event is SendFailed || event is Shutdown,
        ClientAction::AwaitResponse { .. } => event is FrameReceived || event is ReadFailed
            || event is ReadTimedOut || event is Shutdown,
        ClientAction::Wait { .. } => event is FrameReceived || event is ReadFailed
            || event is ReadTimedOut || event is HeartbeatDue || event is Shutdown,
        ClientAction::OpenDataChannel { .. } => event is DataChannelStarted || event is Shutdown,
        ClientAction::Retry { .. } => event is RetryElapsed || event is Shutdown,
        ClientAction::Finish { .. } => false,
        ClientAction::Done => false,
    }
}

/// Whether every event of the sequence answers the request that was open
/// when it came.
pub open spec fn faithful(start: Client, events: Seq<ClientEvent>) -> bool
    decreases events.len(),
{
    events.len() == 0 || (faithful(start, events.drop_last()) && answers(
        pending(start, events.drop_last()),
        events.last(),
    ))
}

/// How many requests for a data channel arrived on an established tunnel
/// during `events`.
pub open spec fn requested(start: Client, events: Seq<ClientEvent>) -> nat
    decreases events.len(),
{
    if events.len() == 0 {
        0
    } else {
        requested(start, events.drop_last()) + if events.last() == ClientEvent::FrameReceived(
            Message::CreateDataChannel,
        ) && run(start, events.drop_last()).state is Established {
            1nat
        } else {
            0nat
        }
    }
}

/// How many data channels the client asked to open during `events`.
pub open spec fn opened(start: Client, events: Seq<ClientEvent>) -> nat
    decreases events.len(),
{
    if events.len() == 0 {
        0
    } else {
        opened(start, events.drop_last()) + if pending(start, events) is OpenDataChannel {
            1nat
        } else {
            0nat
        }
    }
}

/// Shutdown ends a client from every state in which it has not ended yet.
pub proof fn lemma_shutdown_wins(client: Client)
    requires
        !(client.state is Finished),
    ensures
        client.next(ClientEvent::Shutdown) == (
            ClientState::Finished,
            ClientAction::Finish { outcome: ClientOutcome::ShutdownRequested },
        ),
{
}

/// Whatever goes wrong, the client waits `RETRY_INTERVAL_SECS` and then
/// dials again: a step that neither advances nor ends the client asks for a
/// retry, and when the interval has passed the next request is `Connect`.
pub proof fn lemma_failure_retries(client: Client, event: ClientEvent)
    requires
        !(client.state is Finished),
        !(event is Shutdown),
        client.advance(event) is None,
    ensures
        client.next(event) == (
            ClientState::Backoff,
            ClientAction::Retry { cause: client.failure(event), delay_secs: 3 },
        ),
        (Client { state: ClientState::Backoff, ..client }).next(ClientEvent::RetryElapsed) == (
            ClientState::Connecting,
            ClientAction::Connect,
        ),
{
}

/// A control channel that stays silent for the whole receive timeout is
/// given up with `HeartbeatTimeout`.
pub proof fn lemma_silence_is_heartbeat_timeout(client: Client)
    requires
        client.state is Established,
    ensures
        client.next(ClientEvent::ReadTimedOut) == (
            ClientState::Backoff,
            ClientAction::Retry { cause: ClientError::HeartbeatTimeout, delay_secs: 3 },
        ),
{
}

/// The open request tells the state.
pub proof fn lemma_pending_fits_state(start: Client, events: Seq<ClientEvent>)
    requires
        start.state is Connecting,
        faithful(start, events),
    ensures
        run(start, events).mode == start.mode,
        run(start, events).local_port == start.local_port,
        match pending(start, events) {
            ClientAction::Connect => run(start, events).state is Connecting,
            ClientAction::Send { .. } => run(start, events).state is Requesting || run(
                start,
                events,
            ).state is Established,
            ClientAction::AwaitResponse { .. } => run(start, events).state is AwaitingResponse,
            ClientAction::Wait { .. } => run(start, events).state is Established,
            ClientAction::OpenDataChannel { .. } => run(start, events).state is Established,
            ClientAction::Retry { .. } => run(start, events).state is Backoff,
            ClientAction::Finish { .. } => run(start, events).state is Finished,
            ClientAction::Done => run(start, events).state is Finished,
        },
    decreases events.len(),
{
    if events.len() > 0 {
        lemma_pending_fits_state(start, events.drop_last());
    }
}

/// A client opens one data channel for each request that the server sends
/// it on an established tunnel, and none unasked; every one of them is for
/// the client's own local port.
pub proof fn lemma_data_channels_on_demand(start: Client, events: Seq<ClientEvent>)
    requires
        start.state is Connecting,
        faithful(start, events),
    ensures
        opened(start, events) == requested(start, events),
        pending(start, events) is OpenDataChannel ==> pending(start, events) == (
            ClientAction::OpenDataChannel { local_port: start.local_port }),
    decreases events.len(),
{
    if events.len() > 0 {
        lemma_data_channels_on_demand(start, events.drop_last());
        lemma_pending_fits_state(start, events.drop_last());
    }
}

/// Whether a frame has arrived since the receive deadline was last set or
/// kept, that is, since the last request to wait.
pub open spec fn heard_since_wait(start: Client, events: Seq<ClientEvent>) -> bool
    decreases events.len(),
{
    events.len() > 0 && (events.last() is FrameReceived || (!(pending(
        start,
        events.drop_last(),
    ) is Wait) && heard_since_wait(start, events.drop_last())))
}

/// The receive deadline runs from frame to frame: a request to wait sets the
/// deadline anew exactly when a frame has arrived since the request to wait
/// before it, always allows `HEARTBEAT_TIMEOUT_SECS`, and a heartbeat that
/// the client itself sends leaves the running deadline alone.
pub proof fn lemma_deadline_runs_from_frame_to_frame(start: Client, events: Seq<ClientEvent>)
    requires
        start.state is Connecting,
        faithful(start, events),
    ensures
        match pending(start, events) {
            ClientAction::Wait { receive_timeout_secs, restart, heartbeat_secs } => {
                &&& receive_timeout_secs == 60
                &&& heartbeat_secs == 20
                &&& restart == heard_since_wait(start, events)
                &&& run(start, events).state matches ClientState::Established { heard, .. }
                    && !heard
            },
            _ => run(start, events).state matches ClientState::Established { heard, .. }
                ==> heard == heard_since_wait(start, events),
        },
    decreases events.len(),
{
    if events.len() > 0 {
        lemma_deadline_runs_from_frame_to_frame(start, events.drop_last());
        lemma_pending_fits_state(start, events.drop_last());
    }
}

} // verus!
