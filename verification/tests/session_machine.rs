use rathole::protocol::Message;
use rathole::session::{
    SessionAction, SessionEvent, SessionPhase, SessionState, FIRST_FRAME_TIMEOUT_SECS,
    HEARTBEAT_INTERVAL_SECS,
};

fn established(port: u16) -> SessionState {
    let mut session = SessionState::new();
    session.step(SessionEvent::FrameReceived(Message::TunnelRequest { local_port: 9001 }));
    session.step(SessionEvent::PortAllocated(port));
    session.step(SessionEvent::ListenerBound);
    session.step(SessionEvent::Sent);
    session.step(SessionEvent::Installed);
    session
}

const WAIT: SessionAction = SessionAction::Wait { heartbeat_secs: 20 };

fn everything(port: u16) -> SessionAction {
    SessionAction::Teardown { release: Some(port), listener: true, registered: true }
}

#[test]
fn session_timing() {
    assert_eq!(FIRST_FRAME_TIMEOUT_SECS, 10);
    assert_eq!(HEARTBEAT_INTERVAL_SECS, 20);
}

#[test]
fn tunnel_request_sets_the_tunnel_up() {
    let mut session = SessionState::new();
    assert_eq!(session, SessionState::AwaitingFirstFrame);
    assert_eq!(
        SessionState::first_request(),
        SessionAction::AwaitFirstFrame { timeout_secs: 10 }
    );
    assert_eq!(session.current_phase(), SessionPhase::AwaitingFirstFrame);
    assert_eq!(session.assigned_port(), None);

    let action = session.step(SessionEvent::FrameReceived(Message::TunnelRequest { local_port: 9001 }));
    assert_eq!(action, SessionAction::AllocatePort);
    assert_eq!(session, SessionState::AwaitingPort);

    let action = session.step(SessionEvent::PortAllocated(35100));
    assert_eq!(action, SessionAction::BindListener { port: 35100 });
    assert_eq!(session, SessionState::AwaitingListener { port: 35100 });
    assert_eq!(session.assigned_port(), Some(35100));

    let action = session.step(SessionEvent::ListenerBound);
    assert_eq!(
        action,
        SessionAction::Send { message: Message::TunnelResponse { assigned_port: 35100 } }
    );
    assert_eq!(session.current_phase(), SessionPhase::AwaitingFirstFrame);

    let action = session.step(SessionEvent::Sent);
    assert_eq!(action, SessionAction::Install { port: 35100 });
    assert_eq!(session.current_phase(), SessionPhase::Established);

    let action = session.step(SessionEvent::Installed);
    assert_eq!(action, WAIT);
    assert_eq!(session, SessionState::Established { port: 35100 });
    assert_eq!(session.current_phase(), SessionPhase::Established);
    assert_eq!(session.assigned_port(), Some(35100));
}

#[test]
fn any_other_first_frame_makes_a_data_channel() {
    for first in [
        SessionEvent::FrameReceived(Message::Heartbeat),
        SessionEvent::FrameReceived(Message::CreateDataChannel),
        SessionEvent::FrameReceived(Message::TunnelResponse { assigned_port: 1 }),
        SessionEvent::FirstFrameTimedOut,
    ] {
        let mut session = SessionState::new();
        assert_eq!(session.step(first), SessionAction::RouteAsDataChannel);
        assert_eq!(session, SessionState::Closed);
        assert_eq!(session.step(SessionEvent::HeartbeatDue), SessionAction::Done);
    }
}

#[test]
fn failed_first_read_closes_with_nothing_to_give_back() {
    let mut session = SessionState::new();
    assert_eq!(
        session.step(SessionEvent::ReadFailed),
        SessionAction::Teardown { release: None, listener: false, registered: false }
    );
    assert_eq!(session.current_phase(), SessionPhase::Closed);
}

#[test]
fn setup_failures_give_back_what_is_held() {
    let mut session = SessionState::new();
    session.step(SessionEvent::FrameReceived(Message::TunnelRequest { local_port: 1 }));
    assert_eq!(
        session.step(SessionEvent::AllocationFailed),
        SessionAction::Teardown { release: None, listener: false, registered: false }
    );
    assert_eq!(session, SessionState::Closed);

    let mut session = SessionState::new();
    session.step(SessionEvent::FrameReceived(Message::TunnelRequest { local_port: 1 }));
    session.step(SessionEvent::PortAllocated(35150));
    assert_eq!(
        session.step(SessionEvent::BindFailed),
        SessionAction::Teardown { release: Some(35150), listener: false, registered: false }
    );
    assert_eq!(session, SessionState::Closed);
    assert_eq!(session.assigned_port(), None);

    let mut session = SessionState::new();
    session.step(SessionEvent::FrameReceived(Message::TunnelRequest { local_port: 1 }));
    session.step(SessionEvent::PortAllocated(35150));
    session.step(SessionEvent::ListenerBound);
    assert_eq!(
        session.step(SessionEvent::SendFailed),
        SessionAction::Teardown { release: Some(35150), listener: true, registered: false }
    );

    let mut session = SessionState::new();
    session.step(SessionEvent::FrameReceived(Message::TunnelRequest { local_port: 1 }));
    session.step(SessionEvent::PortAllocated(35150));
    session.step(SessionEvent::ListenerBound);
    session.step(SessionEvent::Sent);
    assert_eq!(
        session.step(SessionEvent::InstallFailed),
        SessionAction::Teardown { release: Some(35150), listener: true, registered: false }
    );
    assert_eq!(session, SessionState::Closed);
}

#[test]
fn established_session_echoes_and_forwards() {
    let mut session = established(35100);
    let heartbeat = SessionAction::Send { message: Message::Heartbeat };

    assert_eq!(session.step(SessionEvent::FrameReceived(Message::Heartbeat)), heartbeat);
    assert_eq!(session.step(SessionEvent::Sent), WAIT);
    assert_eq!(session.step(SessionEvent::HeartbeatDue), heartbeat);
    assert_eq!(session.step(SessionEvent::Sent), WAIT);
    assert_eq!(
        session.step(SessionEvent::Outbound(Message::CreateDataChannel)),
        SessionAction::Send { message: Message::CreateDataChannel }
    );
    assert_eq!(session.step(SessionEvent::Sent), WAIT);
    assert_eq!(session, SessionState::Established { port: 35100 });
}

#[test]
fn unexpected_frames_are_ignored() {
    let mut session = established(35100);
    for frame in [
        Message::TunnelRequest { local_port: 1 },
        Message::TunnelResponse { assigned_port: 2 },
        Message::CreateDataChannel,
    ] {
        assert_eq!(session.step(SessionEvent::FrameReceived(frame)), WAIT);
        assert_eq!(session, SessionState::Established { port: 35100 });
    }
}

#[test]
fn failures_tear_an_established_session_down() {
    for failure in [SessionEvent::ReadFailed, SessionEvent::SendFailed, SessionEvent::Shutdown] {
        let mut session = established(35123);
        assert_eq!(session.step(failure), everything(35123));
        assert_eq!(session, SessionState::Closed);
        assert_eq!(session.current_phase(), SessionPhase::Closed);
        assert_eq!(session.assigned_port(), None);
    }
}

#[test]
fn closed_session_stays_closed() {
    let mut session = established(35100);
    session.step(SessionEvent::ReadFailed);
    for event in [
        SessionEvent::FrameReceived(Message::TunnelRequest { local_port: 1 }),
        SessionEvent::PortAllocated(35101),
        SessionEvent::ListenerBound,
        SessionEvent::Sent,
        SessionEvent::Installed,
        SessionEvent::HeartbeatDue,
        SessionEvent::Shutdown,
    ] {
        assert_eq!(session.step(event), SessionAction::Done);
        assert_eq!(session, SessionState::Closed);
    }
}

#[test]
fn report_out_of_turn_closes_the_session() {
    let mut session = SessionState::new();
    session.step(SessionEvent::FrameReceived(Message::TunnelRequest { local_port: 1 }));
    session.step(SessionEvent::PortAllocated(35100));
    assert_eq!(
        session.step(SessionEvent::Installed),
        SessionAction::Teardown { release: Some(35100), listener: false, registered: false }
    );
    assert_eq!(session, SessionState::Closed);
}

/// What exists on behalf of a session, counted from what it asks for and
/// what it is told.
#[derive(Default, Debug, PartialEq)]
struct World {
    ports: Vec<u16>,
    listeners: Vec<u16>,
    registered: Vec<u16>,
}

fn drive(events: &[SessionEvent]) -> (SessionState, World, Vec<World>) {
    let mut session = SessionState::new();
    let mut world = World::default();
    let mut while_established = Vec::new();
    let mut open_request = SessionState::first_request();
    for event in events {
        match (open_request, *event) {
            (SessionAction::AllocatePort, SessionEvent::PortAllocated(port)) => {
                world.ports.push(port)
            }
            (SessionAction::BindListener { port }, SessionEvent::ListenerBound) => {
                world.listeners.push(port)
            }
            (SessionAction::Install { port }, SessionEvent::Installed) => {
                world.registered.push(port)
            }
            _ => {}
        }
        let action = session.step(*event);
        if let SessionAction::Teardown { release: Some(port), listener, registered } = action {
            world.ports.retain(|p| *p != port);
            if listener {
                world.listeners.retain(|p| *p != port);
            }
            if registered {
                world.registered.retain(|p| *p != port);
            }
        }
        if session.current_phase() == SessionPhase::Established {
            while_established.push(World {
                ports: world.ports.clone(),
                listeners: world.listeners.clone(),
                registered: world.registered.clone(),
            });
        }
        open_request = action;
    }
    (session, world, while_established)
}

#[test]
fn one_listener_while_established_and_none_after() {
    let setup = [
        SessionEvent::FrameReceived(Message::TunnelRequest { local_port: 9001 }),
        SessionEvent::PortAllocated(35100),
        SessionEvent::ListenerBound,
        SessionEvent::Sent,
        SessionEvent::Installed,
        SessionEvent::HeartbeatDue,
        SessionEvent::Sent,
        SessionEvent::Outbound(Message::CreateDataChannel),
        SessionEvent::Sent,
        SessionEvent::FrameReceived(Message::Heartbeat),
        SessionEvent::Sent,
    ];
    for end in [SessionEvent::ReadFailed, SessionEvent::Shutdown, SessionEvent::HeartbeatDue] {
        let mut events = setup.to_vec();
        events.push(end);
        events.push(SessionEvent::SendFailed);
        let (session, world, while_established) = drive(&events);

        assert!(while_established.len() >= 7);
        for seen in while_established {
            assert_eq!(seen.listeners, vec![35100]);
            assert_eq!(seen.ports, vec![35100]);
        }
        assert_eq!(session.current_phase(), SessionPhase::Closed);
        assert_eq!(world, World::default());
    }
}

#[test]
fn nothing_is_left_behind_when_setup_fails() {
    let request = SessionEvent::FrameReceived(Message::TunnelRequest { local_port: 9001 });
    let runs: Vec<Vec<SessionEvent>> = vec![
        vec![SessionEvent::ReadFailed],
        vec![SessionEvent::FirstFrameTimedOut],
        vec![request, SessionEvent::AllocationFailed],
        vec![request, SessionEvent::PortAllocated(35100), SessionEvent::BindFailed],
        vec![
            request,
            SessionEvent::PortAllocated(35100),
            SessionEvent::ListenerBound,
            SessionEvent::SendFailed,
        ],
        vec![
            request,
            SessionEvent::PortAllocated(35100),
            SessionEvent::ListenerBound,
            SessionEvent::Sent,
            SessionEvent::InstallFailed,
        ],
    ];
    for events in runs {
        let (session, world, _) = drive(&events);
        assert_eq!(session, SessionState::Closed);
        assert_eq!(world, World::default());
    }
}
