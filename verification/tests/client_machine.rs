use rathole::client::{
    Client, ClientAction, ClientError, ClientEvent, ClientMode, ClientOutcome, ClientState,
    HEARTBEAT_INTERVAL_SECS, HEARTBEAT_TIMEOUT_SECS, RESPONSE_TIMEOUT_SECS, RETRY_INTERVAL_SECS,
};
use rathole::protocol::Message;

const WAIT_ANEW: ClientAction =
    ClientAction::Wait { receive_timeout_secs: 60, restart: true, heartbeat_secs: 20 };
const WAIT_ON: ClientAction =
    ClientAction::Wait { receive_timeout_secs: 60, restart: false, heartbeat_secs: 20 };

fn retry(cause: ClientError) -> ClientAction {
    ClientAction::Retry { cause, delay_secs: 3 }
}

fn established(local_port: u16, assigned_port: u16) -> Client {
    let mut client = Client::new(ClientMode::Run, local_port);
    client.step(ClientEvent::Connected);
    client.step(ClientEvent::Sent);
    client.step(ClientEvent::FrameReceived(Message::TunnelResponse { assigned_port }));
    client
}

#[test]
fn client_timing() {
    assert_eq!(RETRY_INTERVAL_SECS, 3);
    assert_eq!(HEARTBEAT_INTERVAL_SECS, 20);
    assert_eq!(HEARTBEAT_TIMEOUT_SECS, 60);
    assert_eq!(RESPONSE_TIMEOUT_SECS, 10);
}

#[test]
fn client_registers_its_local_port() {
    let mut client = Client::new(ClientMode::Run, 9001);
    assert_eq!(Client::first_request(), ClientAction::Connect);
    assert_eq!(client.state, ClientState::Connecting);
    assert_eq!(client.assigned_port(), None);

    assert_eq!(
        client.step(ClientEvent::Connected),
        ClientAction::Send { message: Message::TunnelRequest { local_port: 9001 } }
    );
    assert_eq!(
        client.step(ClientEvent::Sent),
        ClientAction::AwaitResponse { timeout_secs: 10 }
    );
    assert_eq!(
        client.step(ClientEvent::FrameReceived(Message::TunnelResponse { assigned_port: 35100 })),
        WAIT_ANEW
    );
    assert_eq!(client.state, ClientState::Established { assigned_port: 35100, heard: false });
    assert_eq!(client.assigned_port(), Some(35100));
    assert_eq!(client.local_port, 9001);
    assert_eq!(client.mode, ClientMode::Run);
}

#[test]
fn probe_ends_with_the_assigned_port() {
    let mut client = Client::new(ClientMode::Probe, 9001);
    client.step(ClientEvent::Connected);
    client.step(ClientEvent::Sent);
    assert_eq!(
        client.step(ClientEvent::FrameReceived(Message::TunnelResponse { assigned_port: 35177 })),
        ClientAction::Finish { outcome: ClientOutcome::PortAssigned(35177) }
    );
    assert_eq!(client.state, ClientState::Finished);
    assert_eq!(client.step(ClientEvent::HeartbeatDue), ClientAction::Done);
    assert_eq!(client.step(ClientEvent::Shutdown), ClientAction::Done);
}

#[test]
fn control_loop_serves_the_server() {
    let mut client = established(9001, 35100);
    let heartbeat = ClientAction::Send { message: Message::Heartbeat };

    assert_eq!(
        client.step(ClientEvent::FrameReceived(Message::CreateDataChannel)),
        ClientAction::OpenDataChannel { local_port: 9001 }
    );
    assert_eq!(client.step(ClientEvent::DataChannelStarted), WAIT_ANEW);
    assert_eq!(client.step(ClientEvent::FrameReceived(Message::Heartbeat)), heartbeat);
    assert_eq!(client.step(ClientEvent::Sent), WAIT_ANEW);
    assert_eq!(
        client.step(ClientEvent::FrameReceived(Message::TunnelRequest { local_port: 5 })),
        WAIT_ANEW
    );
    assert_eq!(
        client.step(ClientEvent::FrameReceived(Message::TunnelResponse { assigned_port: 5 })),
        WAIT_ANEW
    );
    assert_eq!(client.state, ClientState::Established { assigned_port: 35100, heard: false });
}

#[test]
fn own_heartbeat_does_not_move_the_receive_deadline() {
    let mut client = established(9001, 35100);
    let heartbeat = ClientAction::Send { message: Message::Heartbeat };

    assert_eq!(client.step(ClientEvent::HeartbeatDue), heartbeat);
    assert_eq!(client.step(ClientEvent::Sent), WAIT_ON);
    assert_eq!(client.step(ClientEvent::HeartbeatDue), heartbeat);
    assert_eq!(client.step(ClientEvent::Sent), WAIT_ON);
    assert_eq!(client.step(ClientEvent::ReadTimedOut), retry(ClientError::HeartbeatTimeout));

    let mut client = established(9001, 35100);
    assert_eq!(client.step(ClientEvent::FrameReceived(Message::Heartbeat)), heartbeat);
    assert_eq!(client.step(ClientEvent::Sent), WAIT_ANEW);
    assert_eq!(client.step(ClientEvent::HeartbeatDue), heartbeat);
    assert_eq!(client.step(ClientEvent::Sent), WAIT_ON);
}

#[test]
fn each_failure_is_named_and_retried() {
    let mut client = Client::new(ClientMode::Run, 9001);
    assert_eq!(client.step(ClientEvent::ConnectFailed), retry(ClientError::ConnectFailed));
    assert_eq!(client.state, ClientState::Backoff);
    assert_eq!(client.step(ClientEvent::RetryElapsed), ClientAction::Connect);
    assert_eq!(client.state, ClientState::Connecting);

    client.step(ClientEvent::Connected);
    assert_eq!(client.step(ClientEvent::SendFailed), retry(ClientError::ChannelFailed));
    client.step(ClientEvent::RetryElapsed);

    client.step(ClientEvent::Connected);
    client.step(ClientEvent::Sent);
    assert_eq!(
        client.step(ClientEvent::FrameReceived(Message::Heartbeat)),
        retry(ClientError::UnexpectedResponse)
    );
    client.step(ClientEvent::RetryElapsed);

    client.step(ClientEvent::Connected);
    client.step(ClientEvent::Sent);
    assert_eq!(client.step(ClientEvent::ReadTimedOut), retry(ClientError::UnexpectedResponse));
    client.step(ClientEvent::RetryElapsed);

    client.step(ClientEvent::Connected);
    client.step(ClientEvent::Sent);
    assert_eq!(client.step(ClientEvent::ReadFailed), retry(ClientError::ChannelFailed));
    assert_eq!(client.state, ClientState::Backoff);
}

#[test]
fn silent_server_is_a_heartbeat_timeout() {
    let mut client = established(9001, 35100);
    assert_eq!(client.step(ClientEvent::ReadTimedOut), retry(ClientError::HeartbeatTimeout));
    assert_eq!(client.state, ClientState::Backoff);
    assert_eq!(client.assigned_port(), None);
    assert_eq!(client.step(ClientEvent::RetryElapsed), ClientAction::Connect);
    assert_eq!(
        client.step(ClientEvent::Connected),
        ClientAction::Send { message: Message::TunnelRequest { local_port: 9001 } }
    );
}

#[test]
fn broken_control_channel_is_retried() {
    for failure in [ClientEvent::ReadFailed, ClientEvent::SendFailed] {
        let mut client = established(9001, 35100);
        assert_eq!(client.step(failure), retry(ClientError::ChannelFailed));
        assert_eq!(client.state, ClientState::Backoff);
    }
}

#[test]
fn shutdown_ends_the_client_from_every_state() {
    let shutdown = ClientAction::Finish { outcome: ClientOutcome::ShutdownRequested };
    for mode in [ClientMode::Probe, ClientMode::Run] {
        for state in [
            ClientState::Connecting,
            ClientState::Requesting,
            ClientState::AwaitingResponse,
            ClientState::Established { assigned_port: 35100, heard: false },
            ClientState::Established { assigned_port: 35100, heard: true },
            ClientState::Backoff,
        ] {
            let mut client = Client { mode, local_port: 9001, state };
            assert_eq!(client.step(ClientEvent::Shutdown), shutdown);
            assert_eq!(client.state, ClientState::Finished);
        }
    }
}
