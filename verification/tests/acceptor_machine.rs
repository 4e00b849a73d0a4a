use rathole::acceptor::{AcceptorAction, AcceptorEvent, AcceptorState, PAIRING_TIMEOUT_SECS};
use rathole::protocol::Message;

fn awaiting_data_channel() -> AcceptorState {
    let mut acceptor = AcceptorState::new();
    acceptor.step(AcceptorEvent::VisitorAccepted);
    acceptor.step(AcceptorEvent::RequestQueued);
    acceptor
}

#[test]
fn visitor_is_paired_with_the_data_channel_asked_for() {
    let mut acceptor = AcceptorState::new();
    assert_eq!(acceptor, AcceptorState::Accepting);
    assert_eq!(AcceptorState::first_request(), AcceptorAction::Accept);

    assert_eq!(
        acceptor.step(AcceptorEvent::VisitorAccepted),
        AcceptorAction::Request { message: Message::CreateDataChannel }
    );
    assert_eq!(acceptor, AcceptorState::Requesting);

    assert_eq!(
        acceptor.step(AcceptorEvent::RequestQueued),
        AcceptorAction::AwaitDataChannel { timeout_secs: 10 }
    );
    assert_eq!(acceptor, AcceptorState::AwaitingDataChannel);
    assert_eq!(PAIRING_TIMEOUT_SECS, 10);

    assert_eq!(acceptor.step(AcceptorEvent::DataChannelArrived), AcceptorAction::PairThenAccept);
    assert_eq!(acceptor, AcceptorState::Accepting);

    assert_eq!(
        acceptor.step(AcceptorEvent::VisitorAccepted),
        AcceptorAction::Request { message: Message::CreateDataChannel }
    );
}

#[test]
fn visitor_without_data_channel_is_dropped_and_accepting_goes_on() {
    let mut acceptor = awaiting_data_channel();
    assert_eq!(
        acceptor.step(AcceptorEvent::PairingTimedOut),
        AcceptorAction::DropVisitorThenAccept
    );
    assert_eq!(acceptor, AcceptorState::Accepting);
    assert_eq!(
        acceptor.step(AcceptorEvent::VisitorAccepted),
        AcceptorAction::Request { message: Message::CreateDataChannel }
    );
}

#[test]
fn acceptor_stops_when_the_session_is_gone() {
    let mut acceptor = AcceptorState::new();
    acceptor.step(AcceptorEvent::VisitorAccepted);
    assert_eq!(
        acceptor.step(AcceptorEvent::RequestFailed),
        AcceptorAction::Stop { drop_visitor: true }
    );
    assert_eq!(acceptor, AcceptorState::Stopped);

    let mut acceptor = awaiting_data_channel();
    assert_eq!(
        acceptor.step(AcceptorEvent::DataQueueClosed),
        AcceptorAction::Stop { drop_visitor: true }
    );
    assert_eq!(acceptor, AcceptorState::Stopped);
    assert_eq!(acceptor.step(AcceptorEvent::VisitorAccepted), AcceptorAction::Done);
    assert_eq!(acceptor, AcceptorState::Stopped);
}

#[test]
fn acceptor_stops_when_accept_fails() {
    let mut acceptor = AcceptorState::new();
    assert_eq!(
        acceptor.step(AcceptorEvent::AcceptFailed),
        AcceptorAction::Stop { drop_visitor: false }
    );
    assert_eq!(acceptor, AcceptorState::Stopped);
}

#[test]
fn acceptor_stops_on_a_report_out_of_turn() {
    let mut acceptor = AcceptorState::new();
    assert_eq!(
        acceptor.step(AcceptorEvent::DataChannelArrived),
        AcceptorAction::Stop { drop_visitor: false }
    );

    let mut acceptor = awaiting_data_channel();
    assert_eq!(
        acceptor.step(AcceptorEvent::VisitorAccepted),
        AcceptorAction::Stop { drop_visitor: true }
    );
}
