use rathole::port_allocator::AllocError;
use rathole::server::{
    on_listen_event, ListenAction, ListenEvent, PeerAddr, RegisterError, Server, PORT_RANGE_END,
    PORT_RANGE_START, QUEUE_CAPACITY,
};

fn peer(n: u16) -> PeerAddr {
    PeerAddr { ip: 0x7f00_0001, port: n }
}

#[test]
fn server_constants() {
    assert_eq!(PORT_RANGE_START, 35100);
    assert_eq!(PORT_RANGE_END, 35200);
    assert_eq!(QUEUE_CAPACITY, 32);
}

#[test]
fn third_client_finds_no_port_until_one_leaves() {
    let mut server: Server<&str> = Server::new(35100..35102);

    let first = server.allocate(|_| true).unwrap();
    assert_eq!(server.register(peer(1), first, "one"), Ok(()));
    let second = server.allocate(|_| true).unwrap();
    assert_eq!(server.register(peer(2), second, "two"), Ok(()));
    assert_eq!((first, second), (35100, 35101));

    assert_eq!(server.allocate(|_| true), Err(AllocError::NoPortsAvailable));
    assert_eq!(server.allocate(|_| true), Err(AllocError::NoPortsAvailable));
    assert_eq!(server.session_count(), 2);
    assert_eq!(server.allocated_count(), 2);

    assert!(server.close_session(peer(1), first));
    assert_eq!(server.session_count(), 1);
    assert_eq!(server.allocated_count(), 1);

    let third = server.allocate(|_| true).unwrap();
    assert_eq!(third, first);
    assert_eq!(server.register(peer(3), third, "three"), Ok(()));
    assert_eq!(server.lookup(peer(3)).map(|info| info.assigned_port), Some(35100));
}

#[test]
fn data_channel_finds_the_session_of_its_peer() {
    let mut server: Server<String> = Server::new(35100..35200);
    assert!(server.lookup(peer(1)).is_none());

    let port = server.allocate(|_| true).unwrap();
    server.register(peer(1), port, "queues of one".to_string()).unwrap();

    let info = server.lookup(peer(1)).unwrap();
    assert_eq!(info.peer, peer(1));
    assert_eq!(info.assigned_port, port);
    assert_eq!(info.handle, "queues of one");

    assert!(server.lookup(peer(2)).is_none());
    assert!(server.lookup(PeerAddr { ip: 1, port: 1 }).is_none());

    server.close_session(peer(1), port);
    assert!(server.lookup(peer(1)).is_none());
}

#[test]
fn register_needs_a_port_of_its_own() {
    let mut server: Server<u8> = Server::new(35100..35200);
    assert_eq!(server.register(peer(1), 35100, 1), Err(RegisterError::PortNotAllocated));
    assert_eq!(server.session_count(), 0);

    let port = server.allocate(|_| true).unwrap();
    assert_eq!(server.register(peer(1), port, 1), Ok(()));
    assert_eq!(server.register(peer(2), port, 2), Err(RegisterError::PortInUse));
    assert_eq!(server.session_count(), 1);
    assert_eq!(server.lookup(peer(1)).map(|info| info.handle), Some(1));
    assert!(server.lookup(peer(2)).is_none());
}

#[test]
fn a_peer_has_one_session() {
    let mut server: Server<u8> = Server::new(35100..35200);
    let first = server.allocate(|_| true).unwrap();
    server.register(peer(1), first, 1).unwrap();
    let second = server.allocate(|_| true).unwrap();
    server.register(peer(1), second, 2).unwrap();

    assert_eq!(server.session_count(), 1);
    let info = server.lookup(peer(1)).unwrap();
    assert_eq!((info.assigned_port, info.handle), (second, 2));
    assert_eq!(server.allocated_count(), 2);

    assert!(!server.close_session(peer(1), first));
    assert_eq!(server.session_count(), 1);
    assert_eq!(server.allocated_count(), 1);

    assert!(server.close_session(peer(1), second));
    assert_eq!(server.session_count(), 0);
    assert_eq!(server.allocated_count(), 0);

    server.register(peer(1), first, 3).unwrap_err();
}

#[test]
fn closing_releases_a_port_that_never_got_a_session() {
    let mut server: Server<u8> = Server::new(35100..35102);
    let port = server.allocate(|_| true).unwrap();
    assert_eq!(server.allocated_count(), 1);
    assert!(!server.close_session(peer(1), port));
    assert_eq!(server.allocated_count(), 0);
    assert_eq!(server.allocate(|_| true), Ok(port));
}

#[test]
fn closing_leaves_the_port_of_another_session_alone() {
    let mut server: Server<u8> = Server::new(35100..35102);
    let port = server.allocate(|_| true).unwrap();
    server.register(peer(1), port, 1).unwrap();

    assert!(!server.close_session(peer(2), port));
    assert_eq!(server.session_count(), 1);
    assert_eq!(server.allocated_count(), 1);
    assert_eq!(server.lookup(peer(1)).map(|info| info.assigned_port), Some(port));

    assert!(!server.close_session(peer(1), port + 1));
    assert_eq!(server.session_count(), 1);
    assert_eq!(server.allocated_count(), 1);
}

#[test]
fn sessions_never_share_a_port() {
    let mut server: Server<u16> = Server::new(35100..35110);
    let mut ports = Vec::new();
    for n in 0..10 {
        let port = server.allocate(|_| true).unwrap();
        server.register(peer(n), port, n).unwrap();
        ports.push(port);
    }
    ports.sort();
    ports.dedup();
    assert_eq!(ports.len(), 10);
    assert_eq!(server.session_count(), 10);
    for n in 0..10 {
        let info = server.lookup(peer(n)).unwrap();
        assert_eq!(info.handle, n);
        assert!((35100..35110).contains(&info.assigned_port));
    }
}

#[test]
fn only_shutdown_ends_the_listening_loop() {
    assert_eq!(on_listen_event(ListenEvent::Accepted), ListenAction::ServeThenAccept);
    assert_eq!(on_listen_event(ListenEvent::AcceptFailed), ListenAction::Accept);
    assert_eq!(on_listen_event(ListenEvent::Shutdown), ListenAction::Stop);
}

#[test]
fn closed_session_leaves_its_port_free_to_bind_again() {
    let mut server: Server<u8> = Server::new(PORT_RANGE_START..PORT_RANGE_END);
    let first = server.allocate(|_| true).unwrap();
    server.register(peer(1), first, 1).unwrap();
    let second = server.allocate(|_| true).unwrap();
    server.register(peer(2), second, 2).unwrap();
    assert_eq!((first, second), (35100, 35101));

    assert!(server.close_session(peer(1), first));
    assert!(server.lookup(peer(1)).is_none());
    assert_eq!(server.allocated_count(), 1);

    let asked = std::cell::RefCell::new(Vec::new());
    let again = server.allocate(|port| {
        asked.borrow_mut().push(port);
        true
    });
    assert_eq!(again, Ok(first));
    assert_eq!(*asked.borrow(), vec![first]);
}
