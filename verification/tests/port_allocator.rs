use rathole::port_allocator::{AllocError, PortAllocator};

#[test]
fn test_allocate_and_release() {
    let mut allocator = PortAllocator::new(35100..35110);

    let port1 = allocator.allocate(|_| true).unwrap();
    assert!(port1 >= 35100 && port1 < 35110);

    let port2 = allocator.allocate(|_| true).unwrap();
    assert!(port2 >= 35100 && port2 < 35110);
    assert_ne!(port1, port2);

    allocator.release(port1);

    let port3 = allocator.allocate(|_| true).unwrap();
    assert!(port3 >= 35100 && port3 < 35110);
}

#[test]
fn test_port_exhaustion() {
    let mut allocator = PortAllocator::new(35100..35102);

    let port1 = allocator.allocate(|_| true).unwrap();
    let _port2 = allocator.allocate(|_| true).unwrap();

    let result = allocator.allocate(|_| true);
    assert!(result.is_err());

    allocator.release(port1);
    let port3 = allocator.allocate(|_| true);
    assert!(port3.is_ok());
}

#[test]
fn ports_come_lowest_first() {
    let mut allocator = PortAllocator::new(35100..35104);
    assert_eq!(allocator.allocate(|_| true), Ok(35100));
    assert_eq!(allocator.allocate(|_| true), Ok(35101));
    assert_eq!(allocator.allocate(|_| true), Ok(35102));
    allocator.release(35101);
    assert_eq!(allocator.allocate(|_| true), Ok(35101));
    assert_eq!(allocator.allocate(|_| true), Ok(35103));
    assert_eq!(allocator.allocate(|_| true), Err(AllocError::NoPortsAvailable));
}

#[test]
fn allocated_port_is_in_range_and_busy() {
    let mut allocator = PortAllocator::new(40000..40003);
    for _ in 0..3 {
        let port = allocator.allocate(|_| true).unwrap();
        assert!((40000..40003).contains(&port));
        assert!(allocator.is_allocated(port));
    }
    assert_eq!(allocator.allocated_count(), 3);
    assert!(!allocator.is_allocated(39999));
    assert!(!allocator.is_allocated(40003));
}

#[test]
fn released_port_is_not_busy() {
    let mut allocator = PortAllocator::new(40000..40003);
    let port = allocator.allocate(|_| true).unwrap();
    assert!(allocator.is_allocated(port));
    allocator.release(port);
    assert!(!allocator.is_allocated(port));
    assert_eq!(allocator.allocated_count(), 0);

    allocator.release(port);
    assert!(!allocator.is_allocated(port));
    assert_eq!(allocator.allocated_count(), 0);

    allocator.release(12345);
    assert_eq!(allocator.allocated_count(), 0);
}

#[test]
fn ports_that_do_not_bind_are_passed_over() {
    let mut allocator = PortAllocator::new(35100..35105);
    assert_eq!(allocator.allocate(|port| port >= 35102), Ok(35102));
    assert!(!allocator.is_allocated(35100));
    assert!(!allocator.is_allocated(35101));
    assert_eq!(allocator.allocate(|port| port % 2 == 0), Ok(35100));
    assert_eq!(allocator.allocate(|port| port % 2 == 0), Ok(35104));
    assert_eq!(
        allocator.allocate(|port| port % 2 == 0),
        Err(AllocError::NoPortsAvailable)
    );
    assert_eq!(allocator.allocated_count(), 3);
    assert_eq!(allocator.allocate(|_| false), Err(AllocError::NoPortsAvailable));
    assert_eq!(allocator.allocate(|_| true), Ok(35101));
}

#[test]
fn probe_sees_only_free_ports_in_ascending_order() {
    let mut allocator = PortAllocator::new(35100..35104);
    assert_eq!(allocator.allocate(|port| port == 35101), Ok(35101));

    let asked = std::cell::RefCell::new(Vec::new());
    let result = allocator.allocate(|port| {
        asked.borrow_mut().push(port);
        port == 35103
    });
    assert_eq!(result, Ok(35103));
    assert_eq!(*asked.borrow(), vec![35100, 35102, 35103]);
}

#[test]
fn empty_range_has_no_ports() {
    let mut allocator = PortAllocator::new(35100..35100);
    assert_eq!(allocator.allocate(|_| true), Err(AllocError::NoPortsAvailable));
    let mut allocator = PortAllocator::new(35100..35000);
    assert_eq!(allocator.allocate(|_| true), Err(AllocError::NoPortsAvailable));
    assert_eq!(allocator.allocated_count(), 0);
}

#[test]
fn range_may_reach_the_highest_port() {
    let mut allocator = PortAllocator::new(65533..65535);
    assert_eq!(allocator.allocate(|_| true), Ok(65533));
    assert_eq!(allocator.allocate(|_| true), Ok(65534));
    assert_eq!(allocator.allocate(|_| true), Err(AllocError::NoPortsAvailable));
}
