use links_nonblocking::gate::{svc_pool_size, ConnectionGate, ShutdownLatch, SVC_MAX_CONNECTIONS_2_POOL_SIZE_FACTOR};

#[test]
fn gate_rejects_beyond_max_and_reopens_on_release() {
    let mut gate = ConnectionGate::new(2);
    assert_eq!(gate.max_connections(), 2);
    assert!(gate.increment());
    assert!(gate.increment());
    assert!(!gate.increment());
    assert_eq!(gate.active(), 2);
    gate.release();
    assert_eq!(gate.active(), 1);
    assert!(gate.increment());
}

#[test]
fn svc_pool_is_twice_the_connections() {
    assert_eq!(SVC_MAX_CONNECTIONS_2_POOL_SIZE_FACTOR, 2);
    assert_eq!(svc_pool_size(1), 2);
    assert_eq!(svc_pool_size(5), 10);
}

#[test]
fn shutdown_latch_sends_until_total() {
    let mut latch = ShutdownLatch::new();
    assert!(!latch.is_shut_down());
    assert!(latch.request(false));
    assert!(!latch.is_shut_down());
    assert!(latch.request(true));
    assert!(latch.is_shut_down());
    // a second total shutdown is not sent again
    assert!(!latch.request(true));
    assert!(!latch.request(false));
}
