use links_nonblocking::busywait::{
    accept_busywait_step, accept_timeout_step, may_retry_connect, pool_accept_busywait_step, pool_accept_timeout_step,
    pool_recv_busywait_step, pool_recv_timeout_step, pool_send_busywait_step, pool_send_timeout_step, recv_busywait_step,
    recv_timeout_step, send_busywait_step, send_timeout_step, timed_out, BusyWaitStep,
};
use links_nonblocking::status::{AcceptStatus, PoolAcceptStatus, RecvStatus, SendStatus};

#[test]
fn timeout_is_strict() {
    assert!(!timed_out(100, 100));
    assert!(timed_out(101, 100));
    assert!(!timed_out(0, 0));
    assert!(may_retry_connect(99, 100));
    assert!(!may_retry_connect(100, 100));
}

#[test]
fn recv_steps() {
    assert_eq!(recv_timeout_step(RecvStatus::Completed(Some(5)), 0, 10), BusyWaitStep::Return(RecvStatus::Completed(Some(5))));
    assert_eq!(recv_timeout_step(RecvStatus::<u8>::Completed(None), 50, 10), BusyWaitStep::Return(RecvStatus::Completed(None)));
    assert_eq!(recv_timeout_step(RecvStatus::<u8>::WouldBlock, 10, 10), BusyWaitStep::Retry);
    assert_eq!(recv_timeout_step(RecvStatus::<u8>::WouldBlock, 11, 10), BusyWaitStep::Return(RecvStatus::WouldBlock));
    assert_eq!(recv_busywait_step(RecvStatus::Completed(Some(1u8))), BusyWaitStep::Return(Some(1)));
    assert_eq!(recv_busywait_step(RecvStatus::<u8>::Completed(None)), BusyWaitStep::Return(None));
    assert_eq!(recv_busywait_step(RecvStatus::<u8>::WouldBlock), BusyWaitStep::Retry);
}

#[test]
fn send_steps() {
    assert_eq!(send_timeout_step(SendStatus::Completed, 99, 1), BusyWaitStep::Return(SendStatus::Completed));
    assert_eq!(send_timeout_step(SendStatus::WouldBlock, 1, 1), BusyWaitStep::Retry);
    assert_eq!(send_timeout_step(SendStatus::WouldBlock, 2, 1), BusyWaitStep::Return(SendStatus::WouldBlock));
    assert_eq!(send_busywait_step(SendStatus::Completed), BusyWaitStep::Return(()));
    assert_eq!(send_busywait_step(SendStatus::WouldBlock), BusyWaitStep::Retry);
}

#[test]
fn accept_steps() {
    assert_eq!(accept_timeout_step(AcceptStatus::Accepted('c'), 0, 0), BusyWaitStep::Return(AcceptStatus::Accepted('c')));
    assert_eq!(accept_timeout_step(AcceptStatus::<char>::Rejected, 0, 0), BusyWaitStep::Return(AcceptStatus::Rejected));
    assert_eq!(accept_timeout_step(AcceptStatus::<char>::WouldBlock, 0, 0), BusyWaitStep::Retry);
    assert_eq!(accept_timeout_step(AcceptStatus::<char>::WouldBlock, 1, 0), BusyWaitStep::Return(AcceptStatus::WouldBlock));
    assert_eq!(accept_busywait_step(AcceptStatus::Accepted('c')), BusyWaitStep::Return('c'));
    assert_eq!(accept_busywait_step(AcceptStatus::<char>::Rejected), BusyWaitStep::Retry);
    assert_eq!(accept_busywait_step(AcceptStatus::<char>::WouldBlock), BusyWaitStep::Retry);
    assert_eq!(pool_accept_timeout_step(PoolAcceptStatus::Accepted, 9, 5), BusyWaitStep::Return(PoolAcceptStatus::Accepted));
    assert_eq!(pool_accept_timeout_step(PoolAcceptStatus::Rejected, 0, 5), BusyWaitStep::Return(PoolAcceptStatus::Rejected));
    assert_eq!(pool_accept_timeout_step(PoolAcceptStatus::Rejected, 6, 5), BusyWaitStep::Return(PoolAcceptStatus::Rejected));
    assert_eq!(pool_accept_timeout_step(PoolAcceptStatus::WouldBlock, 5, 5), BusyWaitStep::Retry);
    assert_eq!(pool_accept_timeout_step(PoolAcceptStatus::WouldBlock, 6, 5), BusyWaitStep::Return(PoolAcceptStatus::WouldBlock));
    assert_eq!(pool_accept_busywait_step(PoolAcceptStatus::Accepted), BusyWaitStep::Return(PoolAcceptStatus::Accepted));
    assert_eq!(pool_accept_busywait_step(PoolAcceptStatus::WouldBlock), BusyWaitStep::Retry);
    assert_eq!(pool_accept_busywait_step(PoolAcceptStatus::Rejected), BusyWaitStep::Retry);
}

#[test]
fn pool_steps_retry_not_connected_until_timeout() {
    let err = || -> Result<RecvStatus<u8>, &str> { Err("not connected") };
    assert_eq!(pool_recv_timeout_step(err(), true, 3, 5), BusyWaitStep::Retry);
    assert_eq!(pool_recv_timeout_step(err(), true, 6, 5), BusyWaitStep::Return(Err("not connected")));
    assert_eq!(pool_recv_timeout_step(err(), false, 0, 5), BusyWaitStep::Return(Err("not connected")));
    assert_eq!(pool_recv_timeout_step(Ok::<RecvStatus<u8>, &str>(RecvStatus::WouldBlock), false, 6, 5), BusyWaitStep::Return(Ok(RecvStatus::WouldBlock)));
    assert_eq!(pool_recv_busywait_step(Ok::<RecvStatus<u8>, &str>(RecvStatus::Completed(Some(3))), false), BusyWaitStep::Return(Ok(Some(3))));
    assert_eq!(pool_recv_busywait_step(err(), true), BusyWaitStep::Retry);
    assert_eq!(pool_recv_busywait_step(err(), false), BusyWaitStep::Return(Err("not connected")));
    let serr = || -> Result<SendStatus, &str> { Err("dead") };
    assert_eq!(pool_send_timeout_step(serr(), true, 0, 1), BusyWaitStep::Retry);
    assert_eq!(pool_send_timeout_step(serr(), true, 2, 1), BusyWaitStep::Return(Err("dead")));
    assert_eq!(pool_send_timeout_step(Ok::<SendStatus, &str>(SendStatus::Completed), false, 2, 1), BusyWaitStep::Return(Ok(SendStatus::Completed)));
    assert_eq!(pool_send_busywait_step(serr(), true), BusyWaitStep::Retry);
    assert_eq!(pool_send_busywait_step(serr(), false), BusyWaitStep::Return(Err("dead")));
    assert_eq!(pool_send_busywait_step(Ok::<SendStatus, &str>(SendStatus::WouldBlock), false), BusyWaitStep::Retry);
}
