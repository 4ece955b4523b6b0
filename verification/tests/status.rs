use links_nonblocking::status::{AcceptStatus, PollEventStatus, PoolAcceptStatus, RecvStatus, SendStatus};

#[test]
fn pool_accept_status_predicates() {
    assert!(PoolAcceptStatus::Accepted.is_accepted());
    assert!(!PoolAcceptStatus::Accepted.is_rejected());
    assert!(!PoolAcceptStatus::Accepted.is_wouldblock());
    assert!(PoolAcceptStatus::Rejected.is_rejected());
    assert!(!PoolAcceptStatus::Rejected.is_accepted());
    assert!(PoolAcceptStatus::WouldBlock.is_wouldblock());
    assert!(!PoolAcceptStatus::WouldBlock.is_accepted());
    PoolAcceptStatus::Accepted.unwrap_accepted();
    PoolAcceptStatus::Rejected.unwrap_rejected();
}

#[test]
fn accept_status_predicates_and_unwrap() {
    let accepted: AcceptStatus<u32> = AcceptStatus::Accepted(7);
    assert!(accepted.is_accepted());
    assert!(!accepted.is_rejected());
    assert!(!accepted.is_wouldblock());
    assert_eq!(accepted.unwrap_accepted(), 7);
    let rejected: AcceptStatus<u32> = AcceptStatus::Rejected;
    assert!(rejected.is_rejected() && !rejected.is_accepted() && !rejected.is_wouldblock());
    let wouldblock: AcceptStatus<u32> = AcceptStatus::WouldBlock;
    assert!(wouldblock.is_wouldblock() && !wouldblock.is_accepted() && !wouldblock.is_rejected());
}

#[test]
fn recv_status_predicates_and_unwrap() {
    let some: RecvStatus<&str> = RecvStatus::Completed(Some("msg"));
    assert!(some.is_completed() && some.is_completed_some() && !some.is_completed_none() && !some.is_wouldblock());
    assert_eq!(some.unwrap_completed_some(), "msg");
    let some_again: RecvStatus<&str> = RecvStatus::Completed(Some("msg"));
    some_again.unwrap_completed_none();
    let none: RecvStatus<&str> = RecvStatus::Completed(None);
    assert!(none.is_completed() && none.is_completed_none() && !none.is_completed_some() && !none.is_wouldblock());
    none.unwrap_completed_none();
    let wb: RecvStatus<&str> = RecvStatus::WouldBlock;
    assert!(wb.is_wouldblock() && !wb.is_completed() && !wb.is_completed_some() && !wb.is_completed_none());
    wb.unwrap_wouldblock();
}

#[test]
fn send_status_predicates_and_unwrap() {
    assert!(SendStatus::Completed.is_completed());
    assert!(!SendStatus::Completed.is_wouldblock());
    assert!(SendStatus::WouldBlock.is_wouldblock());
    assert!(!SendStatus::WouldBlock.is_completed());
    SendStatus::Completed.unwrap_completed();
    assert_eq!(SendStatus::Completed, SendStatus::Completed);
    assert_ne!(SendStatus::Completed, SendStatus::WouldBlock);
    assert_ne!(PollEventStatus::Completed, PollEventStatus::Terminate);
}
