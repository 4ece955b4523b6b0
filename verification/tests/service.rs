use links_nonblocking::busywait::BusyWaitStep;
use links_nonblocking::service::{
    acceptor_step, heartbeat_verdict, poll_event_status, recver_verdict, retained_on_shutdown, sender_step, waker_step, AcceptorStep,
    HeartbeatVerdict, RecverVerdict, SendHook, SenderStep, ServicePass, ServiceableKind, WakerDelivery, WakerStep,
};
use links_nonblocking::status::{AcceptStatus, PollEventStatus, RecvStatus, SendStatus};

#[test]
fn poll_events_of_receives() {
    assert_eq!(poll_event_status(&RecvStatus::Completed(Some(1))), PollEventStatus::Completed);
    assert_eq!(poll_event_status(&RecvStatus::<u8>::Completed(None)), PollEventStatus::Terminate);
    assert_eq!(poll_event_status(&RecvStatus::<u8>::WouldBlock), PollEventStatus::WouldBlock);
}

#[test]
fn recver_and_acceptor_verdicts() {
    assert_eq!(recver_verdict(&Ok::<PollEventStatus, ()>(PollEventStatus::Completed)), RecverVerdict::Yielded);
    assert_eq!(recver_verdict(&Ok::<PollEventStatus, ()>(PollEventStatus::WouldBlock)), RecverVerdict::Idle);
    assert_eq!(recver_verdict(&Ok::<PollEventStatus, ()>(PollEventStatus::Terminate)), RecverVerdict::Retire);
    assert_eq!(recver_verdict(&Err::<PollEventStatus, ()>(())), RecverVerdict::Retire);
    assert_eq!(acceptor_step(Ok::<AcceptStatus<u8>, ()>(AcceptStatus::Accepted(9))), AcceptorStep::Register(9));
    assert_eq!(acceptor_step(Ok::<AcceptStatus<u8>, ()>(AcceptStatus::Rejected)), AcceptorStep::Yielded);
    assert_eq!(acceptor_step(Ok::<AcceptStatus<u8>, ()>(AcceptStatus::WouldBlock)), AcceptorStep::Idle);
    assert_eq!(acceptor_step(Err::<AcceptStatus<u8>, &str>("boom")), AcceptorStep::Retire("boom"));
}

#[test]
fn waker_and_shutdown_rules() {
    assert_eq!(waker_step(WakerDelivery::<u8, u8>::Serviceable(1)), WakerStep::Register(1));
    assert_eq!(waker_step(WakerDelivery::<u8, u8>::ShutdownLineage(2)), WakerStep::RetireLineage(2));
    assert_eq!(waker_step(WakerDelivery::<u8, u8>::ShutdownAll), WakerStep::TerminateAll);
    assert_eq!(waker_step(WakerDelivery::<u8, u8>::Empty), WakerStep::Idle);
    assert_eq!(waker_step(WakerDelivery::<u8, u8>::Disconnected), WakerStep::TerminateAll);
    assert!(!retained_on_shutdown(ServiceableKind::Recver, true, false));
    assert!(!retained_on_shutdown(ServiceableKind::Recver, false, true));
    assert!(retained_on_shutdown(ServiceableKind::Acceptor, false, false));
    assert!(retained_on_shutdown(ServiceableKind::Waker, false, true));
    assert!(!retained_on_shutdown(ServiceableKind::Waker, true, false));
}

#[test]
fn service_pass_repeats_while_yielding() {
    let mut pass = ServicePass::new();
    assert!(!pass.needs_another_pass());
    pass.note_yield();
    assert!(pass.needs_another_pass());
}

#[test]
fn sender_hooks_fire_once_per_send() {
    assert_eq!(
        sender_step(Ok::<SendStatus, ()>(SendStatus::Completed), false),
        SenderStep { step: BusyWaitStep::Return(Ok(SendStatus::Completed)), hook: Some(SendHook::Sent) }
    );
    assert_eq!(
        sender_step(Ok::<SendStatus, ()>(SendStatus::WouldBlock), true),
        SenderStep { step: BusyWaitStep::Return(Ok(SendStatus::WouldBlock)), hook: Some(SendHook::WouldBlock) }
    );
    assert_eq!(sender_step(Ok::<SendStatus, ()>(SendStatus::WouldBlock), false), SenderStep { step: BusyWaitStep::Retry, hook: None });
    assert_eq!(sender_step(Err::<SendStatus, &str>("x"), false), SenderStep { step: BusyWaitStep::Return(Err("x")), hook: Some(SendHook::Error) });
    assert_eq!(heartbeat_verdict(&Ok::<SendStatus, ()>(SendStatus::Completed)), HeartbeatVerdict::Completed);
    assert_eq!(heartbeat_verdict(&Ok::<SendStatus, ()>(SendStatus::WouldBlock)), HeartbeatVerdict::RetryNow);
    assert_eq!(heartbeat_verdict(&Err::<SendStatus, ()>(())), HeartbeatVerdict::Terminate);
}

use links_nonblocking::service::{same_lineage, ConSide, Lineage};

fn lineage(side: ConSide, name: &str, addr: &str) -> Lineage {
    Lineage { side, name: name.to_string(), service_addr: addr.to_string() }
}

#[test]
fn lineage_needs_same_side_name_and_service_address() {
    let a = lineage(ConSide::Clt, "clt1", "127.0.0.1:8080");
    assert!(same_lineage(&a, &lineage(ConSide::Clt, "clt1", "127.0.0.1:8080")));
    assert!(!same_lineage(&a, &lineage(ConSide::Svc, "clt1", "127.0.0.1:8080")));
    assert!(!same_lineage(&a, &lineage(ConSide::Clt, "clt2", "127.0.0.1:8080")));
    assert!(!same_lineage(&a, &lineage(ConSide::Clt, "clt1", "127.0.0.1:8081")));
}

use links_nonblocking::service::entries_to_retire;

#[test]
fn shutdown_retires_the_covered_entries_in_order() {
    let entries = vec![
        (0usize, ServiceableKind::Waker, false),
        (3, ServiceableKind::Acceptor, true),
        (4, ServiceableKind::Recver, false),
        (7, ServiceableKind::Recver, true),
    ];
    assert_eq!(entries_to_retire(&entries, false), vec![3, 7]);
    assert_eq!(entries_to_retire(&entries, true), vec![0, 3, 4, 7]);
    assert_eq!(entries_to_retire(&Vec::new(), true), Vec::<usize>::new());
}
