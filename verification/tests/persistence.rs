use links_nonblocking::persistence::{InMemoryMessageLog, ProtocolStorage};

#[test]
fn test_in_memory_log() {
    let mut log = InMemoryMessageLog::<usize>::default();
    log.store(1);
    log.store(2);

    println!("log: {:?}", log);
    assert_eq!(log.len(), 2);

    for i in log.iter() {
        println!("i: {:?}", i);
    }
}

#[test]
fn in_memory_log_keeps_store_order() {
    let mut log = InMemoryMessageLog::new();
    assert!(log.is_empty());
    for m in ["login", "ping", "logout"] {
        log.store(m);
    }
    assert!(!log.is_empty());
    let stored: Vec<&str> = log.iter().copied().collect();
    assert_eq!(stored, vec!["login", "ping", "logout"]);
}
