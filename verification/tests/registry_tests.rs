use sync_hub::registry::Registry;
use tokio::sync::mpsc::unbounded_channel;
use warp::ws::Message;

#[test]
fn membership_tracks_register_and_deregister() {
    let mut reg = Registry::new();
    assert_eq!(reg.len(), 0);
    let (tx1, _rx1) = unbounded_channel::<Message>();
    let (tx2, _rx2) = unbounded_channel::<Message>();
    reg.register(1, tx1);
    reg.register(2, tx2);
    assert_eq!(reg.len(), 2);
    assert!(reg.contains(1) && reg.contains(2));
    assert!(!reg.contains(3));

    // Removing an identifier that was never admitted is a quiet no-op.
    reg.deregister(3);
    assert_eq!(reg.len(), 2);

    reg.deregister(1);
    assert_eq!(reg.len(), 1);
    assert!(!reg.contains(1) && reg.contains(2));
}

#[test]
fn broadcast_reaches_all_but_the_excluded() {
    let mut reg = Registry::new();
    let (tx1, mut rx1) = unbounded_channel::<Message>();
    let (tx2, mut rx2) = unbounded_channel::<Message>();
    let (tx3, mut rx3) = unbounded_channel::<Message>();
    reg.register(1, tx1);
    reg.register(2, tx2);
    reg.register(3, tx3);

    let fanout = reg.broadcast(2, "hello");
    let mut sorted = fanout.recipients.clone();
    sorted.sort_unstable();
    assert_eq!(sorted, vec![1, 3]);
    assert_eq!(fanout.failed.len(), 0);

    assert_eq!(rx1.try_recv().unwrap().to_str().unwrap(), "hello");
    assert_eq!(rx3.try_recv().unwrap().to_str().unwrap(), "hello");
    assert!(rx1.try_recv().is_err());
    assert!(rx2.try_recv().is_err());
    assert!(rx3.try_recv().is_err());
}

#[test]
fn broadcast_to_empty_or_lone_registry_reaches_nobody() {
    let reg = Registry::new();
    assert_eq!(reg.broadcast(7, "x").recipients.len(), 0);

    let mut reg = Registry::new();
    let (tx, mut rx) = unbounded_channel::<Message>();
    reg.register(7, tx);
    assert_eq!(reg.broadcast(7, "x").recipients.len(), 0);
    assert!(rx.try_recv().is_err());
}

#[test]
fn broadcast_reports_defunct_recipients() {
    let mut reg = Registry::new();
    let (tx1, rx1) = unbounded_channel::<Message>();
    let (tx2, mut rx2) = unbounded_channel::<Message>();
    reg.register(1, tx1);
    reg.register(2, tx2);

    // 1's consumer is gone: its enqueue fails, is reported, and delivery to
    // 2 still happens.
    drop(rx1);
    let fanout = reg.broadcast(3, "hello");
    let mut sorted = fanout.recipients.clone();
    sorted.sort_unstable();
    assert_eq!(sorted, vec![1, 2]);
    assert_eq!(fanout.failed, vec![1]);
    assert_eq!(rx2.try_recv().unwrap().to_str().unwrap(), "hello");
}
