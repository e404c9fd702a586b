use sync_hub::hub::{admit_connection, admit_with, handle_text_frame};
use sync_hub::registry::Registry;
use tokio::sync::mpsc::unbounded_channel;
use tokio::sync::mpsc::UnboundedReceiver;
use warp::ws::Message;

fn admit_one(reg: &mut Registry) -> (u128, UnboundedReceiver<Message>) {
    let (tx, rx) = unbounded_channel::<Message>();
    let id = admit_connection(reg, tx).expect("fresh identifier");
    (id, rx)
}

fn drain_texts(rx: &mut UnboundedReceiver<Message>) -> Vec<String> {
    let mut out = Vec::new();
    while let Ok(msg) = rx.try_recv() {
        out.push(msg.to_str().expect("text frame").to_string());
    }
    out
}

#[test]
fn broadcast_excludes_sender() {
    let mut reg = Registry::new();
    let (a, mut rx_a) = admit_one(&mut reg);
    let (b, mut rx_b) = admit_one(&mut reg);
    let (c, mut rx_c) = admit_one(&mut reg);

    let d = handle_text_frame(&reg, a, "{\"type\":\"user_update\",\"data\":{\"x\":1}}");
    assert!(d.payload.is_some());
    assert_eq!(d.recipients.len(), 2);
    assert!(d.recipients.contains(&b));
    assert!(d.recipients.contains(&c));
    assert!(!d.recipients.contains(&a));

    let payload = d.payload.unwrap();
    assert_eq!(d.failed.len(), 0);
    assert_eq!(drain_texts(&mut rx_a).len(), 0);
    assert_eq!(drain_texts(&mut rx_b), vec![payload.clone()]);
    assert_eq!(drain_texts(&mut rx_c), vec![payload]);
}

#[test]
fn envelope_normalization() {
    let mut reg = Registry::new();
    let (a, _rx_a) = admit_one(&mut reg);
    let (_b, mut rx_b) = admit_one(&mut reg);

    let d = handle_text_frame(&reg, a, "{\"type\":\"user_update\",\"data\":{\"x\":1}}");
    let payload = d.payload.expect("a user_update is broadcast");
    assert_eq!(drain_texts(&mut rx_b), vec![payload.clone()]);

    let v: serde_json::Value = serde_json::from_str(&payload).expect("payload is JSON");
    let obj = v.as_object().expect("payload is an object");
    assert_eq!(obj.len(), 3);
    assert_eq!(obj.get("type").and_then(|t| t.as_str()), Some("user_update"));
    let expected_data: serde_json::Value = serde_json::from_str("{\"x\":1}").unwrap();
    assert_eq!(obj.get("data"), Some(&expected_data));
    let ts = obj
        .get("timestamp")
        .and_then(|t| t.as_str())
        .expect("timestamp is a string");
    assert!(chrono::DateTime::parse_from_rfc3339(ts).is_ok());
}

#[test]
fn unknown_type_is_inert() {
    let mut reg = Registry::new();
    let (a, mut rx_a) = admit_one(&mut reg);
    let (_b, mut rx_b) = admit_one(&mut reg);

    let d = handle_text_frame(&reg, a, "{\"type\":\"ping\"}");
    assert!(d.payload.is_none());
    assert_eq!(d.recipients.len(), 0);
    assert_eq!(drain_texts(&mut rx_a).len(), 0);
    assert_eq!(drain_texts(&mut rx_b).len(), 0);

    let d = handle_text_frame(&reg, a, "{\"data\":{\"x\":1}}");
    assert!(d.payload.is_none());
    assert_eq!(drain_texts(&mut rx_b).len(), 0);
}

#[test]
fn malformed_frame_is_tolerated() {
    let mut reg = Registry::new();
    let (a, _rx_a) = admit_one(&mut reg);
    let (_b, mut rx_b) = admit_one(&mut reg);

    for bad in ["not json", "", "[1,2,3]", "\"user_update\"", "42", "{\"type\":5}"] {
        let d = handle_text_frame(&reg, a, bad);
        assert!(d.payload.is_none());
        assert_eq!(d.recipients.len(), 0);
    }
    assert_eq!(drain_texts(&mut rx_b).len(), 0);

    // The connection stays usable: a later well-formed frame still fans out.
    let d = handle_text_frame(&reg, a, "{\"type\":\"user_update\"}");
    assert!(d.payload.is_some());
    assert_eq!(drain_texts(&mut rx_b).len(), 1);
}

#[test]
fn teardown_is_idempotent() {
    let mut reg = Registry::new();
    let (a, _rx_a) = admit_one(&mut reg);
    let (b, _rx_b) = admit_one(&mut reg);

    reg.deregister(b);
    assert_eq!(reg.len(), 1);
    assert!(reg.contains(a));
    assert!(!reg.contains(b));

    // The second teardown — both loops failing concurrently — changes nothing.
    reg.deregister(b);
    assert_eq!(reg.len(), 1);
    assert!(reg.contains(a));
    assert!(!reg.contains(b));
}

#[test]
fn no_self_delivery_when_peer_leaves() {
    let mut reg = Registry::new();
    let (a, mut rx_a) = admit_one(&mut reg);
    let (b, mut rx_b) = admit_one(&mut reg);
    let (c, mut rx_c) = admit_one(&mut reg);

    // B's removal completes before A's broadcast: delivery to C alone.
    reg.deregister(b);
    let d = handle_text_frame(&reg, a, "{\"type\":\"user_update\",\"data\":1}");
    assert_eq!(d.recipients, vec![c]);
    assert_eq!(drain_texts(&mut rx_b).len(), 0);
    assert_eq!(drain_texts(&mut rx_c).len(), 1);
    assert_eq!(drain_texts(&mut rx_a).len(), 0);
}

#[test]
fn delivery_to_peer_not_yet_removed() {
    let mut reg = Registry::new();
    let (a, mut rx_a) = admit_one(&mut reg);
    let (b, mut rx_b) = admit_one(&mut reg);
    let (c, mut rx_c) = admit_one(&mut reg);

    // A's broadcast lands before B's removal: B still receives it.
    let d = handle_text_frame(&reg, a, "{\"type\":\"user_update\",\"data\":1}");
    reg.deregister(b);
    assert_eq!(d.recipients.len(), 2);
    assert!(d.recipients.contains(&b) && d.recipients.contains(&c));
    assert_eq!(drain_texts(&mut rx_b).len(), 1);
    assert_eq!(drain_texts(&mut rx_c).len(), 1);
    assert_eq!(drain_texts(&mut rx_a).len(), 0);
}

#[test]
fn defunct_recipient_does_not_abort_broadcast() {
    let mut reg = Registry::new();
    let (a, _rx_a) = admit_one(&mut reg);
    let (b, rx_b) = admit_one(&mut reg);
    let (_c, mut rx_c) = admit_one(&mut reg);

    // B's consumer is already gone; the failure is reported and delivery to
    // C must still happen.
    drop(rx_b);
    let d = handle_text_frame(&reg, a, "{\"type\":\"user_update\",\"data\":1}");
    assert!(d.payload.is_some());
    assert_eq!(d.failed, vec![b]);
    assert_eq!(drain_texts(&mut rx_c).len(), 1);
}

#[test]
fn admission_owes_success_to_fresh_identifiers() {
    let mut reg = Registry::new();
    let (tx1, _rx1) = unbounded_channel::<Message>();
    let (tx2, _rx2) = unbounded_channel::<Message>();
    let (tx3, _rx3) = unbounded_channel::<Message>();

    assert!(admit_with(&mut reg, 7, tx1));
    assert!(reg.contains(7));

    // The same identifier again: declined, registry untouched.
    assert!(!admit_with(&mut reg, 7, tx2));
    assert_eq!(reg.len(), 1);

    assert!(admit_with(&mut reg, 8, tx3));
    assert_eq!(reg.len(), 2);
}

#[test]
fn identifier_uniqueness() {
    let mut reg = Registry::new();
    let mut ids: Vec<u128> = Vec::new();
    for _ in 0..10_000 {
        let (tx, _rx) = unbounded_channel::<Message>();
        let id = admit_connection(&mut reg, tx).expect("fresh identifier");
        ids.push(id);
    }
    assert_eq!(reg.len(), 10_000);
    ids.sort_unstable();
    for w in ids.windows(2) {
        assert!(w[0] != w[1]);
    }
}

#[test]
fn per_recipient_order_is_kept() {
    let mut reg = Registry::new();
    let (a, _rx_a) = admit_one(&mut reg);
    let (_b, mut rx_b) = admit_one(&mut reg);

    let first = handle_text_frame(&reg, a, "{\"type\":\"user_update\",\"data\":1}")
        .payload
        .unwrap();
    let second = handle_text_frame(&reg, a, "{\"type\":\"user_update\",\"data\":2}")
        .payload
        .unwrap();
    assert_eq!(drain_texts(&mut rx_b), vec![first, second]);
}
