use arb_engine::feed::{build_subscribe_msgs, is_heartbeat, Backoff, PING_INTERVAL_SECS};

#[test]
fn backoff_doubles_and_caps_at_sixty() {
    let mut b = Backoff::new();
    let mut delays = Vec::new();
    for _ in 0..9 {
        delays.push(b.next_delay());
    }
    assert_eq!(delays, vec![1, 2, 4, 8, 16, 32, 60, 60, 60]);
}

#[test]
fn successful_reconnect_resets_backoff() {
    let mut b = Backoff::new();
    for _ in 0..7 {
        b.next_delay();
    }
    b.reset();
    assert_eq!(b.next_delay(), 1);
    assert_eq!(b.next_delay(), 2);
}

#[test]
fn heartbeat_payloads_are_recognized() {
    assert!(is_heartbeat("[]"));
    assert!(!is_heartbeat(""));
    assert!(!is_heartbeat("{}"));
    assert!(!is_heartbeat("[] "));
}

#[test]
fn subscribe_messages_chunk_fifty_assets() {
    let tokens: Vec<String> = (0..120).map(|i| format!("tok-{}", i)).collect();
    let msgs = build_subscribe_msgs(&tokens);
    assert_eq!(msgs.len(), 3);
    assert_eq!(msgs[0].asset_ids.len(), 50);
    assert_eq!(msgs[1].asset_ids.len(), 50);
    assert_eq!(msgs[2].asset_ids.len(), 20);
    assert_eq!(msgs[0].msg_type, "subscribe");
    assert_eq!(msgs[0].channels, vec!["book".to_string()]);
    assert_eq!(msgs[0].asset_ids[0], "tok-0");
    assert_eq!(msgs[1].asset_ids[0], "tok-50");
    assert_eq!(msgs[2].asset_ids[19], "tok-119");
}

#[test]
fn no_tokens_means_no_subscribe_messages() {
    let msgs = build_subscribe_msgs(&Vec::new());
    assert!(msgs.is_empty());
}

#[test]
fn ping_interval_is_twenty_units() {
    assert_eq!(PING_INTERVAL_SECS, 20);
}
