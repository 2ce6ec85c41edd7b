use chat_bridge::{
    new_inbound_channel, on_call, on_text, process_frame, read_stream_system, validate_ws_url,
    BridgeError, Call, ChatHandle, Frame,
};

#[test]
fn a_decoded_frame_travels_through_the_queue() {
    let (tx, rx) = new_inbound_channel();
    on_text(&tx, &r#"{"handle":"pepe","message":"hi"}"#.to_string()).unwrap();
    let (events, disconnected) = read_stream_system(&rx);
    assert!(!disconnected);
    assert_eq!(events.len(), 1);
    assert_eq!(events[0].0.handle.0, "pepe");
    assert_eq!(events[0].0.message.0, "hi");
    // The queue is drained now.
    let (events, disconnected) = read_stream_system(&rx);
    assert!(events.is_empty());
    assert!(!disconnected);
}

#[test]
fn frames_are_observed_in_arrival_order() {
    let (tx, rx) = new_inbound_channel();
    for text in ["A", "B", "C"] {
        let frame = format!(r#"{{"handle":"tete","message":"{}"}}"#, text);
        on_text(&tx, &frame).unwrap();
    }
    let (events, _) = read_stream_system(&rx);
    let texts: Vec<String> = events.into_iter().map(|e| e.0.message.0).collect();
    assert_eq!(texts, ["A", "B", "C"]);
}

#[test]
fn a_malformed_frame_is_a_fatal_decode_error() {
    let (tx, rx) = new_inbound_channel();
    let err = on_text(&tx, &r#"{"handle": 5}"#.to_string()).unwrap_err();
    assert_eq!(err, BridgeError::DecodeError);
    // Nothing was forwarded: the error is the task's termination signal.
    let (events, _) = read_stream_system(&rx);
    assert!(events.is_empty());
}

#[test]
fn binary_frames_are_accepted_and_ignored() {
    let (tx, rx) = new_inbound_channel();
    process_frame(&tx, &Frame::Binary(vec![1, 2, 3])).unwrap();
    let (events, _) = read_stream_system(&rx);
    assert!(events.is_empty());
}

#[test]
fn text_frames_pass_through_process_frame() {
    let (tx, rx) = new_inbound_channel();
    process_frame(&tx, &Frame::Text(r#"{"handle":"tete","message":"m"}"#.to_string())).unwrap();
    assert_eq!(
        process_frame(&tx, &Frame::Text("nope".to_string())).unwrap_err(),
        BridgeError::DecodeError
    );
    let (events, _) = read_stream_system(&rx);
    assert_eq!(events.len(), 1);
}

#[test]
fn sending_without_a_consumer_is_a_transport_error() {
    let (tx, rx) = new_inbound_channel();
    drop(rx);
    let err = on_text(&tx, &r#"{"handle":"tete","message":"m"}"#.to_string()).unwrap_err();
    assert_eq!(err, BridgeError::TransportError);
}

#[test]
fn a_gone_network_side_is_reported_as_disconnected() {
    let (tx, rx) = new_inbound_channel();
    on_text(&tx, &r#"{"handle":"tete","message":"last"}"#.to_string()).unwrap();
    drop(tx);
    // What was queued still arrives, and the loss is signalled.
    let (events, disconnected) = read_stream_system(&rx);
    assert_eq!(events.len(), 1);
    assert!(disconnected);
}

#[test]
fn on_call_writes_the_outbound_frame() {
    let call = Call::NewLine(ChatHandle("tete".to_string()), "a \"quote\"".to_string());
    assert_eq!(on_call(&call), r#"{"handle":"tete","message":"a \"quote\""}"#);
}

#[test]
fn ws_addresses_are_accepted_and_parsed() {
    for url in ["ws://relay.example:9000/chat", "wss://relay.example/chat", "ws://x"] {
        let (w, address) = validate_ws_url(&url.to_string()).unwrap();
        assert_eq!(w.0, url);
        assert!(address.as_str().starts_with("ws"));
    }
}

#[test]
fn malformed_addresses_fail_with_connection_error() {
    // Both kinds of malformed address: a missing WebSocket scheme, and a
    // scheme whose remainder does not parse as a URL.
    for url in [
        "",
        "http://relay.example",
        "ws:/",
        "ws://",
        "wss://",
        "WS://x",
        "w",
        "ws:// ",
        "ws://exa mple.com",
    ] {
        assert_eq!(
            validate_ws_url(&url.to_string()).unwrap_err(),
            BridgeError::ConnectionError,
            "{}",
            url
        );
    }
}
