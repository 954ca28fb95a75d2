use fish_bot::adapter::{legacy_item_payload, parse_legacy_event, process_legacy_frame, InboundEvent};
use fish_bot::json::Json;

fn b64(bytes: &[u8]) -> String {
    base64::Engine::encode(&base64::engine::general_purpose::STANDARD, bytes)
}

fn j(text: &str) -> Json {
    Json::parse(text).unwrap()
}

#[test]
fn legacy_payload_reads_base64_json() {
    let raw = b64(br#"{"1": {"2": "c@goofish"}}"#);
    let v = legacy_item_payload(&raw).unwrap();
    assert_eq!(v.get("1").and_then(|b| b.get_str("2")), Some("c@goofish"));
    assert!(legacy_item_payload("%%% not base64").is_none());
    assert!(legacy_item_payload(&b64(b"not json")).is_none());
}

#[test]
fn legacy_event_reads_body_sender_and_content() {
    let payload = j(
        r#"{"1": {"2": "c1@goofish", "10": {"senderUserId": "u1", "reminderTitle": "Bob"}, "6": {"contentType": 1, "text": {"text": "hi"}}}}"#,
    );
    let ev = parse_legacy_event(&payload, "me").unwrap();
    assert_eq!(ev.cid, "c1");
    assert_eq!(ev.sender_id, "u1");
    assert_eq!(ev.sender_name, "Bob");
    assert_eq!(ev.plain_text(), "hi");
}

#[test]
fn legacy_event_falls_back_to_flat_fields() {
    let payload = j(r#"{"cid": "c2", "sender_id": "u2", "sender_name": "Ann"}"#);
    let ev = parse_legacy_event(&payload, "me").unwrap();
    assert_eq!(ev.cid, "c2");
    assert_eq!(ev.sender_id, "u2");
    assert_eq!(ev.sender_name, "Ann");
    assert!(ev.messages.is_empty());
}

#[test]
fn legacy_event_skips_own_messages() {
    let payload = j(r#"{"1": {"2": "c@goofish", "10": {"senderUserId": "me"}}}"#);
    assert!(parse_legacy_event(&payload, "me").is_none());
}

#[test]
fn legacy_frame_acks_and_reads_items() {
    let item = b64(br#"{"1": {"2": "c@goofish", "10": {"senderUserId": "buyer", "reminderTitle": "B"}}}"#);
    let mine = b64(br#"{"1": {"2": "c@goofish", "10": {"senderUserId": "me"}}}"#);
    let text = format!(
        r#"{{"headers": {{"mid": "m", "sid": "s"}}, "body": {{"syncPushPackage": {{"data": [{{"data": "{}"}}, {{"data": "{}"}}, {{"data": "!!"}}]}}}}}}"#,
        item, mine
    );
    let frame = process_legacy_frame(&text, "me").unwrap();
    assert!(frame.ack.is_some());
    assert_eq!(frame.events.len(), 1);
    assert!(matches!(&frame.events[0], InboundEvent::Message(e) if e.sender_id == "buyer" && e.cid == "c"));
}

#[test]
fn legacy_frame_without_sync_package_has_no_events() {
    let frame = process_legacy_frame(r#"{"headers": {"mid": "m"}, "body": {}}"#, "me").unwrap();
    assert!(frame.ack.is_some());
    assert!(frame.events.is_empty());
    assert!(process_legacy_frame("not json", "me").is_err());
}
