use fish_bot::adapter::{
    build_ack, build_send_message, classify_event_type, decode_sync_payload, is_bracket_system_message,
    is_chat_message, is_system_message, is_typing_status, parse_event, process_frame, send_message_with,
    should_fallback_to_reminder_content, InboundEvent,
};
use fish_bot::json::Json;
use fish_bot::message::{MessageChain, MessageSegment};

fn b64(bytes: &[u8]) -> String {
    base64::Engine::encode(&base64::engine::general_purpose::STANDARD, bytes)
}

fn unb64(text: &str) -> Vec<u8> {
    base64::Engine::decode(&base64::engine::general_purpose::STANDARD, text).unwrap()
}

fn jb(bytes: &[u8]) -> Json {
    Json::parse(std::str::from_utf8(bytes).unwrap()).unwrap()
}

fn j(text: &str) -> Json {
    Json::parse(text).unwrap()
}

fn field<'a>(v: &'a Json, path: &[&str]) -> Option<&'a Json> {
    let mut cur = v;
    for k in path {
        cur = cur.get(k)?;
    }
    Some(cur)
}

fn msgpack_b64(text: &str) -> String {
    let v: serde_json::Value = serde_json::from_str(text).unwrap();
    b64(&rmp_serde::to_vec(&v).unwrap())
}

#[test]
fn t3_80e_bracket_system_message_matches_reference_shape() {
    assert!(is_bracket_system_message("[系统消息]"));
    assert!(is_bracket_system_message(" [已下单] "));
    assert!(!is_bracket_system_message("你好[系统消息]"));
    assert!(!is_bracket_system_message(""));
}

#[test]
fn t3_72_classify_order_create() {
    let p = j(r#"{"3": {"redReminder": "等待买家付款"}, "1": "user@goofish"}"#);
    assert_eq!(classify_event_type(&p), "order_create");
}

#[test]
fn t3_73_classify_order_closed() {
    let p = j(r#"{"3": {"redReminder": "交易关闭"}}"#);
    assert_eq!(classify_event_type(&p), "order_closed");
}

#[test]
fn t3_74_classify_item_purchased() {
    let p = j(r#"{"3": {"redReminder": "等待卖家发货"}}"#);
    assert_eq!(classify_event_type(&p), "item_purchased");
}

#[test]
fn t3_75_classify_order_unknown() {
    let p = j(r#"{"3": {"redReminder": "未知状态"}}"#);
    assert_eq!(classify_event_type(&p), "order_unknown");
}

#[test]
fn t3_76_classify_top_level_action() {
    let p = j(r#"{"action": "trade_notice"}"#);
    assert_eq!(classify_event_type(&p), "trade_notice");
}

#[test]
fn t3_77_classify_unknown() {
    let p = j(r#"{"some": "data"}"#);
    assert_eq!(classify_event_type(&p), "unknown");
}

#[test]
fn t3_78_classify_no_redreminder() {
    let p = j(r#"{"3": {"other": "value"}, "type": "notice"}"#);
    assert_eq!(classify_event_type(&p), "notice");
}

#[test]
fn t3_80_msgpack_business_event_roundtrip() {
    let raw = msgpack_b64(r#"{"1": "buyer@goofish", "3": {"redReminder": "等待买家付款"}}"#);
    let decoded = decode_sync_payload(&raw).unwrap();
    assert_eq!(classify_event_type(&decoded), "order_create");
}

#[test]
fn t3_80b_decode_sync_payload_skips_plain_json() {
    let raw = b64(br#"{"message":"plain sync payload"}"#);
    assert!(decode_sync_payload(&raw).is_none());
}

#[test]
fn t3_80c_decode_sync_payload_accepts_msgpack_business_events() {
    let raw = msgpack_b64(r#"{"1": {"2": "cid@goofish"}, "3": {"redReminder": "等待买家付款"}}"#);
    let v = decode_sync_payload(&raw).unwrap();
    assert_eq!(field(&v, &["1", "2"]).and_then(|x| x.as_str()), Some("cid@goofish"));
    assert_eq!(field(&v, &["3", "redReminder"]).and_then(|x| x.as_str()), Some("等待买家付款"));
}

#[test]
fn t3_80d_is_chat_message_matches_reference_shape() {
    assert!(is_chat_message(&j(r#"{"1": {"10": {"reminderContent": "hello"}}}"#)));
    assert!(!is_chat_message(&j(r#"{"1": {"10": {"senderUserId": "buyer"}}}"#)));
}

#[test]
fn t3_81_typing_status_detected() {
    assert!(is_typing_status(&j(r#"{"1": [{"1": "user@goofish"}]}"#)));
}

#[test]
fn t3_82_typing_status_not_array() {
    assert!(!is_typing_status(&j(r#"{"1": {"10": {"reminderContent": "hello"}}}"#)));
}

#[test]
fn t3_83_typing_status_no_goofish() {
    assert!(!is_typing_status(&j(r#"{"1": [{"1": "other"}]}"#)));
}

#[test]
fn t3_84_system_message_detected() {
    assert!(is_system_message(&j(r#"{"3": {"needPush": "false"}}"#)));
}

#[test]
fn t3_85_system_message_needpush_true() {
    assert!(!is_system_message(&j(r#"{"3": {"needPush": "true"}}"#)));
}

#[test]
fn t3_86_system_message_no_field3() {
    assert!(!is_system_message(&j(r#"{"1": "hello"}"#)));
}

#[test]
fn t3_87b_parse_event_skips_non_chat_payload() {
    let p = j(r#"{"1": {"2": "cid@goofish", "10": {"senderUserId": "buyer-1", "reminderTitle": "买家"}}}"#);
    assert!(parse_event(&p, "me").is_none());
}

#[test]
fn t3_88_parse_event_unwraps_custom_text_content() {
    let inner = b64(r#"{"contentType":1,"text":{"text":"来自 custom 的文本"}}"#.as_bytes());
    let text = format!(
        r#"{{"1": {{"2": "cid@goofish", "6": {{"contentType": 101, "custom": {{"type": 1, "data": "{}"}}}}, "10": {{"senderUserId": "buyer-1", "reminderTitle": "买家", "reminderContent": "来自 reminder 的文本"}}}}}}"#,
        inner
    );
    let p = j(&text);
    let event = parse_event(&p, "me").unwrap();
    assert_eq!(event.messages.summary(), "来自 custom 的文本");
    assert_eq!(event.cid, "cid");
    assert_eq!(event.sender_id, "buyer-1");
    assert_eq!(event.sender_name, "买家");
}

#[test]
fn t3_88b_parse_event_skips_bracket_system_message() {
    let p = j(r#"{"1": {"2": "cid@goofish", "10": {"senderUserId": "buyer-1", "reminderTitle": "买家", "reminderContent": "[宝贝已下架]"}}}"#);
    assert!(parse_event(&p, "me").is_none());
}

#[test]
fn t3_89_parse_event_falls_back_to_reminder_content_for_opaque_custom() {
    let inner = b64(br#"{"opaque":true}"#);
    let text = format!(
        r#"{{"1": {{"2": "cid@goofish", "6": {{"contentType": 101, "custom": {{"type": 2, "data": "{}"}}}}, "10": {{"senderUserId": "buyer-2", "reminderTitle": "买家", "reminderContent": "参考实现会取这段文本"}}}}}}"#,
        inner
    );
    let event = parse_event(&j(&text), "me").unwrap();
    assert_eq!(event.messages.summary(), "参考实现会取这段文本");
}

#[test]
fn parse_event_skips_own_messages() {
    let p = j(r#"{"1": {"2": "c@goofish", "10": {"senderUserId": "me", "reminderContent": "hi"}}}"#);
    assert!(parse_event(&p, "me").is_none());
    assert!(parse_event(&p, "other").is_some());
}

#[test]
fn fallback_only_for_undescribed_custom_nodes() {
    let node = MessageSegment::CustomNode { desc: String::new(), content: Json::Null };
    assert!(should_fallback_to_reminder_content(&[node]));
    assert!(!should_fallback_to_reminder_content(&[]));
    assert!(!should_fallback_to_reminder_content(&[MessageSegment::text("x")]));
}

#[test]
fn t3_61b_build_send_message_matches_reference_text_shape() {
    let chain = MessageChain::from_text("hello");
    let msg = build_send_message("buyer-1", &chain, Some("chat-1"), "seller-1").unwrap();
    assert_eq!(msg.get_str("lwp"), Some("/r/MessageSend/sendByReceiverScope"));
    let body = msg.get("body").unwrap();
    let first = body.get_index(0).unwrap();
    assert_eq!(first.get_str("cid"), Some("chat-1@goofish"));
    let recv = body.get_index(1).unwrap().get("actualReceivers").unwrap();
    assert_eq!(recv.get_index(0).unwrap().as_str(), Some("buyer-1@goofish"));
    assert_eq!(recv.get_index(1).unwrap().as_str(), Some("seller-1@goofish"));
    let custom = field(first, &["content", "custom"]).unwrap();
    assert_eq!(field(first, &["content", "contentType"]).unwrap().as_u64(), Some(101));
    assert_eq!(custom.get("type").unwrap().as_u64(), Some(1));
    let data = custom.get_str("data").unwrap();
    let inner = jb(&unb64(data));
    assert_eq!(inner.get("contentType").unwrap().as_u64(), Some(1));
    assert_eq!(field(&inner, &["text", "text"]).unwrap().as_str(), Some("hello"));
}

#[test]
fn t3_61c_build_send_message_matches_reference_multi_segment_shape() {
    let chain = MessageChain::from_segments(vec![
        MessageSegment::text("hello"),
        MessageSegment::Image { image_url: "https://img.example/item.jpg".into(), width: 320, height: 240 },
    ]);
    let msg = build_send_message("buyer-2", &chain, None, "seller-2").unwrap();
    let first = msg.get("body").unwrap().get_index(0).unwrap();
    assert_eq!(first.get_str("cid"), Some("buyer-2@goofish"));
    let custom = field(first, &["content", "custom"]).unwrap();
    assert_eq!(custom.get("type").unwrap().as_u64(), Some(2));
    let inner = jb(&unb64(custom.get_str("data").unwrap()));
    assert_eq!(inner.get("contentType").unwrap().as_u64(), Some(101));
    let nested_data = field(&inner, &["custom", "data"]).unwrap().as_str().unwrap();
    let segs = jb(&unb64(nested_data));
    assert_eq!(segs.get_index(0).unwrap().get_str("type"), Some("text"));
    assert_eq!(segs.get_index(1).unwrap().get_str("type"), Some("image"));
    assert_eq!(segs.get_index(1).unwrap().get_str("image_url"), Some("https://img.example/item.jpg"));
}

#[test]
fn send_message_with_uses_given_ids() {
    let chain = MessageChain::from_text("x");
    let msg = send_message_with("t", &chain, None, "m", "mid-1".into(), "uuid-1".into()).unwrap();
    assert_eq!(field(&msg, &["headers", "mid"]).unwrap().as_str(), Some("mid-1"));
    let first = msg.get("body").unwrap().get_index(0).unwrap();
    assert_eq!(first.get_str("uuid"), Some("uuid-1"));
    assert_eq!(field(first, &["extension", "extJson"]).unwrap().as_str(), Some("{}"));
}

#[test]
fn ack_copies_known_headers() {
    let h = j(r#"{"mid": "m1", "sid": "s1", "ua": "u", "other": "x"}"#);
    let ack = build_ack(&h);
    assert_eq!(ack.get("code").unwrap().as_u64(), Some(200));
    let hs = ack.get("headers").unwrap();
    assert_eq!(hs.get_str("mid"), Some("m1"));
    assert_eq!(hs.get_str("sid"), Some("s1"));
    assert_eq!(hs.get_str("ua"), Some("u"));
    assert!(hs.get("other").is_none());
    assert!(hs.get("app-key").is_none());
}

#[test]
fn process_frame_acks_and_decodes_items() {
    let chat = msgpack_b64(r#"{"1": {"2": "c@goofish", "10": {"senderUserId": "buyer", "reminderTitle": "B", "reminderContent": "hi"}}}"#);
    let order = msgpack_b64(r#"{"1": "buyer@goofish", "3": {"redReminder": "交易关闭"}}"#);
    let typing = msgpack_b64(r#"{"1": [{"1": "buyer@goofish"}]}"#);
    let plain = b64(br#"{"a":1}"#);
    let text = format!(
        r#"{{"headers": {{"mid": "m", "sid": "s"}}, "body": {{"syncPushPackage": {{"data": [{{"data": "{}"}}, {{"data": "{}"}}, {{"data": "{}"}}, {{"data": "{}"}}, {{"nodata": 1}}]}}}}}}"#,
        chat, order, typing, plain
    );
    let frame = process_frame(&text, "me").unwrap();
    assert!(frame.ack.is_some());
    assert_eq!(frame.events.len(), 2);
    assert!(matches!(&frame.events[0], InboundEvent::Message(e) if e.sender_id == "buyer"));
    assert!(matches!(&frame.events[1], InboundEvent::System(e) if e.event_type == "order_closed"));
}

#[test]
fn process_frame_without_sync_package_has_no_events() {
    let frame = process_frame(r#"{"code": 200}"#, "me").unwrap();
    assert!(frame.ack.is_none());
    assert!(frame.events.is_empty());
    assert!(process_frame("not json", "me").is_err());
}

#[test]
fn t3_79_msgpack_decode_roundtrip() {
    let source_value: serde_json::Value = serde_json::from_str(
        r#"{"1": {"10": {"reminderContent": "hello", "senderUserId": "uid", "reminderTitle": "user"}, "2": "cid@goofish", "5": 1700000000000}}"#,
    )
    .unwrap();
    let msgpack_bytes = rmp_serde::to_vec(&source_value).unwrap();
    let decoded = fish_bot::adapter::decode_sync_payload(&b64(&msgpack_bytes)).unwrap();
    assert_eq!(decoded.to_text().unwrap(), serde_json::to_string(&source_value).unwrap());
}

#[test]
fn t3_87_reminder_content_extracted() {
    let payload = j(r#"{"1": {"10": {"reminderContent": "hello from reminder", "reminderTitle": "User", "senderUserId": "uid"}, "2": "cid@goofish"}}"#);
    assert_eq!(field(&payload, &["1", "10", "reminderContent"]).and_then(|x| x.as_str()), Some("hello from reminder"));
    assert_eq!(field(&payload, &["1", "2"]).and_then(|x| x.as_str()), Some("cid@goofish"));
}
