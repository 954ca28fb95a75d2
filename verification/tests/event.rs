use fish_bot::json::Json;
use fish_bot::event::MessageEvent;
use fish_bot::message::{MessageChain, MessageChainItem, MessageSegment};

fn jb(bytes: &[u8]) -> Json {
    Json::parse(std::str::from_utf8(bytes).unwrap()).unwrap()
}

#[test]
fn t1_14_event_new_all_fields() {
    let chain = MessageChain::from("hello");
    let raw = jb(br#"{"key": "val"}"#);
    let event = MessageEvent::new("cid1".into(), "uid1".into(), "Alice".into(), chain.duplicate(), raw.duplicate());

    assert_eq!(event.cid, "cid1");
    assert_eq!(event.sender_id, "uid1");
    assert_eq!(event.sender_name, "Alice");
    assert_eq!(event.messages.plain_text(), "hello");
    assert_eq!(event.raw_payload.to_text().unwrap(), raw.to_text().unwrap());
}

#[test]
fn t1_15_event_delegates_to_chain() {
    let mut chain = MessageChain::new();
    chain.append(MessageSegment::text("hello").into());
    chain.append(MessageSegment::image("pic.jpg").into());

    let event = MessageEvent::new("cid".into(), "uid".into(), "Alice".into(), chain, jb(b"{}"));

    assert_eq!(event.plain_text(), "hello");
    assert!(event.has_image());
    assert_eq!(event.summary(), "hello [图片]");
}

#[test]
fn t1_16_debug_stays_data_only() {
    let event = MessageEvent::new(
        "cid".into(),
        "uid".into(),
        "Alice".into(),
        MessageChain::from("hello"),
        jb(br#"{"key": "val"}"#),
    );
    let debug_str = format!("{:?}", event);
    assert!(debug_str.contains("cid"));
    assert!(debug_str.contains("Alice"));
}

#[test]
fn t1_12_from_impls_message_chain() {
    let chain: MessageChain = String::from("hello").into();
    assert_eq!(chain.plain_text(), "hello");

    let chain: MessageChain = "world".into();
    assert_eq!(chain.plain_text(), "world");

    let chain: MessageChain = MessageSegment::image("pic.jpg").into();
    assert!(chain.has_image());

    let chain: MessageChain = vec![MessageSegment::text("a"), MessageSegment::text("b")].into();
    assert_eq!(chain.plain_text(), "ab");
}

#[test]
fn t1_13_message_chain_item_from() {
    let _: MessageChainItem = MessageSegment::text("x").into();
    let _: MessageChainItem = MessageChain::new().into();
    let _: MessageChainItem = String::from("x").into();
    let _: MessageChainItem = "x".into();
}

#[test]
fn appended_text_item_extends_the_chain() {
    let mut chain: MessageChain = "a".into();
    chain.append("b".into());
    chain.append(String::from("c").into());
    chain.append(MessageChain::from(vec![MessageSegment::text("d")]).into());
    assert_eq!(chain.plain_text(), "abcd");
    assert_eq!(chain.len(), 4);
}
