use fish_bot::json::Json;
use fish_bot::message::MessageSegment;
use fish_bot::protocol::{decode_content, decode_message, encode_chain, encode_message};

fn b64(bytes: &[u8]) -> String {
    base64::Engine::encode(&base64::engine::general_purpose::STANDARD, bytes)
}

fn unb64(text: &str) -> Vec<u8> {
    base64::Engine::decode(&base64::engine::general_purpose::STANDARD, text).unwrap()
}

fn j(text: &str) -> Json {
    Json::parse(text).unwrap()
}

fn ct_payload(ct: i64, extra: &str) -> Json {
    let mut v = j(extra);
    if let Json::Object(es) = &mut v {
        es.insert(0, ("contentType".to_string(), if ct >= 0 { Json::PosInt(ct as u64) } else { Json::NegInt(ct) }));
    }
    v
}

fn unpack(data: &str) -> Json {
    Json::parse(std::str::from_utf8(&unb64(data)).unwrap()).unwrap()
}

fn at<'a>(v: &'a Json, path: &[&str]) -> &'a Json {
    let mut cur = v;
    for k in path {
        cur = match k.parse::<usize>() {
            Ok(i) => cur.get_index(i).unwrap(),
            Err(_) => cur.get(k).unwrap(),
        };
    }
    cur
}

#[test]
fn t3_3_encode_text() {
    let (payload, ct) = encode_message(&MessageSegment::text("hello")).unwrap();
    assert_eq!(ct, 1);
    assert_eq!(at(&payload, &["contentType"]).as_u64(), Some(1));
    assert_eq!(at(&payload, &["text", "text"]).as_str(), Some("hello"));
}

#[test]
fn t3_4_encode_image() {
    let msg = MessageSegment::Image { image_url: "https://example.com/pic.jpg".into(), width: 800, height: 600 };
    let (payload, ct) = encode_message(&msg).unwrap();
    assert_eq!(ct, 2);
    assert_eq!(at(&payload, &["contentType"]).as_u64(), Some(2));
    assert_eq!(at(&payload, &["image", "pics", "0", "url"]).as_str(), Some("https://example.com/pic.jpg"));
    assert_eq!(at(&payload, &["image", "pics", "0", "width"]).as_u64(), Some(800));
    assert_eq!(at(&payload, &["image", "pics", "0", "height"]).as_u64(), Some(600));
}

#[test]
fn t3_5_encode_audio() {
    let msg = MessageSegment::Audio { audio_url: "https://example.com/a.mp3".into(), duration_ms: 5000 };
    let (payload, ct) = encode_message(&msg).unwrap();
    assert_eq!(ct, 2);
    assert_eq!(at(&payload, &["contentType"]).as_u64(), Some(3));
    assert_eq!(at(&payload, &["audio", "url"]).as_str(), Some("https://example.com/a.mp3"));
    assert_eq!(at(&payload, &["audio", "duration"]).as_u64(), Some(5000));
}

#[test]
fn t3_6_encode_custom_node() {
    let msg = MessageSegment::CustomNode { desc: "test".into(), content: j(r#"[{"type": "text", "text": "hello"}]"#) };
    let (payload, ct) = encode_message(&msg).unwrap();
    assert_eq!(ct, 2);
    assert_eq!(at(&payload, &["contentType"]).as_u64(), Some(101));
    let parsed = unpack(at(&payload, &["custom", "data"]).as_str().unwrap());
    assert_eq!(at(&parsed, &["0", "text"]).as_str(), Some("hello"));
}

#[test]
fn encode_custom_node_of_non_array_sends_empty_list() {
    let msg = MessageSegment::CustomNode { desc: "x".into(), content: j(r#"{"a": 1}"#) };
    let (payload, _) = encode_message(&msg).unwrap();
    let parsed = unpack(at(&payload, &["custom", "data"]).as_str().unwrap());
    assert_eq!(parsed.to_text().unwrap(), "[]");
}

#[test]
fn t3_7_encode_chain_single() {
    let (payload, ct) = encode_chain(&[MessageSegment::text("hello")]).unwrap();
    assert_eq!(ct, 1);
    assert_eq!(at(&payload, &["text", "text"]).as_str(), Some("hello"));
}

#[test]
fn t3_8_encode_chain_multi() {
    let (payload, ct) = encode_chain(&[MessageSegment::text("a"), MessageSegment::text("b")]).unwrap();
    assert_eq!(ct, 2);
    assert_eq!(at(&payload, &["contentType"]).as_u64(), Some(101));
    let parsed = unpack(at(&payload, &["custom", "data"]).as_str().unwrap());
    assert_eq!(at(&parsed, &["0", "text"]).as_str(), Some("a"));
    assert_eq!(at(&parsed, &["1", "text"]).as_str(), Some("b"));
}

#[test]
fn t3_9_decode_text() {
    let d = decode_message(&ct_payload(1, r#"{"text": {"text": "hello"}}"#)).unwrap();
    assert!(matches!(d, MessageSegment::Text { ref text } if text == "hello"));
}

#[test]
fn t3_10_decode_image() {
    let d = decode_message(&ct_payload(2, r#"{"image": {"pics": [{"url": "pic.jpg", "width": 800, "height": 600}]}}"#)).unwrap();
    assert!(matches!(d, MessageSegment::Image { ref image_url, width: 800, height: 600 } if image_url == "pic.jpg"));
}

#[test]
fn t3_11_decode_audio() {
    let d = decode_message(&ct_payload(3, r#"{"audio": {"url": "a.mp3", "duration": 5000}}"#)).unwrap();
    assert!(matches!(d, MessageSegment::Audio { ref audio_url, duration_ms: 5000 } if audio_url == "a.mp3"));
}

#[test]
fn t3_12_decode_item_card() {
    let p = ct_payload(7, r#"{"itemCard": {"item": {"itemId": "123", "title": "test item", "price": "100", "mainPic": "pic.jpg"}, "action": {"page": {"url": "https://item.page"}}}}"#);
    let d = decode_message(&p).unwrap();
    match &d {
        MessageSegment::CustomNode { desc, content } => {
            assert_eq!(desc, "商品卡片");
            assert_eq!(content.get_str("fish_type"), Some("item_card"));
            assert_eq!(content.get_str("item_id"), Some("123"));
        }
        _ => panic!("expected a custom node"),
    }
}

#[test]
fn t3_13_decode_system_tip() {
    let d = decode_message(&ct_payload(14, r#"{"tip": {"tip": "system message"}}"#)).unwrap();
    assert!(matches!(&d, MessageSegment::CustomNode { desc, .. } if desc == "系统提示"));
}

#[test]
fn t3_14_decode_fish_trade_card() {
    let p = ct_payload(26, r#"{"dxCard": {"item": {"main": {"exContent": {"title": "order title", "desc": "order desc"}, "clickParam": {"args": {"task_id": "task123"}}}}, "button": {"text": "查看", "targetUrl": "https://example.com?id=order456"}}}"#);
    let d = decode_message(&p).unwrap();
    match &d {
        MessageSegment::CustomNode { desc, content } => {
            assert_eq!(desc, "交易卡片");
            assert_eq!(content.get_str("order_id"), Some("order456"));
            assert_eq!(content.get_str("task_id"), Some("task123"));
        }
        _ => panic!("expected a custom node"),
    }
}

#[test]
fn t3_15_decode_custom_101() {
    let data = b64(br#"[{"type":"text","text":"hello"}]"#);
    let p = ct_payload(101, &format!(r#"{{"custom": {{"type": 2, "data": "{}"}}}}"#, data));
    let d = decode_message(&p).unwrap();
    match &d {
        MessageSegment::CustomNode { content, .. } => assert_eq!(at(content, &["0", "text"]).as_str(), Some("hello")),
        _ => panic!("expected a custom node"),
    }
}

#[test]
fn t3_16_decode_unknown_ct() {
    let d = decode_message(&ct_payload(999, "{}")).unwrap();
    assert!(matches!(&d, MessageSegment::CustomNode { desc, .. } if desc == "未知消息"));
}

#[test]
fn t3_17_decode_content_variants() {
    assert_eq!(decode_content(&ct_payload(1, r#"{"text": {"text": "hi"}}"#)).unwrap().len(), 1);
    let arr = j(r#"[{"contentType": 1, "text": {"text": "a"}}, {"contentType": 1, "text": {"text": "b"}}]"#);
    assert_eq!(decode_content(&arr).unwrap().len(), 2);
    let segs = decode_content(&j("{}")).unwrap();
    assert_eq!(segs.len(), 1);
    assert!(matches!(&segs[0], MessageSegment::CustomNode { desc, .. } if desc == "未知消息"));
}

#[test]
fn t3_18_encode_decode_roundtrip() {
    let cases = vec![
        MessageSegment::text("hello"),
        MessageSegment::Image { image_url: "https://pic.jpg".into(), width: 100, height: 200 },
        MessageSegment::Audio { audio_url: "https://a.mp3".into(), duration_ms: 3000 },
    ];
    for segment in cases {
        let (payload, _) = encode_message(&segment).unwrap();
        let decoded = decode_message(&payload).unwrap();
        assert_eq!(segment.desc(), decoded.desc());
        assert_eq!(segment.summary(), decoded.summary());
    }
}

#[test]
fn t3_40_decode_empty_custom_data() {
    let r = decode_message(&ct_payload(101, r#"{"custom": {"type": 2, "data": ""}}"#));
    assert!(r.is_err(), "empty base64 custom data should produce an error");
}

#[test]
fn t3_41_decode_content_empty_object() {
    let segs = decode_content(&j("{}")).unwrap();
    assert_eq!(segs.len(), 1);
    assert!(matches!(&segs[0], MessageSegment::CustomNode { desc, .. } if desc == "未知消息"));
}

#[test]
fn t3_42_encode_chain_mixed_types() {
    let chain = [
        MessageSegment::text("hello"),
        MessageSegment::Image { image_url: "pic.jpg".into(), width: 100, height: 200 },
        MessageSegment::Audio { audio_url: "a.mp3".into(), duration_ms: 5000 },
    ];
    let (payload, ct) = encode_chain(&chain).unwrap();
    assert_eq!(ct, 2);
    assert_eq!(at(&payload, &["contentType"]).as_u64(), Some(101));
    let parsed = unpack(at(&payload, &["custom", "data"]).as_str().unwrap());
    assert_eq!(at(&parsed, &["0", "type"]).as_str(), Some("text"));
    assert_eq!(at(&parsed, &["1", "type"]).as_str(), Some("image"));
    assert_eq!(at(&parsed, &["2", "type"]).as_str(), Some("audio"));
}

#[test]
fn t3_43_decode_content_array_mixed() {
    let arr = j(r#"[{"contentType": 1, "text": {"text": "hi"}}, {"contentType": 1, "text": {"text": "there"}}]"#);
    assert_eq!(decode_content(&arr).unwrap().len(), 2);
}

#[test]
fn t3_44_decode_system_tip_content() {
    let d = decode_message(&ct_payload(14, r#"{"tip": {"tip": "test tip message"}}"#)).unwrap();
    match &d {
        MessageSegment::CustomNode { desc, content } => {
            assert_eq!(desc, "系统提示");
            assert_eq!(content.get_str("tip_text"), Some("test tip message"));
            assert_eq!(content.get_str("fish_type"), Some("system_tip"));
        }
        _ => panic!("expected a custom node"),
    }
}

#[test]
fn t3_45_decode_fish_trade_card_content() {
    let p = ct_payload(26, r#"{"dxCard": {"item": {"main": {"exContent": {"title": "订单", "desc": "描述"}, "clickParam": {"args": {"task_id": "task999"}}}}, "button": {"text": "去查看", "targetUrl": "https://example.com?id=order123"}}}"#);
    match &decode_message(&p).unwrap() {
        MessageSegment::CustomNode { desc, content } => {
            assert_eq!(desc, "交易卡片");
            assert_eq!(content.get_str("fish_type"), Some("fish_trade_card"));
            assert_eq!(content.get_str("order_id"), Some("order123"));
            assert_eq!(content.get_str("task_id"), Some("task999"));
        }
        _ => panic!("expected a custom node"),
    }
}

#[test]
fn t3_46_decode_item_card_content() {
    let p = ct_payload(7, r#"{"itemCard": {"item": {"itemId": "456", "title": "商品", "price": "99", "mainPic": "img.jpg"}, "action": {"page": {"url": "https://item.example.com"}}}}"#);
    match &decode_message(&p).unwrap() {
        MessageSegment::CustomNode { desc, content } => {
            assert_eq!(desc, "商品卡片");
            assert_eq!(content.get_str("fish_type"), Some("item_card"));
            assert_eq!(content.get_str("item_id"), Some("456"));
        }
        _ => panic!("expected a custom node"),
    }
}

#[test]
fn t3_47_decode_image_missing_fields() {
    match decode_message(&ct_payload(2, r#"{"image": {"pics": [{"url": "minimal.jpg"}]}}"#)).unwrap() {
        MessageSegment::Image { image_url, width, height } => {
            assert_eq!(image_url, "minimal.jpg");
            assert_eq!(width, 0);
            assert_eq!(height, 0);
        }
        _ => panic!("expected an image"),
    }
}

#[test]
fn t3_48_decode_audio_missing_fields() {
    match decode_message(&ct_payload(3, r#"{"audio": {"url": "sound.mp3"}}"#)).unwrap() {
        MessageSegment::Audio { audio_url, duration_ms } => {
            assert_eq!(audio_url, "sound.mp3");
            assert_eq!(duration_ms, 0);
        }
        _ => panic!("expected audio"),
    }
}

#[test]
fn t3_49_decode_fish_trade_card_minimal() {
    let p = ct_payload(26, r#"{"dxCard": {"item": {"main": {"exContent": {}, "clickParam": {"args": {}}}}, "button": {}}}"#);
    match &decode_message(&p).unwrap() {
        MessageSegment::CustomNode { desc, content } => {
            assert_eq!(desc, "交易卡片");
            assert_eq!(content.get_str("order_id"), Some(""));
            assert_eq!(content.get_str("task_id"), Some(""));
        }
        _ => panic!("expected a custom node"),
    }
}

#[test]
fn trade_card_order_id_stops_at_next_separator() {
    let p = ct_payload(26, r#"{"dxCard": {"button": {"targetUrl": "a?id=1&xid=2"}}}"#);
    match &decode_message(&p).unwrap() {
        MessageSegment::CustomNode { content, .. } => assert_eq!(content.get_str("order_id"), Some("1&x")),
        _ => panic!("expected a custom node"),
    }
}

#[test]
fn image_size_truncates_to_32_bits() {
    let d = decode_message(&ct_payload(2, r#"{"image": {"pics": [{"url": "u", "width": 4294967297, "height": 5}]}}"#)).unwrap();
    assert!(matches!(d, MessageSegment::Image { width: 1, height: 5, .. }));
}
