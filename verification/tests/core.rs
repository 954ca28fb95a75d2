use fish_bot::cookies::{cookie_header_pairs, parse_set_cookie, CookieJar};
use fish_bot::error::AppError;
use fish_bot::event::{MessageEvent, SystemEvent};
use fish_bot::json::Json;
use fish_bot::message::{MessageChain, MessageChainItem, MessageSegment};
use fish_bot::rule::{is_fullmatch, is_keywords, is_regex, is_startswith, MatchList, Rule};


fn seg(s: &str) -> MessageChainItem {
    MessageChainItem::Segment(MessageSegment::text(s))
}

#[test]
fn t1_4_desc_labels() {
    assert_eq!(MessageSegment::text("hi").desc(), "文本");
    assert_eq!(MessageSegment::image("url").desc(), "图片");
    assert_eq!(MessageSegment::Audio { audio_url: "url".into(), duration_ms: 0 }.desc(), "音频");
    assert_eq!(MessageSegment::CustomNode { desc: "".into(), content: Json::Object(vec![]) }.desc(), "节点消息");
    assert_eq!(MessageSegment::CustomNode { desc: "卡片".into(), content: Json::Object(vec![]) }.desc(), "卡片");
}

#[test]
fn t1_5_summary() {
    assert_eq!(MessageSegment::text("hello").summary(), "hello");
    assert_eq!(MessageSegment::image("url").summary(), "[图片]");
    assert_eq!(MessageSegment::Audio { audio_url: "url".into(), duration_ms: 0 }.summary(), "[音频]");
    assert_eq!(MessageSegment::CustomNode { desc: "test".into(), content: Json::Object(vec![]) }.summary(), "[test]");
}

#[test]
fn t1_6_chain_new_from_segment_is_empty() {
    assert!(MessageChain::new().is_empty());
    assert!(!MessageChain::from_segment(MessageSegment::text("hi")).is_empty());
}

#[test]
fn t1_7_chain_append() {
    let mut chain = MessageChain::new();
    chain.append(seg("a"));
    chain.append(seg("b"));
    chain.append(MessageChainItem::Chain(MessageChain::from_text("c")));
    assert_eq!(chain.plain_text(), "abc");
    assert_eq!(chain.segments().len(), 3);
}

#[test]
fn t1_8_chain_extend() {
    let mut chain = MessageChain::new();
    chain.extend(vec![seg("a"), seg("b"), seg("c")]);
    assert_eq!(chain.plain_text(), "abc");
    assert_eq!(chain.segments().len(), 3);
}

#[test]
fn t1_9_chain_plain_text_only_text() {
    let mut chain = MessageChain::new();
    chain.append(seg("hello"));
    chain.append(MessageChainItem::Segment(MessageSegment::image("pic.jpg")));
    chain.append(seg(" world"));
    assert_eq!(chain.plain_text(), "hello world");
}

#[test]
fn t1_10_chain_summary() {
    assert_eq!(MessageChain::new().summary(), "(空消息)");
    assert_eq!(MessageChain::from_text("hello").summary(), "hello");
    let mut chain = MessageChain::new();
    chain.append(seg("check this"));
    chain.append(MessageChainItem::Segment(MessageSegment::image("pic.jpg")));
    assert_eq!(chain.summary(), "check this [图片]");
}

#[test]
fn t1_11_has_image() {
    let mut chain = MessageChain::new();
    assert!(!chain.has_image());
    chain.append(seg("no pic"));
    assert!(!chain.has_image());
    chain.append(MessageChainItem::Segment(MessageSegment::image("pic.jpg")));
    assert!(chain.has_image());
}

#[test]
fn t1_34_error_constructors() {
    assert!(matches!(AppError::auth("login failed"), AppError::Auth { .. }));
    assert!(matches!(AppError::protocol("bad message"), AppError::Protocol { .. }));
    assert!(matches!(AppError::http("timeout"), AppError::Http { .. }));
    assert!(matches!(AppError::ws("disconnected"), AppError::Ws { .. }));
}

#[test]
fn t1_35_display_all_variants() {
    let json_err = serde_json::from_str::<serde_json::Value>("invalid").unwrap_err();
    let b64_err = base64::Engine::decode(&base64::engine::general_purpose::STANDARD, "!!!").unwrap_err();
    let cases: Vec<(AppError, &str)> = vec![
        (AppError::Http { message: "timeout".into() }, "HTTP request failed: timeout"),
        (AppError::Ws { message: "closed".into() }, "WebSocket error: closed"),
        (AppError::Json { source: json_err }, "JSON error:"),
        (AppError::Base64 { source: b64_err }, "Base64 decode error:"),
        (AppError::Auth { details: "bad token".into() }, "Authentication failed: bad token"),
        (AppError::Protocol { details: "bad msg".into() }, "Protocol error: bad msg"),
        (AppError::Internal { details: "oops".into() }, "Internal error: oops"),
    ];
    for (err, expected_prefix) in cases {
        let display = err.message();
        assert!(display.starts_with(expected_prefix), "expected '{display}' to start with '{expected_prefix}'");
    }
}

#[test]
fn t1_36_from_serde_json_error() {
    let e: AppError = serde_json::from_str::<serde_json::Value>("invalid").unwrap_err().into();
    assert!(matches!(e, AppError::Json { .. }));
}

#[test]
fn t1_37_from_base64_error() {
    let e: AppError = base64::Engine::decode(&base64::engine::general_purpose::STANDARD, "!!!").unwrap_err().into();
    assert!(matches!(e, AppError::Base64 { .. }));
}

fn event(text: &str) -> MessageEvent {
    MessageEvent::new("cid".into(), "sender".into(), "name".into(), MessageChain::from_text(text), Json::Null)
}

#[test]
fn rules_match_text() {
    assert!(is_startswith(MatchList::from("/a")).check(&event("/abc")));
    assert!(!is_startswith(MatchList::from("/a")).check(&event(" /abc")));
    assert!(is_fullmatch(MatchList::from(vec!["/ping", "/p"])).check(&event(" /p ")));
    assert!(is_keywords(MatchList::from("hi")).check(&event("oh hi there")));
    assert!(is_regex("^h.llo$").check(&event("hello")));
    assert!(!is_regex("(").check(&event("(")));
    let both = is_startswith(MatchList::from("a")).and(is_keywords(MatchList::from("z")));
    assert!(both.check(&event("abcz")));
    assert!(!both.check(&event("abc")));
    let either: Rule = is_startswith(MatchList::from("a")).or(is_keywords(MatchList::from("z")));
    assert!(either.check(&event("xz")));
}

#[test]
fn events_keep_their_fields() {
    let e = event("hi [x]");
    assert_eq!(e.plain_text(), "hi [x]");
    assert_eq!(e.summary(), "hi [x]");
    assert!(!e.has_image());
    let s = SystemEvent::new("order_create", Json::Bool(true));
    assert_eq!(s.event_type, "order_create");
}

#[test]
fn json_access() {
    let v = Json::parse(r#"{"a": [1, -2, 1.5, "s", true, null], "b": {"c": "d"}}"#).unwrap();
    let a = v.get("a").unwrap();
    assert_eq!(a.get_index(0).unwrap().as_u64(), Some(1));
    assert_eq!(a.get_index(1).unwrap().as_i64(), Some(-2));
    assert_eq!(a.get_index(3).unwrap().as_str(), Some("s"));
    assert_eq!(a.get_index(4).unwrap().as_bool(), Some(true));
    assert!(a.get_index(5).unwrap().is_null());
    assert!(a.get_index(6).is_none());
    assert_eq!(v.get("b").unwrap().get_str("c"), Some("d"));
    let copy = v.duplicate();
    assert_eq!(copy.to_text().unwrap(), v.to_text().unwrap());
}

#[test]
fn cookie_jar_reads_and_writes() {
    let mut jar = CookieJar::new();
    assert_eq!(jar.cookie_header(), "");
    jar.insert("k1".into(), "v1".into());
    jar.insert("k2".into(), "v2".into());
    jar.insert("k1".into(), "v3".into());
    assert_eq!(jar.len(), 2);
    assert_eq!(jar.get("k1"), Some("v3"));
    assert_eq!(jar.cookie_header(), "k1=v3; k2=v2");
    assert_eq!(jar.my_id(), "");
    jar.clear();
    assert!(jar.is_empty());
    let jar = CookieJar::from_pairs(vec![("unb".into(), "1".into()), ("unb".into(), "2".into())]);
    assert_eq!(jar.my_id(), "2");
}

#[test]
fn set_cookie_lines_merge() {
    assert_eq!(parse_set_cookie(" a = b ; Path=/"), Some(("a".to_string(), "b".to_string())));
    assert_eq!(parse_set_cookie("x=1=2"), Some(("x".to_string(), "1=2".to_string())));
    assert_eq!(parse_set_cookie("novalue"), None);
    let mut jar = CookieJar::new();
    jar.insert("a".into(), "b".into());
    assert!(!jar.merge_set_cookies(&["a=b; Path=/".to_string()]));
    assert!(jar.merge_set_cookies(&["a=c".to_string(), "_m_h5_tk=tok_1; x".to_string()]));
    assert_eq!(jar.get("a"), Some("c"));
    assert_eq!(jar.get("_m_h5_tk"), Some("tok_1"));
}

#[test]
fn json_text_round_trip_and_errors() {
    let v = Json::parse(r#"{"b": [1, "x"], "a": null}"#).unwrap();
    assert_eq!(v.get("b").unwrap().get_index(1).unwrap().as_str(), Some("x"));
    assert_eq!(v.to_text().unwrap(), r#"{"a":null,"b":[1,"x"]}"#);
    assert!(matches!(Json::parse("{oops"), Err(AppError::Json { .. })));
}

#[test]
fn t1_38_result_type_alias() {
    fn foo() -> fish_bot::error::Result<i32> {
        Ok(42)
    }
    fn bar() -> std::result::Result<i32, AppError> {
        Ok(42)
    }
    assert_eq!(foo().unwrap(), bar().unwrap());
}

#[test]
fn float_text_is_read_by_serde_json() {
    assert_eq!(Json::Float("1.5".into()).to_text().unwrap(), "1.5");
    let bad = Json::Array(vec![Json::Float("not a number".into())]);
    assert!(matches!(bad.to_text(), Err(AppError::Json { .. })));
}

#[test]
fn browser_cookie_header_is_imported() {
    let pairs = cookie_header_pairs("cookie2=abc; unb=42 ;junk; =x; _m_h5_tk=t_1=2");
    assert_eq!(
        pairs,
        vec![
            ("cookie2".to_string(), "abc".to_string()),
            ("unb".to_string(), "42".to_string()),
            ("_m_h5_tk".to_string(), "t_1=2".to_string()),
        ]
    );
    let mut jar = CookieJar::new();
    jar.insert("unb".into(), "1".into());
    assert_eq!(jar.import_header("unb=42; a=b"), 2);
    assert_eq!(jar.get("unb"), Some("42"));
    assert_eq!(jar.get("a"), Some("b"));
    assert_eq!(jar.len(), 2);
}

#[test]
fn cookie_jar_goes_through_the_auth_file_text() {
    let jar = CookieJar::from_pairs(vec![("unb".into(), "42".into()), ("cookie2".into(), "abc".into())]);
    let text = jar.to_json_text().unwrap();
    let back = CookieJar::from_json_bytes(text.as_bytes()).unwrap();
    assert_eq!(back.get("unb"), Some("42"));
    assert_eq!(back.get("cookie2"), Some("abc"));
    assert_eq!(back.len(), 2);
    assert!(CookieJar::from_json_bytes(br#"{"a": 1}"#).is_none());
    assert!(CookieJar::from_json_bytes(b"[]").is_none());
    assert!(CookieJar::from_json_bytes(b"not json").is_none());
}
