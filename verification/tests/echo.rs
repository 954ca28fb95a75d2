use fish_bot::attrs::{
    PluginMeta, plugin_handlers, AttrName, AttrToken, ImplEntry, MethodAttr,
};
use fish_bot::echo::{echo_reply, EchoPlugin};
use fish_bot::event::MessageEvent;
use fish_bot::json::Json;
use fish_bot::message::MessageChain;

fn event(text: &str) -> MessageEvent {
    MessageEvent::new("cid".into(), "uid".into(), "name".into(), MessageChain::from_text(text), Json::Object(vec![]))
}

fn ident(s: &str) -> AttrToken {
    AttrToken::Ident(s.into())
}

fn lit(s: &str) -> AttrToken {
    AttrToken::Str(s.into())
}

fn pair(k: &str, v: &str) -> Vec<AttrToken> {
    vec![ident(k), AttrToken::Eq, lit(v), AttrToken::Comma]
}

/// The tokens of the echo plugin's `#[plugin(..)]` arguments, trailing comma included.
fn echo_plugin_args() -> Vec<AttrToken> {
    let mut ts = Vec::new();
    ts.extend(pair("id", "echo"));
    ts.extend(pair("name", "回声插件"));
    ts.extend(pair("description", "一个简单的回声插件，用于演示自动回复功能"));
    ts.extend(pair("version", "1.0.0"));
    ts.extend(pair("author", "Kaguya233qwq"));
    ts
}

fn method(name: &str, attr: AttrName, args: Vec<AttrToken>) -> ImplEntry {
    ImplEntry::Method { ident: name.into(), attrs: vec![MethodAttr { name: attr, args }] }
}

/// The echo plugin's `#[plugin_handlers]` block.
fn echo_block() -> Vec<ImplEntry> {
    vec![
        method("echo", AttrName::Command, vec![lit("/echo")]),
        method("on_order", AttrName::Event, vec![lit("order_create")]),
        method("on_purchase", AttrName::Event, vec![lit("item_purchased")]),
    ]
}

#[test]
fn echo_metadata() {
    let meta = PluginMeta::parse(&echo_plugin_args()).unwrap().metadata();
    assert_eq!(meta.id, "echo");
    assert_eq!(meta.name, "回声插件");
    assert_eq!(meta.version, "1.0.0");
    assert_eq!(meta.author, "Kaguya233qwq");
}

#[test]
fn echo_handler_count() {
    let handlers = plugin_handlers(&echo_block()).unwrap();
    assert_eq!(handlers.message_handlers.len(), 1);
}

#[test]
fn echo_handler_rule_fullmatch() {
    let handlers = plugin_handlers(&echo_block()).unwrap();
    let rule = handlers.message_handlers[0].rule.as_ref().expect("rule should exist");
    assert!(rule.check(&event("/echo")));
    assert!(!rule.check(&event("/echo help")));
}

#[test]
fn echo_event_handlers() {
    let handlers = plugin_handlers(&echo_block()).unwrap();
    let events = &handlers.event_handlers;
    assert_eq!(events.len(), 2);
    assert!(events.iter().any(|(t, _)| t == "order_create"));
    assert!(events.iter().any(|(t, _)| t == "item_purchased"));
}

#[test]
fn echo_handler_responds() {
    assert_eq!(echo_reply("/echo"), "Echo: /echo");
}

#[test]
fn echo_handler_whitespace_input() {
    assert_eq!(echo_reply("  hello  "), "Echo: hello");
}

#[test]
fn t2_10_echo_metadata() {
    let plugin = EchoPlugin::new();
    let meta = plugin.metadata();
    assert_eq!(meta.id, "echo");
    assert_eq!(meta.name, "回声插件");
    assert_eq!(meta.version, "1.0.0");
}

#[test]
fn t2_11_echo_handlers() {
    let plugin = EchoPlugin::new();
    let handlers = plugin.message_handlers();
    assert_eq!(handlers.len(), 1);
    assert!(handlers[0].rule.is_some());
}

#[test]
fn t2_12_echo_handler_matches() {
    assert_eq!(echo_reply("/echo"), "Echo: /echo");
}

#[test]
fn t2_13_echo_rule_requires_fullmatch() {
    let plugin = EchoPlugin::new();
    let rule = plugin.message_handlers()[0].rule.as_ref().expect("rule should exist");
    assert!(rule.check(&event("/echo")));
    assert!(!rule.check(&event("/echo help")));
}

#[test]
fn t2_24_handler_empty_input() {
    assert_eq!(echo_reply(""), "Echo: ");
}

#[test]
fn t2_25_handler_whitespace_input() {
    assert_eq!(echo_reply("  hello  "), "Echo: hello");
}

#[test]
fn t2_28_echo_default() {
    let plugin = EchoPlugin::default();
    assert_eq!(plugin.metadata().id, "echo");
}

#[test]
fn t2_29_echo_metadata_fields() {
    let plugin = EchoPlugin::new();
    let meta = plugin.metadata();
    assert_eq!(meta.author, "Kaguya233qwq");
    assert!(meta.description.contains("回声"));
}

#[test]
fn echo_plugin_handles_order_events() {
    let plugin = EchoPlugin::new();
    let events = plugin.event_handlers();
    assert_eq!(events.len(), 2);
    assert_eq!(events[0].event_type, "order_create");
    assert_eq!(events[1].id, "purchase_notify");
}
