use fish_bot::attrs::{
    detect_receiver, extract_struct_ident, gen_message_handler, parse_command_attr, parse_event_attr,
    parse_message_attr, PluginMeta, plugin_handlers, AttrName, AttrToken, FirstInput, ImplEntry,
    MessageHandlerData, MethodAttr, ReceiverKind, runtime_path, FoundRuntime, parse_plugin_impl_attr,
};
use fish_bot::routing::RouteHint;
use fish_bot::rule::Rule;

fn ident(s: &str) -> AttrToken {
    AttrToken::Ident(s.into())
}

fn lit(s: &str) -> AttrToken {
    AttrToken::Str(s.into())
}

fn eq() -> AttrToken {
    AttrToken::Eq
}

fn comma() -> AttrToken {
    AttrToken::Comma
}

#[test]
fn command_with_pattern_only_is_exact() {
    let d = parse_command_attr(&[lit("/ping")]).unwrap();
    assert_eq!(d.pattern_value, "/ping");
    assert_eq!(d.kind.as_deref(), Some("exact"));
}

#[test]
fn command_with_pattern_and_kind() {
    let d = parse_command_attr(&[lit("/admin"), comma(), ident("kind"), eq(), lit("prefix")]).unwrap();
    assert_eq!(d.pattern_value, "/admin");
    assert_eq!(d.kind.as_deref(), Some("prefix"));
}

#[test]
fn command_with_named_pairs() {
    let d = parse_command_attr(&[ident("pattern"), eq(), lit(r"\d+"), comma(), ident("kind"), eq(), lit("regex")]).unwrap();
    assert_eq!(d.pattern_value, r"\d+");
    assert_eq!(d.kind.as_deref(), Some("regex"));
}

#[test]
fn command_fallback_word() {
    let d = parse_command_attr(&[ident("fallback")]).unwrap();
    assert_eq!(d.pattern_value, "");
    assert_eq!(d.kind.as_deref(), Some("fallback"));
}

#[test]
fn command_errors() {
    assert_eq!(parse_command_attr(&[]).unwrap_err(), "expected pattern string or `fallback`");
    assert_eq!(parse_command_attr(&[lit("/a"), lit("/b")]).unwrap_err(), "unexpected token");
    assert_eq!(parse_command_attr(&[lit("/a"), comma(), ident("mode"), eq(), lit("x")]).unwrap_err(), "unknown command key");
    assert_eq!(parse_command_attr(&[ident("pattern"), lit("x")]).unwrap_err(), "expected `=`");
    assert_eq!(parse_command_attr(&[ident("pattern"), eq(), ident("x")]).unwrap_err(), "expected string literal");
    assert_eq!(parse_command_attr(&[ident("pattern"), eq(), lit("x"), comma(), comma()]).unwrap_err(), "expected identifier");
}

#[test]
fn message_requires_keyword() {
    let d = parse_message_attr(&[ident("keyword"), eq(), lit("alert")]).unwrap();
    assert_eq!(d.pattern_value, "alert");
    assert!(d.kind.is_none());
    assert_eq!(parse_message_attr(&[]).unwrap_err(), "#[message(...)] requires `keyword`");
    assert_eq!(parse_message_attr(&[ident("word"), eq(), lit("x")]).unwrap_err(), "unknown message key");
}

#[test]
fn event_takes_one_string() {
    assert_eq!(parse_event_attr(&[lit("order_create")]).as_deref(), Some("order_create"));
    assert!(parse_event_attr(&[]).is_none());
    assert!(parse_event_attr(&[ident("order_create")]).is_none());
}

#[test]
fn plugin_meta_pairs_and_errors() {
    let m = PluginMeta::parse(&[ident("id"), eq(), lit("x"), comma(), ident("name"), eq(), lit("X"), comma(), ident("init"), eq(), lit("X::new()")]).unwrap();
    assert_eq!(m.id, "x");
    assert_eq!(m.name, "X");
    assert_eq!(m.init.as_deref(), Some("X::new()"));
    assert_eq!(m.version, "");
    assert_eq!(PluginMeta::parse(&[ident("name"), eq(), lit("X")]).unwrap_err(), "plugin id is required");
    assert_eq!(PluginMeta::parse(&[ident("id"), eq(), lit("x")]).unwrap_err(), "plugin name is required");
    assert_eq!(PluginMeta::parse(&[ident("colour"), eq(), lit("red")]).unwrap_err(), "unknown plugin metadata key: colour");
    assert_eq!(PluginMeta::parse(&[ident("id"), eq(), lit("x"), ident("name")]).unwrap_err(), "expected `,`");
}

#[test]
fn generated_handler_follows_kind() {
    let data = |p: &str, k: Option<&str>| MessageHandlerData { pattern_value: p.into(), kind: k.map(|s| s.to_string()) };
    let h = gen_message_handler("h", &data("/a", Some("prefix")), false);
    assert!(matches!(&h.route, RouteHint::Prefix(ps) if ps == &vec!["/a".to_string()]));
    let h = gen_message_handler("h", &data(r"\d+", Some("regex")), false);
    assert!(matches!(&h.route, RouteHint::Regex));
    assert!(matches!(&h.rule, Some(Rule::Regex(p)) if p == r"\d+"));
    let h = gen_message_handler("h", &data("", Some("fallback")), false);
    assert!(matches!(&h.route, RouteHint::Fallback));
    let h = gen_message_handler("h", &data("alert", None), true);
    assert!(matches!(&h.route, RouteHint::Keyword(ps) if ps == &vec!["alert".to_string()]));
    let h = gen_message_handler("h", &data("/x", Some("keyword")), false);
    assert!(matches!(&h.route, RouteHint::Exact(ps) if ps == &vec!["/x".to_string()]));
    assert_eq!(h.id, "h");
    assert_eq!(h.timeout_ms, 5000);
}

fn method(name: &str, attrs: Vec<(AttrName, Vec<AttrToken>)>) -> ImplEntry {
    ImplEntry::Method {
        ident: name.into(),
        attrs: attrs.into_iter().map(|(name, args)| MethodAttr { name, args }).collect(),
    }
}

#[test]
fn handlers_block_keeps_order_and_skips_double_declarations() {
    let block = vec![
        method("ping", vec![(AttrName::Other, vec![]), (AttrName::Command, vec![lit("/ping")])]),
        ImplEntry::Other,
        method("helper", vec![]),
        method("both", vec![(AttrName::Command, vec![lit("/a")]), (AttrName::Event, vec![lit("e")])]),
        method("alert", vec![(AttrName::Message, vec![ident("keyword"), eq(), lit("alert")])]),
        method("first", vec![(AttrName::Event, vec![lit("order_create")])]),
        method("second", vec![(AttrName::Event, vec![lit("order_create")])]),
    ];
    let h = plugin_handlers(&block).unwrap();
    assert_eq!(h.message_handlers.len(), 2);
    assert_eq!(h.message_handlers[0].id, "ping");
    assert!(matches!(&h.message_handlers[0].route, RouteHint::Exact(_)));
    assert_eq!(h.message_handlers[1].id, "alert");
    assert!(matches!(&h.message_handlers[1].route, RouteHint::Keyword(_)));
    assert_eq!(h.event_handlers, vec![("order_create".to_string(), "second".to_string())]);
    assert_eq!(h.kept, vec![0, 1, 2, 4, 5, 6]);
}

#[test]
fn handlers_block_reports_the_first_invalid_attribute() {
    let block = vec![
        method("bad", vec![(AttrName::Command, vec![])]),
        method("worse", vec![(AttrName::Event, vec![])]),
    ];
    assert_eq!(plugin_handlers(&block).unwrap_err(), "invalid #[command(...)]: expected pattern string or `fallback`");
    let block = vec![method("worse", vec![(AttrName::Event, vec![])])];
    assert_eq!(plugin_handlers(&block).unwrap_err(), "invalid #[event(...)]");
    let block = vec![method("m", vec![(AttrName::Message, vec![])])];
    assert_eq!(plugin_handlers(&block).unwrap_err(), "invalid #[message(...)]: #[message(...)] requires `keyword`");
}

#[test]
fn receiver_kinds() {
    assert_eq!(detect_receiver(None), ReceiverKind::Unbound);
    assert_eq!(detect_receiver(Some(FirstInput::Typed)), ReceiverKind::Unbound);
    assert_eq!(detect_receiver(Some(FirstInput::Receiver { reference: false, mutability: false })), ReceiverKind::Owned);
    assert_eq!(detect_receiver(Some(FirstInput::Receiver { reference: true, mutability: false })), ReceiverKind::Ref);
    assert_eq!(detect_receiver(Some(FirstInput::Receiver { reference: true, mutability: true })), ReceiverKind::MutRef);
}

#[test]
fn struct_name_of_an_item() {
    let ts = vec![ident("pub"), ident("struct"), ident("EchoPlugin"), AttrToken::Other];
    assert_eq!(extract_struct_ident(&ts).as_deref(), Some("EchoPlugin"));
    let ts = vec![ident("struct"), AttrToken::Other, ident("struct"), ident("Second")];
    assert_eq!(extract_struct_ident(&ts).as_deref(), Some("Second"));
    assert_eq!(extract_struct_ident(&[ident("enum"), ident("E")]), None);
}

#[test]
fn runtime_path_by_where_the_runtime_is() {
    assert_eq!(runtime_path(&FoundRuntime::Itself), "crate");
    assert_eq!(runtime_path(&FoundRuntime::Name("fish_rt".into())), "::fish_rt");
    assert_eq!(runtime_path(&FoundRuntime::NotFound), "::fish_runtime");
}

#[test]
fn initial_state_expression() {
    let m = PluginMeta::parse(&[ident("id"), eq(), lit("x"), comma(), ident("name"), eq(), lit("X")]).unwrap();
    assert_eq!(m.init_expr("Counter"), "Counter::default()");
    let m = PluginMeta::parse(&[ident("id"), eq(), lit("x"), comma(), ident("name"), eq(), lit("X"), comma(), ident("init"), eq(), lit("Counter::new(7)")]).unwrap();
    assert_eq!(m.init_expr("Counter"), "Counter::new(7)");
}

#[test]
fn message_with_a_bare_pattern_is_exact() {
    let d = parse_message_attr(&[lit("/ping")]).unwrap();
    assert_eq!(d.pattern_value, "/ping");
    assert_eq!(d.kind.as_deref(), Some("exact"));
    let h = plugin_handlers(&vec![method("ping", vec![(AttrName::Message, vec![lit("/ping")])])]).unwrap();
    assert!(matches!(&h.message_handlers[0].route, RouteHint::Exact(ps) if ps == &vec!["/ping".to_string()]));
}

#[test]
fn runtime_exposes_plugin_author_api() {
    let meta = parse_plugin_impl_attr(&[], "", "RuntimeApiPlugin").unwrap().metadata();
    assert_eq!(meta.id, "runtime_api_plugin");
    assert_eq!(meta.name, "RuntimeApiPlugin");
    let block = vec![method("ping", vec![(AttrName::Message, vec![lit("/ping")])])];
    assert_eq!(plugin_handlers(&block).unwrap().message_handlers.len(), 1);
}

#[test]
fn runtime_plugin_accepts_rust_init_expression() {
    let ts = vec![ident("Self"), AttrToken::Other, ident("value"), AttrToken::Other, AttrToken::Other, AttrToken::Other];
    let m = parse_plugin_impl_attr(&ts, "Self { value: 7 }", "CounterPlugin").unwrap();
    assert_eq!(m.init.as_deref(), Some("Self { value: 7 }"));
    assert_eq!(m.init_expr("CounterPlugin"), "Self { value: 7 }");
    assert_eq!(m.id, "counter_plugin");
    assert_eq!(m.name, "CounterPlugin");
    let block = vec![method("value", vec![(AttrName::Message, vec![lit("/value")])])];
    assert_eq!(plugin_handlers(&block).unwrap().message_handlers.len(), 1);
}

#[test]
fn plugin_impl_pairs_fall_back_to_the_struct() {
    let m = parse_plugin_impl_attr(&[ident("name"), eq(), lit("Nice")], "name = \"Nice\"", "MyPlugin").unwrap();
    assert_eq!(m.id, "my_plugin");
    assert_eq!(m.name, "Nice");
    assert!(m.init.is_none());
    assert_eq!(m.init_expr("MyPlugin"), "MyPlugin::default()");
    assert_eq!(
        parse_plugin_impl_attr(&[ident("colour"), eq(), lit("red")], "", "P").unwrap_err(),
        "unknown plugin metadata key: colour"
    );
}

#[test]
fn plugin_meta_last_pair_wins_and_first_unknown_key_is_named() {
    let m = PluginMeta::parse(&[
        ident("id"), eq(), lit("a"), comma(),
        ident("name"), eq(), lit("N"), comma(),
        ident("id"), eq(), lit("b"),
    ])
    .unwrap();
    assert_eq!(m.id, "b");
    assert_eq!(m.name, "N");
    assert_eq!(m.version, "");
    assert_eq!(m.description, "");
    assert_eq!(m.author, "");
    assert!(m.init.is_none());
    let e = PluginMeta::parse(&[
        ident("id"), eq(), lit("a"), comma(),
        ident("colour"), eq(), lit("red"), comma(),
        ident("size"), eq(), lit("big"),
    ])
    .unwrap_err();
    assert_eq!(e, "unknown plugin metadata key: colour");
}

#[test]
fn declared_handlers_carry_the_rule_of_their_kind() {
    let block = vec![
        method("on_kw", vec![(AttrName::Message, vec![ident("keyword"), eq(), lit("fish")])]),
        method("ping", vec![(AttrName::Command, vec![lit("/ping")])]),
        method("admin", vec![(AttrName::Command, vec![lit("/admin"), comma(), ident("kind"), eq(), lit("prefix")])]),
        method("rest", vec![(AttrName::Command, vec![ident("fallback")])]),
        ImplEntry::Other,
    ];
    let h = plugin_handlers(&block).unwrap();
    assert_eq!(h.message_handlers.len(), 4);
    assert!(matches!(&h.message_handlers[0].rule, Some(Rule::Keywords(ps)) if ps == &vec!["fish".to_string()]));
    assert!(matches!(&h.message_handlers[1].rule, Some(Rule::FullMatch(ps)) if ps == &vec!["/ping".to_string()]));
    assert!(matches!(&h.message_handlers[2].rule, Some(Rule::StartsWith(ps)) if ps == &vec!["/admin".to_string()]));
    assert!(h.message_handlers[3].rule.is_none());
    assert!(h.event_handlers.is_empty());
    assert_eq!(h.kept, vec![0, 1, 2, 3, 4]);
}
