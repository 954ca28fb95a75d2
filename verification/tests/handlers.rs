use fish_bot::plugin::{plugin_supports, PluginMetadata};
use fish_bot::routing::{EventHandlerSpec, HandlerSpec, RouteHint};

fn test_plugin_handlers() -> Vec<HandlerSpec> {
    vec![HandlerSpec::new("handler1", RouteHint::Fallback, None)]
}

fn test_plugin_metadata() -> PluginMetadata {
    PluginMetadata { id: "test".into(), name: "测试插件".into(), description: "测试".into(), ..Default::default() }
}

#[test]
fn t2_2_plugin_supports_matching_events() {
    let handlers = test_plugin_handlers();
    assert!(plugin_supports(&handlers, "/hello"));
}

#[test]
fn plugin_t2_4_message_handler_construct() {
    let handler = HandlerSpec::new("h1", RouteHint::Fallback, None);
    assert!(handler.rule.is_none());
}

#[test]
fn handlers_t2_4_message_handler_construct() {
    let handler = HandlerSpec::new("h1", RouteHint::Fallback, None);
    assert!(handler.rule.is_none());
}

#[test]
fn plugin_t2_3_plugin_metadata_id_is_stable() {
    let meta = test_plugin_metadata();
    assert_eq!(meta.id, "test");
}

#[test]
fn handlers_t2_3_plugin_metadata_id_is_stable() {
    let meta = PluginMetadata { id: "test".into(), name: "测试插件".into(), ..Default::default() };
    assert_eq!(meta.id, "test");
}

#[test]
fn plugin_t2_20_event_handler_construct() {
    let handler = EventHandlerSpec::new("notice", "test_event");
    assert_eq!(handler.event_type, "notice");
    assert_eq!(handler.id, "test_event");
    assert!(handler.rule.is_none());
}

#[test]
fn handlers_t2_20_event_handler_construct() {
    let handler = EventHandlerSpec::new("notice", "test_event");
    assert_eq!(handler.event_type, "notice");
    assert_eq!(handler.id, "test_event");
    assert!(handler.rule.is_none());
}

#[test]
fn plugin_t2_32_plugin_with_event_handlers() {
    let handlers = vec![EventHandlerSpec::new("notice", "notice_handler")];
    assert_eq!(handlers.len(), 1);
    assert_eq!(handlers[0].event_type, "notice");
}

#[test]
fn handlers_t2_32_plugin_with_event_handlers() {
    let handlers = vec![EventHandlerSpec::new("notice", "notice_handler")];
    assert_eq!(handlers.len(), 1);
    assert_eq!(handlers[0].event_type, "notice");
}

#[test]
fn plugin_t2_37_message_handler_without_rule() {
    let handler = HandlerSpec::new("h1", RouteHint::Fallback, None);
    assert!(handler.rule.is_none());
}

#[test]
fn handlers_t2_37_message_handler_without_rule() {
    let handler = HandlerSpec::new("h1", RouteHint::Fallback, None);
    assert!(handler.rule.is_none());
}

#[test]
fn new_handler_keeps_route_and_default_timeout() {
    let handler = HandlerSpec::new("h2", RouteHint::Exact(vec!["/x".into()]), None);
    assert_eq!(handler.id, "h2");
    assert_eq!(handler.timeout_ms, 5000);
    assert!(matches!(handler.route, RouteHint::Exact(ref v) if v == &vec!["/x".to_string()]));
}
