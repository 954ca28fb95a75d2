use fish_bot::builder::{
    derived_handler_id, event_topic, message_topic, to_snake_case, type_label, ActorPluginBuilder,
    MailboxConfig, MessageRouteSpec,
};
use fish_bot::dispatch::{QueueStrategy, RuntimeConfig};
use fish_bot::plugin::{default_manifest, plugin_supports, Capability, PluginMetadata};
use fish_bot::routing::{HandlerSpec, RouteHint};
use fish_bot::rule::MatchList;
use fish_bot::sdk::PluginBuilder;

#[test]
fn plugin_t2_1_metadata_defaults() {
    let meta = PluginMetadata::default();
    assert_eq!(meta.id, "");
    assert_eq!(meta.name, "");
    assert_eq!(meta.version, "1.0.0");
    assert_eq!(meta.author, "Unknown");
}

#[test]
fn plugin_t2_33_plugin_metadata_full() {
    let meta = PluginMetadata {
        id: "custom".into(),
        name: "Custom".into(),
        description: "desc".into(),
        version: "2.0.0".into(),
        author: "tester".into(),
    };
    assert_eq!(meta.id, "custom");
    assert_eq!(meta.name, "Custom");
    assert_eq!(meta.description, "desc");
    assert_eq!(meta.version, "2.0.0");
    assert_eq!(meta.author, "tester");
}

#[test]
fn plugin_t2_36_plugin_metadata_debug() {
    let meta = PluginMetadata::default();
    let debug_str = format!("{:?}", meta);
    assert!(debug_str.contains("PluginMetadata"), "debug should contain struct name");
}

#[test]
fn t2_35_plugin_metadata_clone() {
    let meta = PluginMetadata {
        id: "clone_test".into(),
        name: "Clone".into(),
        description: "desc".into(),
        version: "3.0".into(),
        author: "author".into(),
    };
    let cloned = meta.clone();
    assert_eq!(cloned.id, meta.id);
    assert_eq!(cloned.name, meta.name);
    assert_eq!(cloned.version, meta.version);
}

#[test]
fn runtime_config_defaults() {
    let c = RuntimeConfig::default();
    assert_eq!(c.concurrency, 64);
    assert_eq!(c.timeout_ms, 5000);
    assert_eq!(c.queue_strategy, QueueStrategy::DropNewest);
    assert_eq!(QueueStrategy::default(), QueueStrategy::DropNewest);
}

#[test]
fn default_manifest_has_no_capabilities() {
    let meta = PluginMetadata { id: "m".into(), ..Default::default() };
    let m = default_manifest(&meta);
    assert_eq!(m.metadata.id, "m");
    assert!(m.capabilities.is_empty());
    assert_eq!(m.runtime.concurrency, 64);
}

#[test]
fn supports_follows_handler_rules() {
    let hs = vec![HandlerSpec::exact("ping", MatchList::from("/ping"))];
    assert!(plugin_supports(&hs, " /ping "));
    assert!(!plugin_supports(&hs, "/pong"));
    let hs2 = vec![HandlerSpec::fallback("all")];
    assert!(plugin_supports(&hs2, "anything"));
    assert!(!plugin_supports(&[], "anything"));
}

#[test]
fn snake_case_of_names() {
    assert_eq!(to_snake_case("CountActor"), "count_actor");
    assert_eq!(to_snake_case("Count"), "count");
    assert_eq!(to_snake_case("OrderCreated"), "order_created");
    assert_eq!(to_snake_case("HTTPServer"), "httpserver");
    assert_eq!(to_snake_case("my-Type2Name"), "my_type2_name");
    assert_eq!(to_snake_case("__A__"), "a");
    assert_eq!(to_snake_case(""), "");
}

#[test]
fn type_labels_and_handler_ids() {
    assert_eq!(type_label("crate::module::Ping"), "Ping");
    assert_eq!(type_label("Ping"), "Ping");
    assert_eq!(type_label("a:::b"), "b");
    assert_eq!(derived_handler_id("app::msgs::OrderCreated"), "order_created");
}

#[test]
fn topics_name_plugin_and_handler() {
    assert_eq!(message_topic("echo", "ping"), "plugin:echo:message:ping");
    assert_eq!(event_topic("echo", "order"), "plugin:echo:event:order");
}

#[test]
fn actor_plugin_builder_names_and_settings() {
    let b = ActorPluginBuilder::new("my_app::actors::CountActor");
    assert_eq!(b.metadata.id, "count_actor");
    assert_eq!(b.metadata.name, "CountActor");
    assert_eq!(b.mailbox, MailboxConfig::Bounded(64));
    let b = b
        .id("count")
        .name("Count")
        .timeout_ms(9000)
        .concurrency(8)
        .queue_strategy(QueueStrategy::DropOldest(4))
        .unbounded_mailbox()
        .on_message("/ping", "my_app::Ping")
        .on_event("order_create", "my_app::OrderCreated");
    assert_eq!(b.metadata.id, "count");
    assert_eq!(b.runtime.timeout_ms, 9000);
    assert_eq!(b.runtime.concurrency, 8);
    assert_eq!(b.mailbox, MailboxConfig::Unbounded);
    let hs = b.message_handlers();
    assert_eq!(hs.len(), 1);
    assert_eq!(hs[0].id, "ping");
    assert_eq!(hs[0].timeout_ms, 9000);
    let es = b.event_handlers();
    assert_eq!(es[0].id, "order_created");
    assert_eq!(es[0].event_type, "order_create");
}

#[test]
fn route_spec_into_handler() {
    let h = MessageRouteSpec::Prefix("/admin".into()).into_handler("admin", 1000);
    assert!(matches!(&h.route, RouteHint::Prefix(ps) if ps == &vec!["/admin".to_string()]));
    assert_eq!(h.timeout_ms, 1000);
    let f = MessageRouteSpec::Fallback.into_handler("f", 5);
    assert!(f.rule.is_none());
}

#[test]
fn s3_1_builder_single_command() {
    let plugin = PluginBuilder::new("test", "Test").command("ping", "/ping").build();
    assert_eq!(plugin.metadata.id, "test");
    assert_eq!(plugin.metadata.name, "Test");
    assert_eq!(plugin.message_handlers.len(), 1);
    assert_eq!(plugin.message_handlers[0].id, "ping");
}

#[test]
fn sdk_builder_timeout_applies_to_later_handlers() {
    let plugin = PluginBuilder::new("t", "T")
        .command("a", "/a")
        .timeout_ms(100)
        .prefix("b", "/b")
        .keyword("c", "c")
        .regex("d", "^d$")
        .fallback("e")
        .on_event("order_create", "oc")
        .capability(Capability::Network)
        .concurrency(2)
        .description("desc")
        .version("2.0")
        .author("me")
        .build();
    assert_eq!(plugin.message_handlers[0].timeout_ms, 5000);
    assert_eq!(plugin.message_handlers[1].timeout_ms, 100);
    assert_eq!(plugin.message_handlers.len(), 5);
    assert_eq!(plugin.event_handlers[0].event_type, "order_create");
    assert_eq!(plugin.capabilities, vec![Capability::Network]);
    assert_eq!(plugin.runtime.concurrency, 2);
    assert_eq!(plugin.runtime.timeout_ms, 100);
    assert_eq!(plugin.metadata.author, "me");
}

#[test]
fn t2_1_metadata_defaults() {
    let meta = PluginMetadata::default();
    assert_eq!(meta.id, "");
    assert_eq!(meta.name, "");
    assert_eq!(meta.version, "1.0.0");
    assert_eq!(meta.author, "Unknown");
}

#[test]
fn t2_33_plugin_metadata_full() {
    let meta = PluginMetadata {
        id: "custom".into(),
        name: "Custom".into(),
        description: "desc".into(),
        version: "2.0.0".into(),
        author: "tester".into(),
    };
    assert_eq!(meta.id, "custom");
    assert_eq!(meta.name, "Custom");
    assert_eq!(meta.description, "desc");
    assert_eq!(meta.version, "2.0.0");
    assert_eq!(meta.author, "tester");
}

#[test]
fn t2_36_plugin_metadata_debug() {
    let meta = PluginMetadata::default();
    let debug_str = format!("{:?}", meta);
    assert!(debug_str.contains("PluginMetadata"), "debug should contain struct name");
}

#[test]
fn snake_case_is_stable_and_clean() {
    for name in ["RuntimeApiPlugin", "__Weird--Name__", "HTTPServer2Go", "a b  c", "x", "", "___"] {
        let once = to_snake_case(name);
        assert_eq!(to_snake_case(&once), once);
        assert!(once.chars().all(|c| c.is_ascii_lowercase() || c.is_ascii_digit() || c == '_'));
        assert!(!once.contains("__"));
        assert!(!once.starts_with('_') && !once.ends_with('_'));
    }
}
