use fish_bot::builder::{ActorPluginBuilder, MailboxConfig};
use fish_bot::dispatch::QueueStrategy;
use fish_bot::plugin::Capability;
use fish_bot::sdk::{BuiltPlugin, PluginBuilder};

#[test]
fn s3_2_builder_event_handler() {
    let plugin = PluginBuilder::new("evt", "Event").on_event("order_create", "notify").build();
    let handlers = &plugin.event_handlers;
    assert_eq!(handlers.len(), 1);
    assert!(handlers.iter().any(|h| h.event_type == "order_create"));
}

#[test]
fn s3_3_builder_metadata() {
    let plugin = PluginBuilder::new("meta", "MetaTest").description("desc").version("2.0").author("tester").build();
    assert_eq!(plugin.metadata.description, "desc");
    assert_eq!(plugin.metadata.version, "2.0");
    assert_eq!(plugin.metadata.author, "tester");
}

#[test]
fn s3_4_builder_all_handler_types() {
    let plugin = PluginBuilder::new("all", "All")
        .command("c1", "/c1")
        .prefix("c2", "/admin")
        .keyword("c3", "alert")
        .regex("c4", r"\d+")
        .fallback("c5")
        .build();
    assert_eq!(plugin.message_handlers.len(), 5);
}

#[test]
fn s3_5_builder_returns_composable_plugin() {
    let plugin = PluginBuilder::new("reg", "Reg").command("ping", "/ping").build();
    let plugins: Vec<BuiltPlugin> = vec![plugin];
    assert_eq!(plugins.len(), 1);
    assert_eq!(plugins[0].metadata.id, "reg");
}

#[test]
fn s4_1_builder_capability() {
    let plugin = PluginBuilder::new("cap", "CapTest")
        .capability(Capability::Network)
        .capability(Capability::SendMessage)
        .build();
    assert_eq!(plugin.capabilities.len(), 2);
    assert!(plugin.capabilities.contains(&Capability::Network));
}

#[test]
fn s4_2_builder_runtime_config() {
    let plugin = PluginBuilder::new("rt", "RTTest")
        .concurrency(8)
        .timeout_ms(3000)
        .queue_strategy(QueueStrategy::DropOldest(10))
        .build();
    let config = &plugin.runtime;
    assert_eq!(config.concurrency, 8);
    assert_eq!(config.timeout_ms, 3000);
    assert_eq!(config.queue_strategy, QueueStrategy::DropOldest(10));
}

#[test]
fn actor_plugin_builder_preserves_runtime_config() {
    let plugin = ActorPluginBuilder::new("app::CountActor")
        .timeout_ms(9000)
        .concurrency(8)
        .queue_strategy(QueueStrategy::DropOldest(32))
        .unbounded_mailbox();
    assert_eq!(plugin.runtime.timeout_ms, 9000);
    assert_eq!(plugin.runtime.concurrency, 8);
    assert_eq!(plugin.runtime.queue_strategy, QueueStrategy::DropOldest(32));
    assert_eq!(plugin.mailbox, MailboxConfig::Unbounded);
}

#[test]
fn actor_plugin_builder_is_itself_a_plugin() {
    let plugin = ActorPluginBuilder::new("app::CountActor").on_message("/ping", "app::Ping");
    assert_eq!(plugin.metadata.id, "count_actor");
    assert_eq!(plugin.metadata.name, "CountActor");
    assert_eq!(plugin.message_handlers().len(), 1);
    assert_eq!(plugin.message_handlers()[0].id, "ping");
}

#[test]
fn actor_plugin_builder_allows_metadata_override() {
    let plugin = ActorPluginBuilder::new("app::CountActor").id("count").name("Count").on_message("/ping", "app::Ping");
    assert_eq!(plugin.metadata.id, "count");
    assert_eq!(plugin.metadata.name, "Count");
}

#[test]
fn actor_plugin_event_handler_id_comes_from_message_type() {
    let plugin = ActorPluginBuilder::new("app::CountActor").on_event("order_create", "app::OrderCreated");
    let handlers = plugin.event_handlers();
    assert_eq!(handlers.len(), 1);
    assert_eq!(handlers[0].id, "order_created");
    assert_eq!(handlers[0].event_type, "order_create");
}
