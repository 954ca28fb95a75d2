use fish_bot::plugin::PluginMetadata;
use fish_bot::registry::PluginManager;

fn meta(id: &str, name: &str) -> PluginMetadata {
    PluginMetadata { id: id.into(), name: name.into(), ..Default::default() }
}

fn entry(id: &str, name: &str) -> (String, PluginMetadata) {
    (id.to_string(), meta(id, name))
}

#[test]
fn t2_15_from_plugins_loads_explicit_plugins() {
    let mgr = PluginManager::from_plugins(vec![entry("plugin_a", "A"), entry("plugin_b", "B")]);
    assert!(mgr.contains_key("plugin_a"), "plugin_a should be loaded");
    assert!(mgr.contains_key("plugin_b"), "plugin_b should be loaded");
}

#[test]
fn t2_16_from_plugins_skips_duplicate_ids() {
    let mgr = PluginManager::from_plugins(vec![entry("test_dupe_id", "X"), entry("test_dupe_id", "X2")]);
    assert!(mgr.contains_key("test_dupe_id"), "plugin should be loaded");
    assert_eq!(mgr.get("test_dupe_id").unwrap().name, "X", "first registered plugin should be the one loaded");
}

#[test]
fn loader_t2_17_is_empty_before_after() {
    let mgr: PluginManager<PluginMetadata> = PluginManager::new();
    assert!(mgr.is_empty());
}

#[test]
fn t2_26_load_empty_registry() {
    let mgr: PluginManager<PluginMetadata> = PluginManager::new();
    assert!(mgr.is_empty());
}

#[test]
fn t2_27_len_is_empty() {
    let empty_mgr: PluginManager<PluginMetadata> = PluginManager::new();
    assert_eq!(empty_mgr.len(), 0);
    assert!(empty_mgr.is_empty());

    let mut mgr = PluginManager::new();
    mgr.insert("len_test".into(), PluginMetadata { id: "len_test".into(), ..Default::default() });
    assert_eq!(mgr.len(), 1);
    assert!(!mgr.is_empty());
}

#[test]
fn t2_28_plugin_manager_default() {
    let mgr: PluginManager<PluginMetadata> = PluginManager::default();
    assert_eq!(mgr.len(), 0);
    assert!(mgr.is_empty());
}

#[test]
fn t2_29_from_plugins_deduplicates_within_input() {
    let mgr = PluginManager::from_plugins(vec![entry("load_twice", "Once"), entry("load_twice", "Once Again")]);
    assert_eq!(mgr.len(), 1, "duplicate ids should be loaded once");
    assert!(mgr.contains_key("load_twice"));
}

#[test]
fn t2_15_load_all_plugins() {
    let mut mgr = PluginManager::new();
    mgr.load_all_plugins(vec![entry("plugin_a", "A"), entry("plugin_b", "B")]);
    assert!(mgr.contains_key("plugin_a"), "plugin_a should be loaded");
    assert!(mgr.contains_key("plugin_b"), "plugin_b should be loaded");
}

#[test]
fn t2_16_duplicate_id_skipped() {
    let mut mgr = PluginManager::new();
    mgr.load_all_plugins(vec![entry("test_dupe_id", "X"), entry("test_dupe_id", "X2")]);
    assert!(mgr.contains_key("test_dupe_id"), "plugin should be loaded");
    assert_eq!(mgr.get("test_dupe_id").unwrap().name, "X", "first registered plugin should be the one loaded");
}

#[test]
fn loading_onto_a_manager_skips_ids_already_loaded() {
    let mut mgr = PluginManager::from_plugins(vec![entry("a", "first")]);
    mgr.load_all_plugins(vec![entry("a", "second"), entry("b", "B")]);
    assert_eq!(mgr.len(), 2);
    assert_eq!(mgr.get("a").unwrap().name, "first");
}

#[test]
fn insert_replaces_the_plugin_under_an_id() {
    let mut mgr = PluginManager::from_plugins(vec![entry("a", "first"), entry("b", "B")]);
    mgr.insert("a".into(), meta("a", "replaced"));
    assert_eq!(mgr.len(), 2);
    assert_eq!(mgr.get("a").unwrap().name, "replaced");
}
