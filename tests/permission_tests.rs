use goose_config::permission::{StorageType, ToolCall, ToolPermissionStore, ToolRequest};
use serde_json::Value;

fn request(name: &str, key: &str, value: &str) -> ToolRequest {
    let mut args = serde_json::Map::new();
    args.insert(key.to_string(), Value::String(value.to_string()));
    ToolRequest {
        id: "test_id".to_string(),
        tool_call: ToolCall { name: name.to_string(), arguments: Value::Object(args) },
    }
}

#[test]
fn test_in_memory_permission_store() {
    let mut store = ToolPermissionStore::new_in_memory();
    let tool_request = request("test_tool", "key", "value");
    store.record_permission(&tool_request, true, None, 1_000);
    let permission = store.check_permission(&tool_request, 1_000);
    assert_eq!(permission, Some(true));
}

#[test]
fn test_env_var_in_memory_permission_store() {
    let mut store = ToolPermissionStore::new(true, ".config/goose".to_string());
    assert!(matches!(store.storage(), StorageType::Memory));
    let tool_request = request("test_tool", "key", "value");
    store.record_permission(&tool_request, true, None, 1_000);
    let permission = store.check_permission(&tool_request, 1_000);
    assert_eq!(permission, Some(true));
}

#[test]
fn other_arguments_get_no_decision() {
    let mut store = ToolPermissionStore::new_in_memory();
    store.record_permission(&request("t", "key", "value"), true, None, 10);
    assert_eq!(store.check_permission(&request("t", "key", "other"), 10), None);
    assert_eq!(store.check_permission(&request("u", "key", "value"), 10), None);
}

#[test]
fn expired_decision_is_ignored_and_pruned() {
    let mut store = ToolPermissionStore::new_in_memory();
    let r = request("t", "key", "value");
    store.record_permission(&r, true, Some(5), 100);
    assert_eq!(store.check_permission(&r, 104), Some(true));
    assert_eq!(store.check_permission(&r, 105), None);
    assert!(!store.cleanup_expired(104));
    assert!(store.cleanup_expired(105));
    assert_eq!(store.permissions().len(), 0);
    assert!(!store.cleanup_expired(200));
}

#[test]
fn latest_live_decision_wins() {
    let mut store = ToolPermissionStore::new_in_memory();
    let r = request("t", "key", "value");
    store.record_permission(&r, true, None, 100);
    store.record_permission(&r, false, Some(10), 101);
    assert_eq!(store.check_permission(&r, 105), Some(false));
    assert_eq!(store.check_permission(&r, 111), Some(true));
}

#[test]
fn record_fields_and_hash() {
    let mut store = ToolPermissionStore::new_in_memory();
    let r = request("t", "key", "value");
    store.record_permission(&r, false, Some(30), 50);
    let map = store.permissions();
    assert_eq!(map.len(), 1);
    let (key, records) = map.entry_at(0);
    let rec = &records[0];
    assert_eq!(rec.tool_name, "t");
    assert!(!rec.allowed);
    assert_eq!(rec.timestamp, 50);
    assert_eq!(rec.expiry, Some(80));
    assert_eq!(rec.context_hash.len(), 64);
    let expected = blake3::hash(b"{\"key\":\"value\"}").to_hex().to_string();
    assert_eq!(rec.context_hash, expected);
    assert_eq!(key, &format!("t:{}", expected));
    assert_eq!(
        rec.readable_context.as_deref(),
        Some("Tool: t, Args: {\"key\":\"value\"}")
    );
}

#[test]
fn load_prunes_saved_records() {
    let mut source = ToolPermissionStore::new_in_memory();
    let r = request("t", "key", "value");
    source.record_permission(&r, true, Some(1), 0);
    source.record_permission(&request("t", "key", "x"), true, None, 0);
    let map = source.permissions();
    let mut saved = Vec::new();
    for i in 0..map.pair_count() {
        let (k, v) = map.entry_at(i);
        saved.push((k.clone(), v.clone()));
    }
    let (store, changed) = ToolPermissionStore::load(false, "/tmp/p".to_string(), Some((saved, 1)), 10);
    assert!(changed);
    assert_eq!(store.permissions().len(), 1);
    assert_eq!(store.version(), 1);
    assert_eq!(store.check_permission(&request("t", "key", "x"), 10), Some(true));
    let (empty, changed) = ToolPermissionStore::load(true, "/tmp/p".to_string(), None, 10);
    assert!(!changed);
    assert!(matches!(empty.storage(), StorageType::Memory));
}
