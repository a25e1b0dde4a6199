use workspace_control::digest::hash_secret;
use workspace_control::json::JsonValue;
use workspace_control::json_write::json_encoding;
use workspace_control::storage::node_pool_store::ResolvedPlacement;
use workspace_control::storage::template_upgrade::{
    migrate_template_document, migrate_template_documents, parse_u64, placement_json,
    selector_map,
};
use workspace_control::storage::StorageError;

fn text(value: &str) -> JsonValue {
    JsonValue::Text(value.to_owned())
}

fn number(value: &str) -> JsonValue {
    JsonValue::Number(value.to_owned())
}

fn object(members: Vec<(&str, JsonValue)>) -> JsonValue {
    JsonValue::Object(
        members
            .into_iter()
            .map(|(name, value)| (name.to_owned(), value))
            .collect(),
    )
}

fn template(spec: Vec<(&str, JsonValue)>) -> JsonValue {
    object(vec![("kind", text("WorkspaceTemplate")), ("spec", object(spec))])
}

fn pairs(values: &[(&str, &str)]) -> Vec<(String, String)> {
    values.iter().map(|(k, v)| (k.to_string(), v.to_string())).collect()
}

#[test]
fn numbers_are_read_as_unsigned_integers() {
    assert_eq!(parse_u64("12"), Some(12));
    assert_eq!(parse_u64("18446744073709551615"), Some(u64::MAX));
    assert_eq!(parse_u64("18446744073709551616"), None);
    assert_eq!(parse_u64("-1"), None);
    assert_eq!(parse_u64("1.5"), None);
    assert_eq!(parse_u64(""), None);
}

#[test]
fn selectors_become_sorted_maps_keeping_the_last_value() {
    assert_eq!(
        selector_map(pairs(&[("zone", "b"), ("disk", "ssd"), ("zone", "a")])),
        pairs(&[("disk", "ssd"), ("zone", "a")])
    );
    let placement = ResolvedPlacement {
        selector: pairs(&[("disk", "ssd"), ("zone", "a")]),
        required_hosts: vec!["n1".to_owned(), "n2".to_owned()],
        preferred_hosts: Vec::new(),
    };
    assert_eq!(
        placement_json(&placement),
        r#"{"selector":{"disk":"ssd","zone":"a"},"required_hosts":["n1","n2"],"preferred_hosts":[]}"#
    );
}

#[test]
fn old_node_choices_become_an_imported_pool() {
    let document = template(vec![
        ("image", text("img")),
        (
            "storage_policy",
            object(vec![("build_scratch_gib", number("20")), ("codex_scratch_gib", number("4"))]),
        ),
        ("ephemeral_storage_limit_mib", number("1024")),
        ("pod_requests", object(vec![("cpu", text("1")), ("ephemeral_storage_mib", number("512"))])),
        (
            "node_selector",
            object(vec![("zone", text("b")), ("disk", text("ssd")), ("zone", text("a"))]),
        ),
        ("required_node_names", JsonValue::Array(vec![text("n2"), text("n1"), text("n2")])),
    ]);
    let migrated = migrate_template_document(document).unwrap();
    assert_eq!(migrated.temporary_storage_gib, 32);
    let placement =
        r#"{"selector":{"disk":"ssd","zone":"a"},"required_hosts":["n1","n2"],"preferred_hosts":[]}"#;
    let name = format!("placement-{}", &hash_secret(placement)[..24]);
    assert_eq!(migrated.pools.len(), 1);
    assert_eq!(migrated.pools[0].name, name);
    assert_eq!(migrated.pools[0].display_name, "Custom placement");
    assert_eq!(migrated.pools[0].placement.selector, pairs(&[("disk", "ssd"), ("zone", "a")]));
    assert_eq!(migrated.placement.default_node_pool, name);
    assert_eq!(migrated.placement.allowed_node_pools, vec![name.clone()]);
    assert_eq!(
        json_encoding(&migrated.document),
        format!(
            r#"{{"kind":"WorkspaceTemplate","spec":{{"image":"img","storage_policy":{{"temporary_storage_gib":32}},"pod_requests":{{"cpu":"1"}},"placement":{{"allowed_node_pools":["{name}"],"default_node_pool":"{name}"}}}}}}"#
        )
    );
}

#[test]
fn templates_without_node_choices_use_the_default_pool() {
    let document = template(vec![
        ("image", text("img")),
        ("storage_policy", object(vec![("temporary_storage_gib", number("5000"))])),
        ("node_selector", JsonValue::Null),
    ]);
    let migrated = migrate_template_document(document).unwrap();
    assert_eq!(migrated.temporary_storage_gib, 2048);
    assert!(migrated.pools.is_empty());
    assert_eq!(migrated.placement.default_node_pool, "default");
    assert_eq!(migrated.placement.allowed_node_pools, vec!["default".to_owned()]);
    assert_eq!(
        json_encoding(&migrated.document),
        r#"{"kind":"WorkspaceTemplate","spec":{"image":"img","storage_policy":{"temporary_storage_gib":2048},"placement":{"allowed_node_pools":["default"],"default_node_pool":"default"}}}"#
    );
    let bare = migrate_template_document(template(Vec::new())).unwrap();
    assert_eq!(bare.temporary_storage_gib, 22);
}

#[test]
fn unreadable_template_documents_are_refused() {
    let refused = |document: JsonValue| {
        matches!(migrate_template_document(document), Err(StorageError::InvalidTemplate))
    };
    assert!(refused(text("not a document")));
    assert!(refused(object(vec![("kind", text("WorkspaceTemplate"))])));
    assert!(refused(object(vec![("spec", text("spec"))])));
    assert!(refused(template(vec![("node_selector", object(vec![("zone", number("1"))]))])));
    assert!(refused(template(vec![("required_node_names", JsonValue::Array(vec![number("1")]))])));
    assert!(refused(template(vec![("preferred_node_names", text("n1"))])));
}

#[test]
fn template_documents_are_upgraded_all_or_none() {
    let upgraded = migrate_template_documents(vec![template(Vec::new()), template(Vec::new())]).unwrap();
    assert_eq!(upgraded.len(), 2);
    assert!(matches!(
        migrate_template_documents(vec![template(Vec::new()), text("broken")]),
        Err(StorageError::InvalidTemplate)
    ));
}
