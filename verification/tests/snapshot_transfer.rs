use workspace_control::storage::transfer::{
    api_key_rows_to_import, check_missing_table, check_row_installations, check_snapshot_header,
    ensure_destination_empty, legacy_workspace_runtime, normalize_runtime_profile,
    template_yaml_missing, SnapshotApiKeyRow, SNAPSHOT_FORMAT_VERSION,
};
use workspace_control::storage::migration::check_runtime_row;
use workspace_control::storage::StorageError;

#[test]
fn imported_rows_must_belong_to_the_snapshot_installation() {
    let rows = vec![Some("other-installation".to_owned())];
    assert!(check_row_installations("users", &rows, "snapshot-test").is_err());
}

#[test]
fn rows_without_an_installation_are_refused_and_matching_rows_pass() {
    assert_eq!(
        check_row_installations("users", &vec![Some("snapshot-test".to_owned()), None], "snapshot-test"),
        Err(StorageError::SnapshotRowInstallationMismatch { table: "users".to_owned() })
    );
    assert_eq!(
        check_row_installations("users", &vec![Some("snapshot-test".to_owned())], "snapshot-test"),
        Ok(())
    );
    assert_eq!(check_row_installations("users", &Vec::new(), "snapshot-test"), Ok(()));
}

#[test]
fn v14_api_keys_are_not_imported_without_explicit_bounded_grants() {
    // The row has neither `scopes_json` nor `expires_at`.
    let rows = vec![SnapshotApiKeyRow { scope_count: None, has_expiry: false }];
    let kept = api_key_rows_to_import(&rows, 14);
    assert!(kept.iter().all(|keep| !keep));
}

#[test]
fn unbounded_or_wildcard_snapshot_keys_are_not_imported() {
    let rows = vec![
        // `["*"]` names no known grant and does not parse.
        SnapshotApiKeyRow { scope_count: None, has_expiry: true },
        // `["read_workspace"]` without an expiry.
        SnapshotApiKeyRow { scope_count: Some(1), has_expiry: false },
    ];
    let kept = api_key_rows_to_import(&rows, 16);
    assert!(kept.iter().all(|keep| !keep));
}

#[test]
fn bounded_keys_from_current_snapshots_are_imported() {
    let rows = vec![
        SnapshotApiKeyRow { scope_count: Some(2), has_expiry: true },
        SnapshotApiKeyRow { scope_count: Some(0), has_expiry: true },
    ];
    assert_eq!(api_key_rows_to_import(&rows, 15), vec![true, false]);
    assert_eq!(api_key_rows_to_import(&rows, 14), vec![false, false]);
}

#[test]
fn legacy_rows_receive_runtime_defaults() {
    assert_eq!(normalize_runtime_profile(None, 7), "standard");
    assert_eq!(normalize_runtime_profile(Some("coder_rust_dev"), 8), "rust_dev");
    assert_eq!(normalize_runtime_profile(Some("coder_token_center_rust_dev"), 8), "rust_dev");
    assert_eq!(normalize_runtime_profile(Some("coder_node_dev"), 8), "node_dev");
    assert_eq!(normalize_runtime_profile(Some("coder_cluster_admin"), 8), "maintainance");
    assert_eq!(normalize_runtime_profile(Some("coder_rust_dev"), 9), "coder_rust_dev");
    assert_eq!(normalize_runtime_profile(Some("custom"), 3), "custom");

    let runtime = legacy_workspace_runtime("snapshot-test", "abc123");
    assert_eq!(runtime.naming_scheme, "legacy_v1");
    assert_eq!(runtime.namespace_scope, "dedicated");
    assert_eq!(runtime.namespace, "ws-snapshot-test-abc123");
    assert_eq!(runtime.resource_prefix, "workspace");
    assert_eq!(runtime.route_key, "abc123");

    assert!(template_yaml_missing(7, Some("kind: WorkspaceTemplate")));
    assert!(template_yaml_missing(12, None));
    assert!(template_yaml_missing(12, Some("")));
    assert!(!template_yaml_missing(12, Some("kind: WorkspaceTemplate")));
}

#[test]
fn snapshot_headers_are_checked_in_order() {
    assert_eq!(
        check_snapshot_header(SNAPSHOT_FORMAT_VERSION + 1, "a", "b", 30, 23),
        Err(StorageError::UnsupportedSnapshotVersion(SNAPSHOT_FORMAT_VERSION + 1))
    );
    assert_eq!(
        check_snapshot_header(SNAPSHOT_FORMAT_VERSION, "a", "b", 30, 23),
        Err(StorageError::SnapshotInstallationMismatch {
            snapshot: "a".to_owned(),
            configured: "b".to_owned(),
        })
    );
    assert_eq!(
        check_snapshot_header(SNAPSHOT_FORMAT_VERSION, "a", "a", 30, 23),
        Err(StorageError::SnapshotSchemaTooNew(30))
    );
    assert_eq!(check_snapshot_header(SNAPSHOT_FORMAT_VERSION, "a", "a", 23, 23), Ok(()));
}

#[test]
fn only_younger_tables_may_be_missing() {
    assert_eq!(check_missing_table("workspace_injection_refs", 6), Ok(()));
    assert_eq!(
        check_missing_table("workspace_injection_refs", 7),
        Err(StorageError::SnapshotMissingTable("workspace_injection_refs".to_owned()))
    );
    assert_eq!(check_missing_table("plugin_assets", 12), Ok(()));
    assert_eq!(check_missing_table("user_api_keys", 13), Ok(()));
    assert_eq!(check_missing_table("workspace_port_mappings", 14), Ok(()));
    assert_eq!(
        check_missing_table("users", 1),
        Err(StorageError::SnapshotMissingTable("users".to_owned()))
    );
    assert_eq!(ensure_destination_empty(true), Err(StorageError::ImportDestinationNotEmpty));
    assert_eq!(ensure_destination_empty(false), Ok(()));
}

#[test]
fn v18_default_runtime_identity_is_rejected_before_insert() {
    let short_id = "018f00000000700080000000";
    assert_eq!(
        check_runtime_row("snapshot-test", "snapshot-test", short_id, short_id, "dedicated", ""),
        Err(StorageError::InvalidWorkspace)
    );
}
