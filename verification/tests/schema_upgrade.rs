use workspace_control::json::JsonValue;
use workspace_control::storage::migration::{migration_step, recorded_version, MigrationStep};
use workspace_control::storage::migration_v20::{
    cleanse_response, cleanse_spec, cleanse_template_document, next_generation,
    reconcile_after_upgrade, upgrade_to_v20,
};
use workspace_control::storage::StorageError;

fn text(value: &str) -> JsonValue {
    JsonValue::Text(value.to_owned())
}

fn object(members: Vec<(&str, JsonValue)>) -> JsonValue {
    JsonValue::Object(
        members
            .into_iter()
            .map(|(name, value)| (name.to_owned(), value))
            .collect(),
    )
}

fn empty() -> JsonValue {
    JsonValue::Object(Vec::new())
}

/// The compact JSON text of a value, members in their order.
fn encode(value: &JsonValue) -> String {
    match value {
        JsonValue::Null => "null".to_owned(),
        JsonValue::Bool(b) => b.to_string(),
        JsonValue::Number(n) => n.clone(),
        JsonValue::Text(t) => format!("\"{t}\""),
        JsonValue::Array(values) => {
            let parts: Vec<String> = values.iter().map(encode).collect();
            format!("[{}]", parts.join(","))
        }
        JsonValue::Object(members) => {
            let parts: Vec<String> = members
                .iter()
                .map(|(name, value)| format!("\"{name}\":{}", encode(value)))
                .collect();
            format!("{{{}}}", parts.join(","))
        }
    }
}

fn workspace_spec(environment: JsonValue) -> JsonValue {
    object(vec![
        ("access_mode", text("internal")),
        ("resources", empty()),
        ("pod_requests", empty()),
        ("environment", environment),
    ])
}

#[test]
fn response_cleanup_is_structural_and_never_deletes_unrelated_environment_values() {
    let unrelated = r#"{"environment":{"TOKEN":"secret"},"result":"ok"}"#;
    let value = object(vec![
        ("environment", object(vec![("TOKEN", text("secret"))])),
        ("result", text("ok")),
    ]);
    assert_eq!(encode(&cleanse_response(value).unwrap()), unrelated);
    let workspace = object(vec![("workspace", workspace_spec(empty()))]);
    assert!(!encode(&cleanse_response(workspace).unwrap()).contains("environment"));
    let legacy_secret =
        object(vec![("workspace", workspace_spec(object(vec![("TOKEN", text("secret"))])))]);
    assert!(matches!(
        cleanse_response(legacy_secret),
        Err(StorageError::SchemaUpgradeDataInvalid)
    ));
}

#[test]
fn template_responses_lose_their_legacy_members() {
    let template = object(vec![
        ("access_mode", text("internal")),
        ("enabled", JsonValue::Bool(true)),
        ("environment", empty()),
        ("pod_requests", empty()),
        ("preserve_home_ownership", JsonValue::Bool(true)),
        ("preserve_home_root", JsonValue::Bool(false)),
        ("resources", empty()),
        ("yaml", text("kind: WorkspaceTemplate")),
    ]);
    assert_eq!(
        encode(&cleanse_response(template).unwrap()),
        r#"{"access_mode":"internal","enabled":true,"pod_requests":{},"resources":{},"yaml":"kind: WorkspaceTemplate"}"#
    );
    let not_a_spec = object(vec![("enabled", JsonValue::Bool(true)), ("yaml", text(""))]);
    assert!(matches!(
        cleanse_response(not_a_spec),
        Err(StorageError::SchemaUpgradeDataInvalid)
    ));
    assert_eq!(encode(&cleanse_response(JsonValue::Bool(true)).unwrap()), "true");
}

#[test]
fn specs_need_their_members_and_an_empty_environment() {
    assert!(matches!(cleanse_spec(text("spec")), Err(StorageError::SchemaUpgradeDataInvalid)));
    let missing = object(vec![("access_mode", text("internal")), ("resources", empty())]);
    assert!(matches!(cleanse_spec(missing), Err(StorageError::SchemaUpgradeDataInvalid)));
    let scalar = workspace_spec(text("secret"));
    assert!(matches!(cleanse_spec(scalar), Err(StorageError::SchemaUpgradeDataInvalid)));
    let fine = object(vec![
        ("access_mode", text("internal")),
        ("resources", empty()),
        ("pod_requests", empty()),
    ]);
    assert_eq!(
        encode(&cleanse_spec(fine).unwrap()),
        r#"{"access_mode":"internal","resources":{},"pod_requests":{}}"#
    );
}

fn document(extra: Vec<(&str, JsonValue)>) -> JsonValue {
    let mut spec = vec![
        ("image", text("registry.example/workspace:1")),
        ("access_mode", text("internal")),
    ];
    spec.extend(extra);
    spec.push(("buildkit", JsonValue::Bool(false)));
    object(vec![
        ("apiVersion", text("v1")),
        ("kind", text("WorkspaceTemplate")),
        ("metadata", object(vec![("name", text("migration"))])),
        ("spec", object(spec)),
    ])
}

#[test]
fn cleans_empty_legacy_fields_before_final_template_validation() {
    let legacy = document(vec![
        ("preserve_home_ownership", JsonValue::Bool(true)),
        ("preserve_home_root", JsonValue::Bool(false)),
        ("environment", empty()),
    ]);
    let migrated = encode(&cleanse_template_document(legacy).unwrap());
    assert!(!migrated.contains("preserve_home"));
    assert!(!migrated.contains("environment"));
    assert_eq!(migrated, encode(&document(Vec::new())));
    assert_eq!(
        encode(&cleanse_template_document(document(Vec::new())).unwrap()),
        encode(&document(Vec::new()))
    );
}

#[test]
fn rejects_nonempty_or_nonmapping_legacy_environment() {
    let nonempty = document(vec![("environment", object(vec![("TOKEN", text("secret"))]))]);
    let nonmapping = document(vec![("environment", text("secret"))]);
    assert!(matches!(
        cleanse_template_document(nonempty),
        Err(StorageError::SchemaUpgradeDataInvalid)
    ));
    assert!(matches!(
        cleanse_template_document(nonmapping),
        Err(StorageError::SchemaUpgradeDataInvalid)
    ));
    let without_spec = object(vec![("kind", text("WorkspaceTemplate"))]);
    assert!(matches!(
        cleanse_template_document(without_spec),
        Err(StorageError::SchemaUpgradeDataInvalid)
    ));
}

#[test]
fn a_version_19_database_is_bridged_to_version_20() {
    assert_eq!(migration_step(19, 40), Ok(MigrationStep::BridgeToV20));
    assert_eq!(recorded_version(MigrationStep::BridgeToV20), 20);
    assert_eq!(recorded_version(MigrationStep::Upgrade), recorded_version(MigrationStep::Current));
    let clean = || {
        document(vec![
            ("preserve_home_ownership", JsonValue::Bool(true)),
            ("environment", empty()),
        ])
    };
    let snapshot = document(vec![("environment", empty())]);
    let response = object(vec![("workspace", workspace_spec(empty()))]);
    let (templates, snapshots, responses) =
        upgrade_to_v20(vec![clean()], vec![snapshot], vec![response]).unwrap();
    assert_eq!(templates.len(), 1);
    assert_eq!(encode(&templates[0]), encode(&cleanse_template_document(clean()).unwrap()));
    assert!(!encode(&templates[0]).contains("preserve_home_ownership"));
    assert_eq!(encode(&snapshots[0]), encode(&document(Vec::new())));
    assert!(!encode(&responses[0]).contains("environment"));
}

#[test]
fn the_bridge_rolls_back_on_a_legacy_environment_value() {
    let secret = || document(vec![("environment", object(vec![("TOKEN", text("secret"))]))]);
    let clean = || document(Vec::new());
    assert!(matches!(
        upgrade_to_v20(vec![clean(), secret()], Vec::new(), Vec::new()),
        Err(StorageError::SchemaUpgradeDataInvalid)
    ));
    assert!(matches!(
        upgrade_to_v20(vec![clean()], vec![secret()], Vec::new()),
        Err(StorageError::SchemaUpgradeDataInvalid)
    ));
    let legacy_response =
        object(vec![("workspace", workspace_spec(object(vec![("TOKEN", text("secret"))])))]);
    assert!(matches!(
        upgrade_to_v20(vec![clean()], Vec::new(), vec![legacy_response]),
        Err(StorageError::SchemaUpgradeDataInvalid)
    ));
    let (t, w, r) = upgrade_to_v20(Vec::new(), Vec::new(), Vec::new()).unwrap();
    assert!(t.is_empty() && w.is_empty() && r.is_empty());
}

#[test]
fn bridged_workspaces_move_to_the_next_generation() {
    assert_eq!(next_generation(4), Ok(5));
    assert_eq!(next_generation(i64::MAX), Err(StorageError::SchemaUpgradeDataInvalid));
    assert!(reconcile_after_upgrade("running", false));
    assert!(!reconcile_after_upgrade("running", true));
    assert!(!reconcile_after_upgrade("deleted", false));
}
