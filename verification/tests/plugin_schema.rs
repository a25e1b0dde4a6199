use workspace_control::plugins::schema::{
    check_schema, credential_shaped, inspect, ConfigurationSchema, JsonValue, MAX_SCHEMA_BYTES,
};
use workspace_control::json_write::json_encoding;
use workspace_control::plugins::PluginError;

fn text(value: &str) -> JsonValue {
    JsonValue::Text(value.to_owned())
}

fn object(members: Vec<(&str, JsonValue)>) -> JsonValue {
    JsonValue::Object(
        members
            .into_iter()
            .map(|(name, value)| (name.to_owned(), value))
            .collect(),
    )
}

fn string_property() -> JsonValue {
    object(vec![("type", text("string"))])
}

fn invalid(message: &str) -> Result<(), PluginError> {
    Err(PluginError::InvalidPackage(message.to_owned()))
}

fn compile(schema: &JsonValue) -> Result<ConfigurationSchema, PluginError> {
    ConfigurationSchema::compile(schema)
}

#[test]
fn rejects_secret_shaped_configuration() {
    let schema = object(vec![
        ("properties", object(vec![("api_token", string_property())])),
        ("type", text("object")),
    ]);
    assert!(compile(&schema).is_err());
}

#[test]
fn validates_non_sensitive_values() {
    let schema = compile(&object(vec![
        ("additionalProperties", JsonValue::Bool(false)),
        ("properties", object(vec![("max_workspaces", object(vec![
            ("minimum", JsonValue::Number("1".to_owned())),
            ("type", text("integer")),
        ]))])),
        ("required", JsonValue::Array(vec![text("max_workspaces")])),
        ("type", text("object")),
    ]))
    .unwrap();
    assert!(schema.validate(r#"{"max_workspaces":2}"#).is_ok());
    assert!(schema.validate(r#"{"max_workspaces":0}"#).is_err());
}

#[test]
fn schemas_are_compiled_and_digested() {
    let schema = object(vec![("type", text("object"))]);
    let compiled = compile(&schema).unwrap();
    assert_eq!(
        compiled.digest(),
        workspace_control::digest::hash_secret(r#"{"type":"object"}"#)
    );
    assert_eq!(compiled.validate("[]"), Err(PluginError::InvalidConfiguration));
    assert_eq!(compiled.validate("not json"), Err(PluginError::InvalidConfiguration));
    let oversized = format!("\"{}\"", "a".repeat(1_048_577));
    assert_eq!(compiled.validate(&oversized), Err(PluginError::InvalidConfiguration));
    let not_a_schema = object(vec![("type", text("object")), ("minProperties", text("many"))]);
    assert_eq!(
        compile(&not_a_schema).err(),
        Some(PluginError::InvalidPackage("configuration schema is invalid".to_owned()))
    );
}

#[test]
fn accepts_a_plain_object_schema() {
    let schema = object(vec![
        ("additionalProperties", JsonValue::Bool(false)),
        ("properties", object(vec![("max_workspaces", object(vec![
            ("minimum", JsonValue::Number("1".to_owned())),
            ("type", text("integer")),
        ]))])),
        ("required", JsonValue::Array(vec![text("max_workspaces")])),
        ("type", text("object")),
    ]);
    assert_eq!(check_schema(&schema), Ok(()));
}

#[test]
fn credential_names_are_matched_after_normalization() {
    assert!(credential_shaped("api_token"));
    assert!(credential_shaped("Private-Key"));
    assert!(credential_shaped("API KEY"));
    assert!(credential_shaped("dbPassword"));
    assert!(!credential_shaped("max_workspaces"));
    assert!(!credential_shaped("api"));
}

#[test]
fn schema_root_must_be_an_object_type() {
    assert_eq!(
        check_schema(&text("object")),
        invalid("configuration schema must have an object root")
    );
    assert_eq!(
        check_schema(&object(vec![("type", text("array"))])),
        invalid("configuration schema must have an object root")
    );
}

#[test]
fn oversized_schema_is_refused_before_inspection() {
    let padded = |length: usize| {
        object(vec![
            ("description", text(&"x".repeat(length))),
            ("type", text("object")),
            ("writeOnly", JsonValue::Bool(true)),
        ])
    };
    let base = json_encoding(&padded(0)).len();
    let at_limit = padded(MAX_SCHEMA_BYTES - base);
    assert_eq!(json_encoding(&at_limit).len(), MAX_SCHEMA_BYTES);
    assert_eq!(
        check_schema(&at_limit),
        invalid("configuration cannot contain write-only fields")
    );
    assert_eq!(
        check_schema(&padded(MAX_SCHEMA_BYTES - base + 1)),
        invalid("configuration schema exceeds 256 KiB")
    );
}

#[test]
fn schemas_are_written_as_compact_json() {
    let value = object(vec![
        ("a", JsonValue::Array(vec![JsonValue::Null, JsonValue::Bool(false)])),
        ("b", JsonValue::Number("12.5".to_owned())),
        ("c", text("q\"b\\n\n\u{1}\u{7f}é")),
        ("d", object(vec![])),
    ]);
    assert_eq!(
        json_encoding(&value),
        "{\"a\":[null,false],\"b\":12.5,\"c\":\"q\\\"b\\\\n\\n\\u0001\u{7f}é\",\"d\":{}}"
    );
}

#[test]
fn references_must_stay_inside_the_schema() {
    let local = object(vec![("$ref", text("#/$defs/limit"))]);
    assert_eq!(inspect(&local), Ok(()));
    let remote = object(vec![("$ref", text("https://example.test/schema"))]);
    assert_eq!(
        inspect(&remote),
        invalid("configuration schema references must be local")
    );
}

#[test]
fn nested_write_only_fields_are_refused() {
    let schema = object(vec![
        ("properties", object(vec![("limit", object(vec![("writeOnly", JsonValue::Bool(true))]))])),
        ("type", text("object")),
    ]);
    assert_eq!(
        inspect(&schema),
        invalid("configuration cannot contain write-only fields")
    );
    let not_flagged = object(vec![("writeOnly", JsonValue::Bool(false))]);
    assert_eq!(inspect(&not_flagged), Ok(()));
}

#[test]
fn depth_and_node_limits_are_enforced() {
    let mut deep = JsonValue::Null;
    for _ in 0..32 {
        deep = JsonValue::Array(vec![deep]);
    }
    assert_eq!(inspect(&deep), Ok(()));
    let deeper = JsonValue::Array(vec![deep]);
    assert_eq!(
        inspect(&deeper),
        invalid("configuration schema exceeds complexity limits")
    );

    let wide = JsonValue::Array((0..4095).map(|_| JsonValue::Null).collect());
    assert_eq!(inspect(&wide), Ok(()));
    let wider = JsonValue::Array((0..4096).map(|_| JsonValue::Null).collect());
    assert_eq!(
        inspect(&wider),
        invalid("configuration schema exceeds complexity limits")
    );
}
