//! Moving an installation between databases: the rules a snapshot must
//! satisfy before its rows are imported, and how rows written by older
//! schemas are brought up to date.
use vstd::prelude::*;

use super::StorageError;
use crate::text::chars_of;

verus! {

/// The snapshot format this code reads and writes.
pub const SNAPSHOT_FORMAT_VERSION: u32 = 1;

/// Checks the header of a snapshot against the destination, in order: an
/// unknown format, another installation, or a schema newer than the
/// destination's is refused before anything is imported.
pub fn check_snapshot_header(
    format_version: u32,
    snapshot_installation: &str,
    configured_installation: &str,
    snapshot_schema: i64,
    destination_schema: i64,
) -> (result: Result<(), StorageError>)
    ensures
        format_version != SNAPSHOT_FORMAT_VERSION ==> result == Err::<(), StorageError>(
            StorageError::UnsupportedSnapshotVersion(format_version),
        ),
        format_version == SNAPSHOT_FORMAT_VERSION && snapshot_installation@
            != configured_installation@ ==> (result matches Err(
            StorageError::SnapshotInstallationMismatch { snapshot, configured },
        ) && snapshot@ == snapshot_installation@ && configured@ == configured_installation@),
        format_version == SNAPSHOT_FORMAT_VERSION && snapshot_installation@
            == configured_installation@ && snapshot_schema > destination_schema ==> result == Err::<
            (),
            StorageError,
        >(StorageError::SnapshotSchemaTooNew(snapshot_schema)),
        format_version == SNAPSHOT_FORMAT_VERSION && snapshot_installation@
            == configured_installation@ && snapshot_schema <= destination_schema ==> result is Ok,
{
    if format_version != SNAPSHOT_FORMAT_VERSION {
        return Err(StorageError::UnsupportedSnapshotVersion(format_version));
    }
    let snapshot = chars_of(snapshot_installation);
    if !crate::text::chars_eq_str(snapshot.as_slice(), configured_installation) {
        return Err(
            StorageError::SnapshotInstallationMismatch {
                snapshot: snapshot_installation.to_owned(),
                configured: configured_installation.to_owned(),
            },
        );
    }
    if snapshot_schema > destination_schema {
        return Err(StorageError::SnapshotSchemaTooNew(snapshot_schema));
    }
    Ok(())
}

/// The tables that hold installed plugin packages.
pub open spec fn plugin_package_table(table: Seq<char>) -> bool {
    table == "plugin_packages"@ || table == "plugin_assets"@ || table == "plugin_catalog_metadata"@
}

/// A table may be missing from a snapshot written before the schema that
/// introduced it.
pub open spec fn table_may_be_missing(table: Seq<char>, schema_version: i64) -> bool {
    ||| table == "workspace_injection_refs"@ && schema_version < 7
    ||| table == "plugin_configurations"@ && schema_version < 11
    ||| plugin_package_table(table) && schema_version < 13
    ||| table == "user_api_keys"@ && schema_version < 14
    ||| table == "workspace_port_mappings"@ && schema_version < 15
}

/// A snapshot may lack exactly the tables that are younger than its
/// schema: injection references before 7, plugin configurations before
/// 11, the plugin package tables before 13, API keys before 14 and port
/// mappings before 15; any other missing table refuses the import.
pub proof fn lemma_young_tables_may_be_missing(table: Seq<char>, schema_version: i64)
    ensures
        schema_version < 7 ==> table_may_be_missing("workspace_injection_refs"@, schema_version),
        schema_version < 11 ==> table_may_be_missing("plugin_configurations"@, schema_version),
        schema_version < 13 ==> table_may_be_missing("plugin_packages"@, schema_version)
            && table_may_be_missing("plugin_assets"@, schema_version) && table_may_be_missing(
            "plugin_catalog_metadata"@,
            schema_version,
        ),
        schema_version < 14 ==> table_may_be_missing("user_api_keys"@, schema_version),
        schema_version < 15 ==> table_may_be_missing("workspace_port_mappings"@, schema_version),
        table_may_be_missing(table, schema_version) ==> (table == "workspace_injection_refs"@
            && schema_version < 7) || (table == "plugin_configurations"@ && schema_version < 11) || ((
        table == "plugin_packages"@ || table == "plugin_assets"@ || table
            == "plugin_catalog_metadata"@) && schema_version < 13) || (table == "user_api_keys"@
            && schema_version < 14) || (table == "workspace_port_mappings"@ && schema_version < 15),
{
}

/// A table the snapshot lacks is skipped when it is younger than the
/// snapshot's schema, and refused otherwise.
pub fn check_missing_table(table: &str, schema_version: i64) -> (result: Result<(), StorageError>)
    ensures
        table_may_be_missing(table@, schema_version) ==> result is Ok,
        !table_may_be_missing(table@, schema_version) ==> (result matches Err(
            StorageError::SnapshotMissingTable(name),
        ) && name@ == table@),
{
    let t = chars_of(table);
    let t = t.as_slice();
    let eq = |name: &str| -> (b: bool)
        ensures
            b == (t@ == name@),
        { crate::text::chars_eq_str(t, name) };
    let allowed = (eq("workspace_injection_refs") && schema_version < 7) || (eq(
        "plugin_configurations",
    ) && schema_version < 11) || ((eq("plugin_packages") || eq("plugin_assets") || eq(
        "plugin_catalog_metadata",
    )) && schema_version < 13) || (eq("user_api_keys") && schema_version < 14) || (eq(
        "workspace_port_mappings",
    ) && schema_version < 15);
    if allowed {
        Ok(())
    } else {
        Err(StorageError::SnapshotMissingTable(table.to_owned()))
    }
}

/// Every row of a table must belong to the destination installation; the
/// rows are given by their `installation_id` field, absent when a row has
/// none.
pub fn check_row_installations(
    table: &str,
    installation_ids: &Vec<Option<String>>,
    configured: &str,
) -> (result: Result<(), StorageError>)
    ensures
        (forall|i: int|
            0 <= i < installation_ids@.len() ==> (#[trigger] installation_ids@[i] matches Some(id)
                && id@ == configured@)) ==> result is Ok,
        !(forall|i: int|
            0 <= i < installation_ids@.len() ==> (#[trigger] installation_ids@[i] matches Some(id)
                && id@ == configured@)) ==> (result matches Err(
            StorageError::SnapshotRowInstallationMismatch { table: name },
        ) && name@ == table@),
{
    let expected = chars_of(configured);
    let mut i: usize = 0;
    while i < installation_ids.len()
        invariant
            expected@ == configured@,
            i <= installation_ids@.len(),
            forall|k: int|
                0 <= k < i ==> (#[trigger] installation_ids@[k] matches Some(id) && id@
                    == configured@),
        decreases installation_ids.len() - i,
    {
        let ok = match &installation_ids[i] {
            Some(id) => crate::text::chars_eq_str(expected.as_slice(), id.as_str()),
            None => false,
        };
        if !ok {
            assert(!(installation_ids@[i as int] matches Some(id) && id@ == configured@));
            return Err(StorageError::SnapshotRowInstallationMismatch { table: table.to_owned() });
        }
        i = i + 1;
    }
    Ok(())
}

/// The runtime profile of a template row: `standard` when absent, and for
/// snapshots before schema 9 the old profile names mapped to current ones.
pub open spec fn runtime_profile_of(profile: Option<Seq<char>>, schema_version: i64) -> Seq<char> {
    match profile {
        None => "standard"@,
        Some(p) => if schema_version >= 9 {
            p
        } else if p == "coder_rust_dev"@ || p == "coder_token_center_rust_dev"@ {
            "rust_dev"@
        } else if p == "coder_node_dev"@ {
            "node_dev"@
        } else if p == "coder_cluster_admin"@ {
            "maintainance"@
        } else {
            p
        },
    }
}

/// Normalizes the runtime profile of a template or workspace row.
pub fn normalize_runtime_profile(profile: Option<&str>, schema_version: i64) -> (normalized: String)
    ensures
        normalized@ == runtime_profile_of(crate::storage::port_mappings::opt_str_view(profile), schema_version),
{
    let p = match profile {
        None => return "standard".to_owned(),
        Some(p) => p,
    };
    if schema_version >= 9 {
        return p.to_owned();
    }
    let c = chars_of(p);
    let c = c.as_slice();
    if crate::text::chars_eq_str(c, "coder_rust_dev") || crate::text::chars_eq_str(
        c,
        "coder_token_center_rust_dev",
    ) {
        "rust_dev".to_owned()
    } else if crate::text::chars_eq_str(c, "coder_node_dev") {
        "node_dev".to_owned()
    } else if crate::text::chars_eq_str(c, "coder_cluster_admin") {
        "maintainance".to_owned()
    } else {
        p.to_owned()
    }
}

/// The runtime identity a workspace row written before schema 18 receives:
/// the legacy naming in a dedicated namespace named after the installation
/// and the workspace.
#[derive(Debug, Clone, PartialEq, Eq)]
pub struct LegacyWorkspaceRuntime {
    pub naming_scheme: String,
    pub namespace_scope: String,
    pub namespace: String,
    pub resource_prefix: String,
    pub route_key: String,
}

/// The runtime identity of a workspace from an old snapshot.
pub fn legacy_workspace_runtime(installation_id: &str, short_id: &str) -> (runtime:
    LegacyWorkspaceRuntime)
    ensures
        runtime.naming_scheme@ == "legacy_v1"@,
        runtime.namespace_scope@ == "dedicated"@,
        runtime.namespace@ == "ws-"@ + installation_id@ + "-"@ + short_id@,
        runtime.resource_prefix@ == "workspace"@,
        runtime.route_key@ == short_id@,
{
    let mut namespace = "ws-".to_owned();
    namespace.append(installation_id);
    namespace.append("-");
    namespace.append(short_id);
    LegacyWorkspaceRuntime {
        naming_scheme: "legacy_v1".to_owned(),
        namespace_scope: "dedicated".to_owned(),
        namespace,
        resource_prefix: "workspace".to_owned(),
        route_key: short_id.to_owned(),
    }
}

/// A template row needs its document rebuilt when it was written before
/// schema 10 or carries no document.
pub fn template_yaml_missing(schema_version: i64, yaml: Option<&str>) -> (missing: bool)
    ensures
        missing == (schema_version < 10 || match yaml {
            None => true,
            Some(y) => y@.len() == 0,
        }),
{
    schema_version < 10 || match yaml {
        None => true,
        Some(y) => chars_of(y).len() == 0,
    }
}

/// What the import reads of an API-key row: how many grants its
/// `scopes_json` lists, when it holds a list of known grants, and whether
/// it carries an integer `expires_at`.
#[derive(Debug, Clone, Copy, PartialEq, Eq)]
pub struct SnapshotApiKeyRow {
    pub scope_count: Option<usize>,
    pub has_expiry: bool,
}

/// An API key from a snapshot becomes usable only when it was written by
/// schema 15 or later with at least one explicit grant and an expiry.
pub open spec fn api_key_importable(row: SnapshotApiKeyRow, schema_version: i64) -> bool {
    &&& schema_version >= 15
    &&& row.scope_count matches Some(n) && n > 0
    &&& row.has_expiry
}

/// Which API-key rows of a snapshot are imported, one flag per row; the
/// others are left out, never imported with a wildcard or unbounded grant.
pub fn api_key_rows_to_import(rows: &Vec<SnapshotApiKeyRow>, schema_version: i64) -> (kept: Vec<
    bool,
>)
    ensures
        kept@.len() == rows@.len(),
        forall|i: int|
            0 <= i < rows@.len() ==> #[trigger] kept@[i] == api_key_importable(
                rows@[i],
                schema_version,
            ),
{
    let mut kept: Vec<bool> = Vec::new();
    let mut i: usize = 0;
    while i < rows.len()
        invariant
            i <= rows@.len(),
            kept@.len() == i,
            forall|k: int|
                0 <= k < i ==> #[trigger] kept@[k] == api_key_importable(rows@[k], schema_version),
        decreases rows.len() - i,
    {
        let row = rows[i];
        let importable = schema_version >= 15 && match row.scope_count {
            Some(n) => n > 0,
            None => false,
        } && row.has_expiry;
        kept.push(importable);
        i = i + 1;
    }
    kept
}

/// A destination that already holds data is never imported into: a
/// snapshot restore replaces, it does not merge.
pub fn ensure_destination_empty(table_has_rows: bool) -> (result: Result<(), StorageError>)
    ensures
        table_has_rows ==> result == Err::<(), StorageError>(StorageError::ImportDestinationNotEmpty),
        !table_has_rows ==> result is Ok,
{
    if table_has_rows {
        return Err(StorageError::ImportDestinationNotEmpty);
    }
    Ok(())
}

} // verus!
