use workspace_control::storage::plugin_package_store::{
    check_install_confirmation, decode_asset, decode_version, encode_asset,
    ensure_inspection_capacity, ensure_install_capacity, ensure_package_changed, package_change_end,
    ensure_ui_session_capacity, ensure_ui_session_created, expected_package_version,
    inspection_size, installed_record, validate_package_input, ConfirmPluginInstall, PackageChangeEnd,
    PluginAssetBlob, PluginInstallInspection,
};
use workspace_control::storage::plugin_store::{
    configuration_delete, configuration_write, ensure_configuration_changed, finish_configuration_write,
    prepare_configuration_delete, StoredPluginConfiguration,
    prepare_configuration_write, require_organization, scope_key, scope_kind, validate_digest,
    validate_plugin_id,
};
use workspace_control::storage::ssh_identity::{decode_identity_bytes, public_identity, ssh_login};
use workspace_control::storage::StorageError;

const DIGEST: &str = "0123456789abcdef0123456789ABCDEF0123456789abcdef0123456789abcdef";

fn inspection() -> PluginInstallInspection {
    PluginInstallInspection {
        id: 1,
        plugin_id: "policy".to_owned(),
        manifest_json: "{}".to_owned(),
        component_bytes: None,
        package_digest: DIGEST.to_owned(),
        size_bytes: 10,
        source_kind: "upload".to_owned(),
        source_ref: "policy.zip".to_owned(),
        source_confirmation: "uploaded".to_owned(),
        declared_contributions: vec!["api_routes".to_owned(), "configuration".to_owned()],
        assets: Vec::new(),
        created_by: 2,
        created_at: 100,
        expires_at: 200,
    }
}

#[test]
fn configuration_writes_are_scoped_and_versioned() {
    assert_eq!(scope_key(None), "installation");
    assert_eq!(
        scope_key(Some(0xa1a2a3a4b1b2c1c2d1d2d3d4d5d6d7d8)),
        "organization:a1a2a3a4-b1b2-c1c2-d1d2-d3d4d5d6d7d8"
    );
    assert_eq!(scope_kind(Some(1)), "organization");
    assert_eq!(validate_plugin_id("my-plugin"), Ok(()));
    assert_eq!(validate_plugin_id("my_plugin"), Err(StorageError::InvalidPluginConfiguration));
    assert_eq!(validate_digest(DIGEST), Ok(()));
    assert_eq!(validate_digest("xyz"), Err(StorageError::InvalidPluginConfiguration));
    let plan = prepare_configuration_write("p", Some(7), "{\"a\":1}", DIGEST, 0).unwrap();
    assert_eq!(plan.expected, 0);
    assert_eq!(plan.scope_kind, "organization");
    assert_eq!(
        prepare_configuration_write("p", None, &"x".repeat(1024 * 1024 + 1), DIGEST, 0),
        Err(StorageError::InvalidPluginConfiguration)
    );
    assert_eq!(
        prepare_configuration_write("p", None, "{}", DIGEST, u64::MAX),
        Err(StorageError::InvalidPluginConfiguration)
    );
    assert_eq!(require_organization(Some(7), 0), Err(StorageError::OrganizationNotFound));
    assert_eq!(require_organization(None, 0), Ok(()));
    let stored = finish_configuration_write(1, "p", None, "{}", DIGEST, 3, 50).unwrap();
    assert_eq!(stored.version, 4);
    assert_eq!(stored.updated_at, 50);
    assert_eq!(
        finish_configuration_write(0, "p", None, "{}", DIGEST, 3, 50),
        Err(StorageError::PluginConfigurationVersionConflict)
    );
    assert_eq!(
        prepare_configuration_delete("p", None, 0),
        Err(StorageError::PluginConfigurationVersionConflict)
    );
    assert_eq!(prepare_configuration_delete("p", None, 2), Ok(("installation".to_owned(), 2)));
    assert_eq!(ensure_configuration_changed(0), Err(StorageError::PluginConfigurationVersionConflict));
}

#[test]
fn inspections_and_installs_are_checked() {
    assert_eq!(validate_package_input("policy", DIGEST), Ok(()));
    assert_eq!(validate_package_input("policy", "short"), Err(StorageError::InvalidPluginConfiguration));
    assert_eq!(inspection_size(u64::MAX), Err(StorageError::InvalidPluginConfiguration));
    assert_eq!(ensure_inspection_capacity(7, 3), Ok(()));
    assert_eq!(ensure_inspection_capacity(8, 0), Err(StorageError::TooManyPluginInspections));
    assert_eq!(ensure_inspection_capacity(0, 4), Err(StorageError::TooManyPluginInspections));
    let approved = vec!["api_routes".to_owned()];
    let command = ConfirmPluginInstall {
        inspection_id: 1,
        expected_digest: DIGEST,
        expected_package_version: 0,
        approved_contributions: &approved,
        enabled: true,
        actor_user_id: 3,
        now: 150,
    };
    assert_eq!(check_install_confirmation(&inspection(), &command), Ok(0));
    let late = ConfirmPluginInstall { now: 200, ..command };
    assert_eq!(check_install_confirmation(&inspection(), &late), Err(StorageError::PluginInspectionExpired));
    let other = ConfirmPluginInstall { expected_digest: "00", ..command };
    assert_eq!(check_install_confirmation(&inspection(), &other), Err(StorageError::PluginDigestMismatch));
    let extra = vec!["api_middleware".to_owned()];
    let greedy = ConfirmPluginInstall { approved_contributions: &extra, ..command };
    assert_eq!(check_install_confirmation(&inspection(), &greedy), Err(StorageError::PluginCapabilityNotApproved));
    assert_eq!(ensure_install_capacity(0, 32), Err(StorageError::PluginCapacityExceeded));
    assert_eq!(ensure_install_capacity(4, 32), Ok(()));
    assert_eq!(ensure_package_changed(0), Err(StorageError::PluginPackageVersionConflict));
    assert_eq!(expected_package_version(u64::MAX), Err(StorageError::PluginPackageVersionConflict));
    let record = installed_record(inspection(), &command, 0);
    assert_eq!(record.version, 1);
    assert_eq!(record.approved_contributions, approved);
    assert_eq!(record.created_by, 3);
    assert_eq!(ensure_ui_session_capacity(32), Err(StorageError::PluginCapacityExceeded));
    assert_eq!(ensure_ui_session_created(0), Err(StorageError::PluginPackageNotFound));
    assert_eq!(decode_version(-1), Err(StorageError::InvalidPluginConfiguration));
}

#[test]
fn stored_assets_round_trip_through_base64() {
    let asset = PluginAssetBlob {
        path: "ui/index.html".to_owned(),
        media_type: "text/html".to_owned(),
        content: b"<p>hi</p>".to_vec(),
        digest: "d".to_owned(),
    };
    let encoded = encode_asset(&asset);
    assert_eq!(encoded.content_base64, "PHA+aGk8L3A+");
    assert_eq!(decode_asset(encoded.clone()), Ok(asset));
    let broken = workspace_control::storage::plugin_package_store::EncodedAsset {
        content_base64: "@@".to_owned(),
        ..encoded
    };
    assert_eq!(decode_asset(broken), Err(StorageError::InvalidPluginConfiguration));
}

#[test]
fn ssh_identities_show_only_public_parts() {
    let identity = public_identity("ssh-ed25519 AAAA".to_owned(), "SHA256:x".to_owned());
    assert_eq!(identity.algorithm, "ssh-ed25519");
    assert_eq!(ssh_login("8000000000000001"), "access+8000000000000001");
    assert_eq!(decode_identity_bytes("AQID"), Ok(vec![1, 2, 3]));
    assert_eq!(decode_identity_bytes("*"), Err(StorageError::InvalidSshIdentity));
}

#[test]
fn a_configuration_write_succeeds_exactly_on_the_stored_version() {
    let written = configuration_write(Some(3), 1, "p", Some(7), "{\"a\":1}", DIGEST, 3, 90);
    assert_eq!(
        written,
        Ok(StoredPluginConfiguration {
            plugin_id: "p".to_owned(),
            organization_id: Some(7),
            value_json: "{\"a\":1}".to_owned(),
            schema_digest: DIGEST.to_owned(),
            version: 4,
            updated_at: 90,
        })
    );
    assert_eq!(configuration_write(None, 0, "p", None, "{}", DIGEST, 0, 5).unwrap().version, 1);
    let conflict = Err(StorageError::PluginConfigurationVersionConflict);
    assert_eq!(configuration_write(Some(4), 1, "p", None, "{}", DIGEST, 3, 5), conflict);
    assert_eq!(configuration_write(Some(4), 1, "p", None, "{}", DIGEST, 0, 5), conflict);
    assert_eq!(configuration_write(None, 1, "p", None, "{}", DIGEST, 2, 5), conflict);
    assert_eq!(
        configuration_write(Some(3), 0, "p", Some(7), "{}", DIGEST, 3, 5),
        Err(StorageError::OrganizationNotFound)
    );
    assert_eq!(
        configuration_write(Some(3), 1, "p", None, "{}", "sha256:short", 3, 5),
        Err(StorageError::InvalidPluginConfiguration)
    );
}

#[test]
fn a_package_change_commits_only_when_one_row_changed() {
    assert_eq!(package_change_end(1), (PackageChangeEnd::BumpRevisionAndCommit, Ok(())));
    let conflict = Err(StorageError::PluginPackageVersionConflict);
    assert_eq!(package_change_end(0), (PackageChangeEnd::RollBack, conflict.clone()));
    assert_eq!(package_change_end(2), (PackageChangeEnd::RollBack, conflict));
}

#[test]
fn a_configuration_delete_needs_the_stored_version() {
    assert_eq!(configuration_delete(Some(3), "p", None, 3), Ok(()));
    let conflict = Err(StorageError::PluginConfigurationVersionConflict);
    assert_eq!(configuration_delete(Some(4), "p", Some(7), 3), conflict);
    assert_eq!(configuration_delete(None, "p", None, 3), conflict);
    assert_eq!(configuration_delete(Some(3), "p", None, 0), conflict);
    assert_eq!(
        configuration_delete(Some(3), "", None, 3),
        Err(StorageError::InvalidPluginConfiguration)
    );
    assert_eq!(
        configuration_delete(None, "p", None, u64::MAX),
        Err(StorageError::InvalidPluginConfiguration)
    );
}
