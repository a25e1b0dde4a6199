use workspace_control::plugins::manifest::extensions::{
    PluginApiMiddleware, PluginApiRoute, PluginRoutePermission,
};
use workspace_control::plugins::manifest::PluginManifest;
use workspace_control::plugins::runtime::{
    admission_outcome, api_response_outcome, catalog_is_current, check_api_request_body,
    choose_configuration, configuration_schema_digest, declared_contributions,
    ensure_unique_plugin_ids, find_plugin, find_route_plugin, has_api_middleware,
    middleware_outcome, mounted_plugin, mounted_positions, rebuilt_registry, refreshed_registry, runtime_metrics,
    select_plugins, ConfigurationSource, PluginApiResponse, RegistryState, StoredPackageEntry,
    PluginDecision, PluginSelection, RegisteredPlugin, StoredConfiguration, WorkspaceCreatePlan,
};
use workspace_control::plugins::PluginError;
use workspace_control::quota::Resources;
use workspace_control::templates::WorkspaceTemplateSpec;
use workspace_control::workspaces::AccessMode;

fn manifest(id: &str) -> PluginManifest {
    PluginManifest {
        id: id.to_owned(),
        name: "Plugin".to_owned(),
        version: "1.0.0".to_owned(),
        description: String::new(),
        wit_version: "0.1.0".to_owned(),
        wasm: None,
        workspace_create_policy: false,
        denial_codes: vec!["over_budget".to_owned()],
        configuration: None,
        assets: Vec::new(),
        ui_surfaces: Vec::new(),
        api_routes: Vec::new(),
        api_middleware: Vec::new(),
    }
}

fn plugin(manifest: PluginManifest, approved: &[&str], enabled: bool) -> RegisteredPlugin {
    RegisteredPlugin {
        manifest,
        executable: true,
        configuration_schema_digest: None,
        source_kind: "mounted".to_owned(),
        source_ref: "ref".to_owned(),
        package_digest: String::new(),
        source_confirmation: "gitops_mounted".to_owned(),
        approved_contributions: approved.iter().map(|s| s.to_string()).collect(),
        package_version: 0,
        enabled,
        manifest_json_bytes: 100,
    }
}

#[test]
fn plans_take_the_trimmed_name_and_the_template_settings() {
    let template = WorkspaceTemplateSpec {
        image: "registry.example/dev:1".to_owned(),
        access_mode: AccessMode::Public,
        resources: Resources {
            cpu_millis: 1_000,
            memory_mib: 2_048,
            gpu_count: 1,
            disk_gib: 20,
        },
        buildkit: true,
        cluster_access: false,
    };
    let plan = WorkspaceCreatePlan::from_template("  dev box ", &template);
    assert_eq!(plan.name, "dev box");
    assert_eq!(plan.image, "registry.example/dev:1");
    assert_eq!(plan.access_mode, "public");
    assert_eq!((plan.cpu_millis, plan.memory_mib, plan.gpu_count, plan.disk_gib), (1_000, 2_048, 1, 20));
    assert!(plan.buildkit_enabled && !plan.cluster_access);
    assert_eq!(AccessMode::from_database("internal"), Some(AccessMode::Internal));
    assert_eq!(AccessMode::from_database("other"), None);
}

#[test]
fn contributions_follow_the_manifest() {
    let mut m = manifest("p");
    assert!(declared_contributions(&m).is_empty());
    m.workspace_create_policy = true;
    m.api_routes.push(PluginApiRoute {
        id: "r".to_owned(),
        title: "R".to_owned(),
        permission: PluginRoutePermission::SystemAdmin,
    });
    m.api_middleware.push(PluginApiMiddleware {
        id: "m".to_owned(),
        phase: "before_api".to_owned(),
    });
    assert_eq!(
        declared_contributions(&m),
        vec!["workspace_create_policy", "api_routes", "api_middleware"]
    );
}

#[test]
fn only_enabled_and_approved_plugins_run() {
    let mut policy = manifest("policy");
    policy.workspace_create_policy = true;
    let mut middleware = manifest("guard");
    middleware.api_middleware.push(PluginApiMiddleware {
        id: "m".to_owned(),
        phase: "before_api".to_owned(),
    });
    let plugins = vec![
        plugin(policy.clone(), &["workspace_create_policy"], true),
        plugin(policy.clone(), &[], true),
        plugin(policy, &["workspace_create_policy"], false),
        plugin(middleware.clone(), &["api_middleware"], true),
        plugin(middleware, &[], true),
    ];
    assert_eq!(select_plugins(&plugins, PluginSelection::AdmissionPolicies), vec![0]);
    assert_eq!(select_plugins(&plugins, PluginSelection::ApiMiddleware), vec![3]);
    assert!(has_api_middleware(&plugins));
    assert!(!has_api_middleware(&plugins[..3].to_vec()));
}

#[test]
fn routes_are_found_only_on_approved_plugins() {
    let mut m = manifest("reports");
    m.api_routes.push(PluginApiRoute {
        id: "daily".to_owned(),
        title: "Daily".to_owned(),
        permission: PluginRoutePermission::OrganizationAdmin,
    });
    let plugins = vec![
        plugin(m.clone(), &[], true),
        plugin(m, &["api_routes"], true),
    ];
    assert_eq!(find_route_plugin(&plugins, "reports", "daily"), Ok(1));
    assert_eq!(find_route_plugin(&plugins, "reports", "weekly"), Err(PluginError::NotFound));
    assert_eq!(find_route_plugin(&plugins, "other", "daily"), Err(PluginError::NotFound));
    assert_eq!(find_plugin(&plugins, "reports"), Ok(0));
    assert_eq!(configuration_schema_digest(&plugins, "reports"), Err(PluginError::InvalidConfiguration));
    assert_eq!(configuration_schema_digest(&plugins, "none"), Err(PluginError::NotFound));
}

#[test]
fn answers_need_declared_denial_codes() {
    let m = manifest("policy");
    let allow = PluginDecision { allow: true, code: None };
    let deny = |code: Option<&str>| PluginDecision {
        allow: false,
        code: code.map(str::to_owned),
    };
    assert_eq!(admission_outcome(&m, allow.clone()), Ok(()));
    assert_eq!(
        admission_outcome(&m, deny(Some("over_budget"))),
        Err(PluginError::AdmissionDenied {
            plugin_id: "policy".to_owned(),
            decision_code: "over_budget".to_owned()
        })
    );
    assert_eq!(admission_outcome(&m, deny(Some("nope"))), Err(PluginError::ExecutionFailed));
    assert_eq!(admission_outcome(&m, deny(None)), Err(PluginError::ExecutionFailed));
    assert_eq!(middleware_outcome(&m, allow), Ok(()));
    assert_eq!(middleware_outcome(&m, deny(Some("over_budget"))), Err(PluginError::MiddlewareDenied));
    assert_eq!(middleware_outcome(&m, deny(None)), Err(PluginError::ExecutionFailed));
}

#[test]
fn api_answers_and_requests_are_bounded() {
    let response = |status: u16, content_type: &str, len: usize| PluginApiResponse {
        status,
        content_type: content_type.to_owned(),
        body: vec![0; len],
    };
    assert!(api_response_outcome(response(200, "application/json", 10)).is_ok());
    assert!(api_response_outcome(response(599, "text/plain; charset=utf-8", 0)).is_ok());
    assert_eq!(api_response_outcome(response(199, "text/plain", 0)), Err(PluginError::ExecutionFailed));
    assert_eq!(api_response_outcome(response(600, "text/plain", 0)), Err(PluginError::ExecutionFailed));
    assert_eq!(api_response_outcome(response(200, "text/html", 0)), Err(PluginError::ExecutionFailed));
    assert_eq!(
        api_response_outcome(response(200, "text/plain", 1024 * 1024 + 1)),
        Err(PluginError::ExecutionFailed)
    );
    assert_eq!(check_api_request_body(256 * 1024), Ok(()));
    assert_eq!(check_api_request_body(256 * 1024 + 1), Err(PluginError::InvalidApiRequest));
}

#[test]
fn metrics_count_the_registry() {
    let mut disabled = plugin(manifest("b"), &[], false);
    disabled.executable = false;
    let plugins = vec![plugin(manifest("a"), &[], true), disabled];
    let metrics = runtime_metrics(&plugins, 10);
    assert_eq!(metrics.loaded, 2);
    assert_eq!(metrics.enabled, 1);
    assert_eq!(metrics.executable, 1);
    assert_eq!(metrics.executions_active, 6);
    assert_eq!(metrics.execution_limit, 16);
    assert_eq!(metrics.registry_metadata_bytes_estimate, 2 * (100 + 7 + 3 + 14));
    assert_eq!(runtime_metrics(&plugins, 20).executions_active, 0);
}

#[test]
fn catalog_refresh_and_id_uniqueness() {
    assert!(catalog_is_current(3, 3));
    assert!(!catalog_is_current(3, 4));
    let mounted = vec!["a".to_owned()];
    assert_eq!(ensure_unique_plugin_ids(&mounted, &vec!["b".to_owned(), "c".to_owned()]), Ok(()));
    let conflict = Err(PluginError::InvalidPackage("plugin id conflicts with mounted package".to_owned()));
    assert_eq!(ensure_unique_plugin_ids(&mounted, &vec!["a".to_owned()]), conflict);
    assert_eq!(ensure_unique_plugin_ids(&mounted, &vec!["b".to_owned(), "b".to_owned()]), conflict);
}

#[test]
fn organization_configuration_wins_and_digests_must_match() {
    let digest = Some("d1".to_owned());
    let stored = |value: &str, digest: &str| StoredConfiguration {
        value_json: value.to_owned(),
        schema_digest: digest.to_owned(),
    };
    assert_eq!(
        choose_configuration(&digest, Some(stored("{\"a\":1}", "d1")), Some(stored("{}", "d1")), None),
        Ok(ConfigurationSource::Stored("{\"a\":1}".to_owned()))
    );
    assert_eq!(
        choose_configuration(&digest, None, Some(stored("{}", "d1")), None),
        Ok(ConfigurationSource::Stored("{}".to_owned()))
    );
    assert_eq!(
        choose_configuration(&digest, None, Some(stored("{}", "old")), None),
        Err(PluginError::InvalidConfiguration)
    );
    assert_eq!(
        choose_configuration(&None, Some(stored("{}", "d1")), None, None),
        Err(PluginError::InvalidConfiguration)
    );
    assert_eq!(
        choose_configuration(&digest, None, None, Some("{\"x\":2}".to_owned())),
        Ok(ConfigurationSource::ManifestDefault("{\"x\":2}".to_owned()))
    );
    assert_eq!(choose_configuration(&digest, None, None, None), Ok(ConfigurationSource::Empty));
}

#[test]
fn mounted_plugins_are_approved_for_what_they_declare() {
    let mut declared = manifest("policy");
    declared.workspace_create_policy = true;
    let mounted = mounted_plugin(declared, true, None, 512);
    assert_eq!(mounted.source_kind, "mounted");
    assert_eq!(mounted.source_ref, "policy");
    assert_eq!(mounted.source_confirmation, "gitops_mounted");
    assert!(mounted.package_digest.is_empty());
    assert_eq!(mounted.approved_contributions, vec!["workspace_create_policy".to_owned()]);
    assert_eq!(mounted.package_version, 0);
    assert!(mounted.enabled);
}

fn stored(id: &str, enabled: bool, has_component: bool) -> StoredPackageEntry {
    StoredPackageEntry {
        manifest: manifest(id),
        has_component,
        configuration_schema_digest: Some("sha256:schema".to_owned()),
        source_kind: "uploaded".to_owned(),
        source_ref: format!("{id}.tar"),
        package_digest: "sha256:package".to_owned(),
        source_confirmation: "admin_upload".to_owned(),
        approved_contributions: vec!["workspace_create_policy".to_owned()],
        version: 3,
        enabled,
        manifest_json_bytes: 42,
    }
}

#[test]
fn rebuilt_registry_lists_mounted_plugins_then_packages() {
    let mounted = vec![plugin(manifest("a"), &[], true)];
    let out = rebuilt_registry(
        mounted.clone(),
        vec![stored("b", true, true), stored("c", false, true), stored("d", true, false)],
        vec![true, false, false],
    )
    .unwrap();
    assert_eq!(out.len(), 4);
    assert_eq!(out[0], mounted[0]);
    assert_eq!(out[1].manifest.id, "b");
    assert!(out[1].executable && out[1].enabled);
    assert_eq!(out[1].package_version, 3);
    assert_eq!(out[1].source_ref, "b.tar");
    assert_eq!(out[1].approved_contributions, vec!["workspace_create_policy".to_owned()]);
    assert_eq!(out[1].configuration_schema_digest, Some("sha256:schema".to_owned()));
    assert_eq!(out[2].manifest.id, "c");
    assert!(!out[2].executable && !out[2].enabled);
    assert_eq!(out[3].manifest.id, "d");
    assert!(!out[3].executable && out[3].enabled);
}

#[test]
fn rebuild_refuses_taken_ids_and_broken_components() {
    let mounted = vec![plugin(manifest("a"), &[], true)];
    let conflict = Err(PluginError::InvalidPackage("plugin id conflicts with mounted package".to_owned()));
    let broken = Err(PluginError::InvalidPackage("component could not be compiled".to_owned()));
    assert_eq!(rebuilt_registry(mounted.clone(), vec![stored("a", false, false)], vec![true]), conflict);
    assert_eq!(
        rebuilt_registry(mounted.clone(), vec![stored("b", false, false), stored("b", false, false)], vec![true, true]),
        conflict
    );
    assert_eq!(rebuilt_registry(mounted.clone(), vec![stored("b", true, true)], vec![false]), broken);
    assert_eq!(
        rebuilt_registry(mounted.clone(), vec![stored("b", true, true), stored("a", true, true)], vec![false, true]),
        broken
    );
    assert_eq!(
        rebuilt_registry(mounted, vec![stored("a", true, true), stored("b", true, true)], vec![true, false]),
        conflict
    );
}

#[test]
fn a_failed_refresh_keeps_the_last_good_registry() {
    let current = RegistryState { catalog_revision: 4, plugins: vec![plugin(manifest("a"), &[], true)] };
    let refused = PluginError::InvalidPackage("component could not be compiled".to_owned());
    let (kept, outcome) = refreshed_registry(current.clone(), 5, Err(refused.clone()));
    assert_eq!(kept, current);
    assert_eq!(outcome, Err(refused));
    let fresh = vec![plugin(manifest("b"), &[], false)];
    let (next, outcome) = refreshed_registry(current, 5, Ok(fresh.clone()));
    assert_eq!(next, RegistryState { catalog_revision: 5, plugins: fresh });
    assert_eq!(outcome, Ok(()));
}

#[test]
fn a_refresh_keeps_the_mounted_plugins() {
    let mut uploaded = plugin(manifest("b"), &[], true);
    uploaded.source_kind = "uploaded".to_owned();
    let registry = vec![plugin(manifest("a"), &[], true), uploaded, plugin(manifest("c"), &[], false)];
    assert_eq!(mounted_positions(&registry), vec![0, 2]);
    assert!(mounted_positions(&Vec::new()).is_empty());
}
