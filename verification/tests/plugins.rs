use workspace_control::plugins::manifest::extensions::{
    safe_asset_path, safe_id, validate_extensions, PluginApiMiddleware, PluginApiRoute,
    PluginAssetDescriptor, PluginRoutePermission, PluginUiPlacement, PluginUiSurface,
};
use workspace_control::plugins::manifest::{
    check_interface, check_manifest, validate_manifest, InterfaceCheck,
    PluginConfigurationContribution, PluginManifest,
};
use workspace_control::plugins::PluginError;

fn manifest() -> PluginManifest {
    PluginManifest {
        id: "policy".to_owned(),
        name: "Policy".to_owned(),
        version: "1.0.0".to_owned(),
        description: "Example".to_owned(),
        wit_version: "0.1.0".to_owned(),
        wasm: None,
        workspace_create_policy: false,
        denial_codes: Vec::new(),
        configuration: None,
        assets: Vec::new(),
        ui_surfaces: Vec::new(),
        api_routes: Vec::new(),
        api_middleware: Vec::new(),
    }
}

fn invalid(message: &str) -> Result<(), PluginError> {
    Err(PluginError::InvalidPackage(message.to_owned()))
}

fn asset(path: &str, media_type: &str) -> PluginAssetDescriptor {
    PluginAssetDescriptor {
        path: path.to_owned(),
        media_type: media_type.to_owned(),
        sha256: "ab".repeat(32),
        size_bytes: 10,
    }
}

#[test]
fn a_minimal_manifest_is_valid() {
    assert_eq!(validate_manifest(&manifest()), Ok(()));
}

#[test]
fn manifest_rules_are_checked_in_order() {
    let mut m = manifest();
    m.id = "Bad_Id".to_owned();
    m.name = " ".to_owned();
    assert_eq!(validate_manifest(&m), invalid("plugin id is invalid"));
    m.id = "ok".to_owned();
    assert_eq!(validate_manifest(&m), invalid("plugin metadata is invalid"));
    m.name = "Named".to_owned();
    m.description = "tab\there".to_owned();
    assert_eq!(validate_manifest(&m), invalid("plugin metadata is invalid"));
    m.description = String::new();
    m.version = "1.0".to_owned();
    assert_eq!(validate_manifest(&m), invalid("plugin version is invalid"));
    m.version = "2.3.4-rc.1".to_owned();
    m.wit_version = "one".to_owned();
    assert_eq!(validate_manifest(&m), invalid("plugin interface version is invalid"));
    m.wit_version = "0.2.0".to_owned();
    assert_eq!(validate_manifest(&m), invalid("plugin interface version is not supported"));
    m.wit_version = "0.1.9".to_owned();
    m.workspace_create_policy = true;
    assert_eq!(validate_manifest(&m), invalid("workspace create policy requires a component"));
    m.workspace_create_policy = false;
    m.wasm = Some("plugin.wasm".to_owned());
    assert_eq!(validate_manifest(&m), invalid("components must declare workspace_create_policy"));
    m.workspace_create_policy = true;
    m.denial_codes = vec!["quota_exceeded".to_owned(), "quota_exceeded".to_owned()];
    assert_eq!(validate_manifest(&m), invalid("plugin denial code is invalid"));
    m.denial_codes = vec!["quota_exceeded".to_owned(), "too-big".to_owned()];
    assert_eq!(validate_manifest(&m), Ok(()));
}

#[test]
fn interface_versions_outside_the_supported_range_are_refused() {
    assert_eq!(check_interface("0.1.0"), InterfaceCheck::Supported);
    assert_eq!(check_interface("0.1.7"), InterfaceCheck::Supported);
    assert_eq!(check_interface("0.0.9"), InterfaceCheck::Unsupported);
    assert_eq!(check_interface("1.1.0"), InterfaceCheck::Unsupported);
    assert_eq!(check_interface("0.1.1-beta"), InterfaceCheck::Unsupported);
    assert_eq!(check_interface("0.1"), InterfaceCheck::Invalid);
    assert_eq!(
        check_manifest(&manifest(), true, InterfaceCheck::RangeUnreadable),
        Err(PluginError::Package)
    );
}

#[test]
fn ids_and_asset_paths_are_restricted() {
    assert!(safe_id("admin-tab_1"));
    assert!(!safe_id(""));
    assert!(!safe_id("Admin"));
    assert!(!safe_id(&"a".repeat(65)));
    assert!(safe_asset_path("ui/index.html"));
    assert!(safe_asset_path("a.b/c-d_e.js"));
    for path in ["", "/abs.js", "a//b", "a/", "./a", "a/../b", "..", "a/.", "a\\b", "a b", "é"] {
        assert!(!safe_asset_path(path), "{path}");
    }
    assert!(safe_asset_path("...") && safe_asset_path(".hidden"));
    assert!(!safe_asset_path(&"a".repeat(241)));
}

#[test]
fn extensions_are_checked_against_their_limits() {
    let mut m = manifest();
    m.assets = vec![asset("ui/index.html", "text/html"), asset("ui/app.js", "application/javascript")];
    m.ui_surfaces = vec![PluginUiSurface {
        id: "admin".to_owned(),
        title: "Admin".to_owned(),
        placement: PluginUiPlacement::AdminTab,
        entrypoint: "ui/index.html".to_owned(),
        allowed_bridge_methods: vec!["theme.read".to_owned()],
    }];
    m.api_routes = vec![PluginApiRoute {
        id: "status".to_owned(),
        title: "Status".to_owned(),
        permission: PluginRoutePermission::Authenticated,
    }];
    m.api_middleware = vec![PluginApiMiddleware {
        id: "guard".to_owned(),
        phase: "before_api".to_owned(),
    }];
    assert_eq!(validate_extensions(&m), Ok(()));

    let mut bad = m.clone();
    bad.assets.push(asset("ui/index.html", "text/css"));
    assert_eq!(validate_extensions(&bad), invalid("plugin asset declaration is invalid"));
    let mut bad = m.clone();
    bad.assets[1].media_type = "application/x-sh".to_owned();
    assert_eq!(validate_extensions(&bad), invalid("plugin asset declaration is invalid"));
    let mut bad = m.clone();
    bad.assets[0].size_bytes = 2 * 1024 * 1024 + 1;
    assert_eq!(validate_extensions(&bad), invalid("plugin asset declaration is invalid"));
    let mut bad = m.clone();
    bad.assets = (0..65).map(|i| asset(&format!("f{i}.css"), "text/css")).collect();
    assert_eq!(validate_extensions(&bad), invalid("plugin assets exceed size limits"));
    let mut bad = m.clone();
    for a in bad.assets.iter_mut() {
        a.size_bytes = 2 * 1024 * 1024;
    }
    bad.assets.extend((0..4).map(|i| PluginAssetDescriptor {
        size_bytes: 2 * 1024 * 1024,
        ..asset(&format!("big{i}.png"), "image/png")
    }));
    assert_eq!(validate_extensions(&bad), invalid("plugin assets exceed size limits"));
    let mut bad = m.clone();
    bad.ui_surfaces[0].entrypoint = "ui/app.js".to_owned();
    assert_eq!(validate_extensions(&bad), invalid("plugin UI surface is invalid"));
    let mut bad = m.clone();
    bad.ui_surfaces[0].allowed_bridge_methods.push("fs.write".to_owned());
    assert_eq!(validate_extensions(&bad), invalid("plugin UI surface is invalid"));
    let mut bad = m.clone();
    bad.ui_surfaces.push(bad.ui_surfaces[0].clone());
    assert_eq!(validate_extensions(&bad), invalid("plugin UI surface is invalid"));
    let mut bad = m.clone();
    bad.api_middleware[0].phase = "after_api".to_owned();
    assert_eq!(validate_extensions(&bad), invalid("plugin API contribution is invalid"));
    let mut bad = m;
    bad.api_routes[0].title = "  ".to_owned();
    assert_eq!(validate_extensions(&bad), invalid("plugin API contribution is invalid"));
}

#[test]
fn configuration_is_part_of_the_manifest() {
    let mut m = manifest();
    m.configuration = Some(PluginConfigurationContribution {
        schema_json: "{\"type\":\"object\"}".to_owned(),
        default_json: "{}".to_owned(),
    });
    assert_eq!(validate_manifest(&m), Ok(()));
    assert_eq!(PluginError::invalid("x"), PluginError::InvalidPackage("x".to_owned()));
}

#[test]
fn component_paths_stay_relative_and_below_the_package() {
    use_component_paths();
}

fn use_component_paths() {
    let check = workspace_control::plugins::manifest::check_component_path;
    assert_eq!(check("plugin.wasm"), Ok(()));
    assert_eq!(check("bin/./plugin.wasm"), Ok(()));
    assert_eq!(check("..plugin.wasm"), Ok(()));
    assert_eq!(check(""), invalid("component path is unsafe"));
    assert_eq!(check("/plugin.wasm"), invalid("component path is unsafe"));
    assert_eq!(check("../plugin.wasm"), invalid("component path is unsafe"));
    assert_eq!(check("bin/../../plugin.wasm"), invalid("component path is unsafe"));
    assert_eq!(check("bin/.."), invalid("component path is unsafe"));
}
