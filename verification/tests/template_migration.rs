use workspace_control::quota::Resources;
use workspace_control::storage::template_migration::{
    development_environment, legacy_profile, legacy_settings, LegacyProfile, LegacySettings,
    PodResourceRequest,
};
use workspace_control::storage::StorageError;

fn resources(cpu_millis: u64, memory_mib: u64) -> Resources {
    Resources { cpu_millis, memory_mib, gpu_count: 0, disk_gib: 20 }
}

fn value<'a>(environment: &'a [(String, String)], name: &str) -> Option<&'a str> {
    environment
        .iter()
        .find(|(key, _)| key == name)
        .map(|(_, value)| value.as_str())
}

#[test]
fn historical_profile_names_map_to_current_profiles() {
    assert_eq!(legacy_profile("standard"), Ok(LegacyProfile::Standard));
    assert_eq!(legacy_profile("coder_node_dev"), Ok(LegacyProfile::NodeDevelopment));
    assert_eq!(legacy_profile("coder_token_center_rust_dev"), Ok(LegacyProfile::RustDevelopment));
    assert_eq!(legacy_profile("maintainance"), Ok(LegacyProfile::Maintenance));
    assert_eq!(legacy_profile("coder_cluster_admin"), Ok(LegacyProfile::Maintenance));
    assert_eq!(legacy_profile("gpu"), Err(StorageError::InvalidTemplate));
    assert_eq!(legacy_settings("standard", resources(1, 1)), Ok(LegacySettings::Standard));
}

#[test]
fn development_environment_is_ordered_by_name() {
    let node = development_environment("/home/node-dev", "hosts", false);
    assert_eq!(node.len(), 17);
    assert!(node.windows(2).all(|w| w[0].0 < w[1].0));
    assert_eq!(value(&node, "TMPDIR"), Some("/home/node-dev/.tmp/dev"));
    assert_eq!(value(&node, "no_proxy"), Some("hosts"));
    assert_eq!(
        value(&node, "PATH"),
        Some("/usr/local/bin:/usr/local/sbin:/home/node-dev/.local/bin:/home/node-dev/.local/share/pnpm:/usr/sbin:/usr/bin:/sbin:/bin")
    );
    assert_eq!(value(&node, "CARGO_HOME"), None);

    let rust = development_environment("/home/rust-dev", "hosts", true);
    assert_eq!(rust.len(), 21);
    assert!(rust.windows(2).all(|w| w[0].0 < w[1].0));
    assert_eq!(value(&rust, "TMP"), Some("/tmp"));
    assert_eq!(value(&rust, "CARGO_TARGET_DIR"), Some("/home/rust-dev/.cache/cargo-target"));
    assert_eq!(
        value(&rust, "BUILDKIT_HOST"),
        Some("unix:///home/rust-dev/.cache/buildkit/runtime/buildkit/buildkitd.sock")
    );
}

#[test]
fn development_profiles_cap_requests_by_the_template() {
    let Ok(LegacySettings::Development(node)) = legacy_settings("node_dev", resources(500, 8192)) else {
        panic!("node profile expected");
    };
    assert_eq!(node.workspace_user, "node-dev");
    assert_eq!(node.workspace_home, "/home/node-dev");
    assert_eq!(
        node.pod_requests,
        PodResourceRequest { cpu_millis: 500, memory_mib: 1024, ephemeral_storage_mib: Some(256) }
    );
    assert_eq!(node.ephemeral_storage_limit_mib, Some(1024));
    assert_eq!(node.required_node_names, vec!["westlake".to_owned(), "haixia".to_owned()]);

    let Ok(LegacySettings::Development(rust)) = legacy_settings("coder_rust_dev", resources(8000, 2048)) else {
        panic!("rust profile expected");
    };
    assert_eq!(rust.pod_requests.cpu_millis, 2000);
    assert_eq!(rust.pod_requests.memory_mib, 2048);
    assert_eq!(rust.environment.len(), 24);
    assert!(rust.environment.windows(2).all(|w| w[0].0 < w[1].0));
    assert_eq!(value(&rust.environment, "RUSTUP_HOME"), Some("/usr/local/rustup"));
    assert_eq!(
        value(&rust.environment, "NO_PROXY"),
        Some("localhost,127.0.0.1,::1,.svc,.cluster.local,10.42.0.0/16,10.43.0.0/16,100.64.0.0/10,.k3s.onetwo.website,rsproxy.cn,npmmirror.com")
    );
}

#[test]
fn maintenance_profile_reaches_the_cluster_from_one_node() {
    let Ok(LegacySettings::Maintenance(m)) = legacy_settings("maintainance", resources(50, 512)) else {
        panic!("maintenance profile expected");
    };
    assert_eq!(m.workspace_home, "/home/cluster-admin");
    assert_eq!(m.pod_cpu_millis, 50);
    assert_eq!(m.preferred_node_names, vec!["westlake".to_owned()]);
    assert_eq!(
        m.node_selector_additions,
        vec![("k3s-worker-ready".to_owned(), "true".to_owned())]
    );
    assert_eq!(
        value(&m.environment_additions, "KUBECONFIG"),
        Some("/home/cluster-admin/.mwc/kubeconfig")
    );
}
