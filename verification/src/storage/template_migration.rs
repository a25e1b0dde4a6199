//! What the runtime profiles of records written before templates became
//! documents stand for. The historical profile names and the defaults of
//! the deployment they came from stay here, out of the template rules.
use vstd::prelude::*;

use super::StorageError;
use crate::quota::Resources;
use crate::text::chars_of;

verus! {

/// The profiles a legacy record may name.
#[derive(Debug, Clone, Copy, PartialEq, Eq)]
pub enum LegacyProfile {
    Standard,
    NodeDevelopment,
    RustDevelopment,
    Maintenance,
}

/// The profile a stored name stands for, the historical names included.
pub open spec fn legacy_profile_of(value: Seq<char>) -> Option<LegacyProfile> {
    if value == "standard"@ {
        Some(LegacyProfile::Standard)
    } else if value == "node_dev"@ || value == "coder_node_dev"@ {
        Some(LegacyProfile::NodeDevelopment)
    } else if value == "rust_dev"@ || value == "coder_rust_dev"@ || value
        == "coder_token_center_rust_dev"@ {
        Some(LegacyProfile::RustDevelopment)
    } else if value == "maintainance"@ || value == "coder_cluster_admin"@ {
        Some(LegacyProfile::Maintenance)
    } else {
        None
    }
}

/// Reads a stored profile name; an unknown one makes the record an
/// invalid template.
pub fn legacy_profile(value: &str) -> (profile: Result<LegacyProfile, StorageError>)
    ensures
        match legacy_profile_of(value@) {
            Some(p) => profile == Ok::<LegacyProfile, StorageError>(p),
            None => profile == Err::<LegacyProfile, StorageError>(StorageError::InvalidTemplate),
        },
{
    let c = chars_of(value);
    let c = c.as_slice();
    let eq = |name: &str| -> (b: bool)
        ensures
            b == (c@ == name@),
        { crate::text::chars_eq_str(c, name) };
    if eq("standard") {
        Ok(LegacyProfile::Standard)
    } else if eq("node_dev") || eq("coder_node_dev") {
        Ok(LegacyProfile::NodeDevelopment)
    } else if eq("rust_dev") || eq("coder_rust_dev") || eq("coder_token_center_rust_dev") {
        Ok(LegacyProfile::RustDevelopment)
    } else if eq("maintainance") || eq("coder_cluster_admin") {
        Ok(LegacyProfile::Maintenance)
    } else {
        Err(StorageError::InvalidTemplate)
    }
}

/// The pairs of an environment or a selector, as texts.
pub open spec fn pairs_view(pairs: Seq<(String, String)>) -> Seq<(Seq<char>, Seq<char>)> {
    pairs.map_values(|p: (String, String)| (p.0@, p.1@))
}

/// The hosts that the development profiles reach without the proxy.
pub open spec fn no_proxy_hosts(rust: bool) -> Seq<char> {
    if rust {
        "localhost,127.0.0.1,::1,.svc,.cluster.local,10.42.0.0/16,10.43.0.0/16,100.64.0.0/10,.k3s.onetwo.website,rsproxy.cn,npmmirror.com"@
    } else {
        "localhost,127.0.0.1,::1,.svc,.cluster.local,10.42.0.0/16,10.43.0.0/16,100.64.0.0/10,.k3s.onetwo.website,npmmirror.com"@
    }
}

fn no_proxy(rust: bool) -> (hosts: &'static str)
    ensures
        hosts@ == no_proxy_hosts(rust),
{
    if rust {
        "localhost,127.0.0.1,::1,.svc,.cluster.local,10.42.0.0/16,10.43.0.0/16,100.64.0.0/10,.k3s.onetwo.website,rsproxy.cn,npmmirror.com"
    } else {
        "localhost,127.0.0.1,::1,.svc,.cluster.local,10.42.0.0/16,10.43.0.0/16,100.64.0.0/10,.k3s.onetwo.website,npmmirror.com"
    }
}

/// The search path of a development profile.
pub open spec fn development_path(home: Seq<char>, rust: bool) -> Seq<char> {
    if rust {
        "/usr/local/bin:/usr/local/sbin:/usr/local/cargo/bin:"@ + home + ("/.local/bin:"@ + home + (
        "/.local/share/pnpm:"@ + home + "/.cargo/bin:/usr/sbin:/usr/bin:/sbin:/bin"@))
    } else {
        "/usr/local/bin:/usr/local/sbin:"@ + home + ("/.local/bin:"@ + home
            + "/.local/share/pnpm:/usr/sbin:/usr/bin:/sbin:/bin"@)
    }
}

/// The environment of a development profile, in order of name: the home
/// directory and the caches and configuration beneath it, the proxy
/// exceptions, temporary directories (`/tmp` for Rust builds) and, for
/// Rust, Cargo's settings.
pub open spec fn development_environment_of(home: Seq<char>, no_proxy: Seq<char>, rust: bool) -> Seq<
    (Seq<char>, Seq<char>),
> {
    let tmp = if rust {
        "/tmp"@
    } else {
        home + "/.tmp/dev"@
    };
    let cargo = if rust {
        seq![
            ("CARGO_HOME"@, home + "/.cargo"@),
            ("CARGO_HTTP_MULTIPLEXING"@, "false"@),
            ("CARGO_REGISTRIES_CRATES_IO_PROTOCOL"@, "sparse"@),
            ("CARGO_TARGET_DIR"@, home + "/.cache/cargo-target"@),
        ]
    } else {
        Seq::empty()
    };
    seq![("BUILDKIT_HOST"@, "unix://"@ + home + "/.cache/buildkit/runtime/buildkit/buildkitd.sock"@)]
        + cargo + seq![
        ("DOCKER_CONFIG"@, home + "/.config/docker"@),
        ("HOME"@, home),
        ("NO_PROXY"@, no_proxy),
        ("NPM_CONFIG_CACHE"@, home + "/.cache/npm"@),
        ("PATH"@, development_path(home, rust)),
        ("PLAYWRIGHT_BROWSERS_PATH"@, home + "/.cache/ms-playwright"@),
        ("PNPM_HOME"@, home + "/.local/share/pnpm"@),
        ("TEMP"@, tmp),
        ("TMP"@, tmp),
        ("TMPDIR"@, tmp),
        ("XDG_CACHE_HOME"@, home + "/.cache"@),
        ("XDG_CONFIG_HOME"@, home + "/.config"@),
        ("XDG_DATA_HOME"@, home + "/.local/share"@),
        ("XDG_STATE_HOME"@, home + "/.local/state"@),
        ("YARN_CACHE_FOLDER"@, home + "/.cache/yarn"@),
        ("no_proxy"@, no_proxy),
    ]
}

fn joined(a: &str, b: &str) -> (s: String)
    ensures
        s@ == a@ + b@,
{
    let mut s = a.to_owned();
    s.append(b);
    s
}

fn pair(name: &str, value: String) -> (p: (String, String))
    ensures
        p.0@ == name@,
        p.1 == value,
{
    (name.to_owned(), value)
}

/// The environment of a development profile for `home`.
pub fn development_environment(home: &str, no_proxy: &str, rust: bool) -> (environment: Vec<
    (String, String),
>)
    ensures
        pairs_view(environment@) == development_environment_of(home@, no_proxy@, rust),
{
    let tmp = if rust {
        "/tmp".to_owned()
    } else {
        joined(home, "/.tmp/dev")
    };
    let mut env: Vec<(String, String)> = Vec::new();
    let mut buildkit = "unix://".to_owned();
    buildkit.append(home);
    buildkit.append("/.cache/buildkit/runtime/buildkit/buildkitd.sock");
    env.push(pair("BUILDKIT_HOST", buildkit));
    if rust {
        env.push(pair("CARGO_HOME", joined(home, "/.cargo")));
        env.push(pair("CARGO_HTTP_MULTIPLEXING", "false".to_owned()));
        env.push(pair("CARGO_REGISTRIES_CRATES_IO_PROTOCOL", "sparse".to_owned()));
        env.push(pair("CARGO_TARGET_DIR", joined(home, "/.cache/cargo-target")));
    }
    env.push(pair("DOCKER_CONFIG", joined(home, "/.config/docker")));
    env.push(pair("HOME", home.to_owned()));
    env.push(pair("NO_PROXY", no_proxy.to_owned()));
    env.push(pair("NPM_CONFIG_CACHE", joined(home, "/.cache/npm")));
    let mut path = if rust {
        "/usr/local/bin:/usr/local/sbin:/usr/local/cargo/bin:".to_owned()
    } else {
        "/usr/local/bin:/usr/local/sbin:".to_owned()
    };
    path.append(home);
    path.append("/.local/bin:");
    path.append(home);
    if rust {
        path.append("/.local/share/pnpm:");
        path.append(home);
        path.append("/.cargo/bin:/usr/sbin:/usr/bin:/sbin:/bin");
    } else {
        path.append("/.local/share/pnpm:/usr/sbin:/usr/bin:/sbin:/bin");
    }
    proof {
        if rust {
            assert(path@ =~= development_path(home@, rust));
        } else {
            assert(path@ =~= development_path(home@, rust));
        }
    }
    env.push(pair("PATH", path));
    env.push(pair("PLAYWRIGHT_BROWSERS_PATH", joined(home, "/.cache/ms-playwright")));
    env.push(pair("PNPM_HOME", joined(home, "/.local/share/pnpm")));
    env.push(pair("TEMP", tmp.clone()));
    env.push(pair("TMP", tmp.clone()));
    env.push(pair("TMPDIR", tmp));
    env.push(pair("XDG_CACHE_HOME", joined(home, "/.cache")));
    env.push(pair("XDG_CONFIG_HOME", joined(home, "/.config")));
    env.push(pair("XDG_DATA_HOME", joined(home, "/.local/share")));
    env.push(pair("XDG_STATE_HOME", joined(home, "/.local/state")));
    env.push(pair("YARN_CACHE_FOLDER", joined(home, "/.cache/yarn")));
    env.push(pair("no_proxy", no_proxy.to_owned()));
    proof {
        assert(pairs_view(env@) =~= development_environment_of(home@, no_proxy@, rust));
    }
    env
}

/// What a workspace Pod asks the scheduler for.
#[derive(Debug, Clone, Copy, PartialEq, Eq)]
pub struct PodResourceRequest {
    pub cpu_millis: u64,
    pub memory_mib: u64,
    pub ephemeral_storage_mib: Option<u64>,
}

/// What a development profile sets on the standard template: its own
/// user and home (whose ownership is preserved), BuildKit, requests capped
/// by the template's resources, a scratch-space limit, the nodes it runs
/// on and its environment.
#[derive(Debug, Clone, PartialEq, Eq)]
pub struct DevelopmentSettings {
    pub workspace_user: String,
    pub workspace_home: String,
    pub pod_requests: PodResourceRequest,
    pub ephemeral_storage_limit_mib: Option<u64>,
    pub required_node_names: Vec<String>,
    pub environment: Vec<(String, String)>,
}

/// What the maintenance profile sets on the standard template: its own
/// user and home (whose ownership is preserved), cluster access, a small
/// CPU request, a preferred node, and additions to the node selector and
/// the environment.
#[derive(Debug, Clone, PartialEq, Eq)]
pub struct MaintenanceSettings {
    pub workspace_user: String,
    pub workspace_home: String,
    pub pod_cpu_millis: u64,
    pub preferred_node_names: Vec<String>,
    pub node_selector_additions: Vec<(String, String)>,
    pub environment_additions: Vec<(String, String)>,
}

/// What a legacy profile changes on the standard template.
#[derive(Debug, Clone, PartialEq, Eq)]
pub enum LegacySettings {
    Standard,
    Development(DevelopmentSettings),
    Maintenance(MaintenanceSettings),
}

pub open spec fn min_u64(a: u64, b: u64) -> u64 {
    if a <= b {
        a
    } else {
        b
    }
}

/// The home of a profile's user.
pub open spec fn profile_home(user: Seq<char>) -> Seq<char> {
    "/home/"@ + user
}

/// The environment of the Rust profile: the development environment with
/// the toolchain mirror settings in their place by name.
pub open spec fn rust_environment_of(home: Seq<char>) -> Seq<(Seq<char>, Seq<char>)> {
    let base = development_environment_of(home, no_proxy_hosts(true), true);
    base.take(12) + seq![
        ("RUSTUP_DIST_SERVER"@, "https://rsproxy.cn"@),
        ("RUSTUP_HOME"@, "/usr/local/rustup"@),
        ("RUSTUP_UPDATE_ROOT"@, "https://rsproxy.cn/rustup"@),
    ] + base.skip(12)
}

/// The settings of a development profile, for the given template
/// resources.
pub open spec fn development_settings_ok(settings: DevelopmentSettings, rust: bool, resources: Resources) -> bool {
    let user = if rust {
        "rust-dev"@
    } else {
        "node-dev"@
    };
    &&& settings.workspace_user@ == user
    &&& settings.workspace_home@ == profile_home(user)
    &&& settings.pod_requests == PodResourceRequest {
        cpu_millis: min_u64(if rust { 2000 } else { 1000 }, resources.cpu_millis),
        memory_mib: min_u64(if rust { 4096 } else { 1024 }, resources.memory_mib),
        ephemeral_storage_mib: Some(256),
    }
    &&& settings.ephemeral_storage_limit_mib == Some(1024u64)
    &&& settings.required_node_names@.len() == 2
    &&& settings.required_node_names@[0]@ == "westlake"@
    &&& settings.required_node_names@[1]@ == "haixia"@
    &&& pairs_view(settings.environment@) == if rust {
        rust_environment_of(profile_home(user))
    } else {
        development_environment_of(profile_home(user), no_proxy_hosts(false), false)
    }
}

/// The settings of the maintenance profile, for the given template
/// resources.
pub open spec fn maintenance_settings_ok(settings: MaintenanceSettings, resources: Resources) -> bool {
    let home = profile_home("cluster-admin"@);
    &&& settings.workspace_user@ == "cluster-admin"@
    &&& settings.workspace_home@ == home
    &&& settings.pod_cpu_millis == min_u64(100, resources.cpu_millis)
    &&& settings.preferred_node_names@.len() == 1
    &&& settings.preferred_node_names@[0]@ == "westlake"@
    &&& pairs_view(settings.node_selector_additions@) == seq![("k3s-worker-ready"@, "true"@)]
    &&& pairs_view(settings.environment_additions@) == seq![
        ("HOME"@, home),
        ("KUBECONFIG"@, home + "/.mwc/kubeconfig"@),
        ("PATH"@, "/usr/local/bin:/usr/local/sbin:/usr/sbin:/usr/bin:/sbin:/bin:"@ + home
            + ("/.local/bin:"@ + home + "/.local/share/pnpm"@)),
    ]
}

fn development_settings(rust: bool, resources: Resources) -> (settings: DevelopmentSettings)
    ensures
        development_settings_ok(settings, rust, resources),
{
    let user = if rust {
        "rust-dev"
    } else {
        "node-dev"
    };
    let home = joined("/home/", user);
    let mut environment = development_environment(home.as_str(), no_proxy(rust), rust);
    if rust {
        assert(environment@.len() == 21) by {
            assert(pairs_view(environment@).len() == environment@.len());
        }
        environment.insert(12, pair("RUSTUP_DIST_SERVER", "https://rsproxy.cn".to_owned()));
        environment.insert(13, pair("RUSTUP_HOME", "/usr/local/rustup".to_owned()));
        environment.insert(14, pair("RUSTUP_UPDATE_ROOT", "https://rsproxy.cn/rustup".to_owned()));
        proof {
            assert(pairs_view(environment@) =~= rust_environment_of(home@));
        }
    }
    let cpu_cap: u64 = if rust {
        2000
    } else {
        1000
    };
    let memory_cap: u64 = if rust {
        4096
    } else {
        1024
    };
    let mut nodes: Vec<String> = Vec::new();
    nodes.push("westlake".to_owned());
    nodes.push("haixia".to_owned());
    DevelopmentSettings {
        workspace_user: user.to_owned(),
        workspace_home: home,
        pod_requests: PodResourceRequest {
            cpu_millis: if cpu_cap <= resources.cpu_millis {
                cpu_cap
            } else {
                resources.cpu_millis
            },
            memory_mib: if memory_cap <= resources.memory_mib {
                memory_cap
            } else {
                resources.memory_mib
            },
            ephemeral_storage_mib: Some(256),
        },
        ephemeral_storage_limit_mib: Some(1024),
        required_node_names: nodes,
        environment,
    }
}

fn maintenance_settings(resources: Resources) -> (settings: MaintenanceSettings)
    ensures
        maintenance_settings_ok(settings, resources),
{
    let home = joined("/home/", "cluster-admin");
    let mut path = "/usr/local/bin:/usr/local/sbin:/usr/sbin:/usr/bin:/sbin:/bin:".to_owned();
    path.append(home.as_str());
    path.append("/.local/bin:");
    path.append(home.as_str());
    path.append("/.local/share/pnpm");
    assert(path@ =~= "/usr/local/bin:/usr/local/sbin:/usr/sbin:/usr/bin:/sbin:/bin:"@ + home@ + (
    "/.local/bin:"@ + home@ + "/.local/share/pnpm"@));
    let mut environment: Vec<(String, String)> = Vec::new();
    environment.push(pair("HOME", home.clone()));
    environment.push(pair("KUBECONFIG", joined(home.as_str(), "/.mwc/kubeconfig")));
    environment.push(pair("PATH", path));
    let mut selector: Vec<(String, String)> = Vec::new();
    selector.push(pair("k3s-worker-ready", "true".to_owned()));
    let mut nodes: Vec<String> = Vec::new();
    nodes.push("westlake".to_owned());
    let settings = MaintenanceSettings {
        workspace_user: "cluster-admin".to_owned(),
        workspace_home: home,
        pod_cpu_millis: if 100 <= resources.cpu_millis {
            100
        } else {
            resources.cpu_millis
        },
        preferred_node_names: nodes,
        node_selector_additions: selector,
        environment_additions: environment,
    };
    proof {
        assert(pairs_view(settings.node_selector_additions@) =~= seq![("k3s-worker-ready"@, "true"@)]);
        assert(pairs_view(settings.environment_additions@) =~= seq![
            ("HOME"@, settings.workspace_home@),
            ("KUBECONFIG"@, settings.workspace_home@ + "/.mwc/kubeconfig"@),
            ("PATH"@, "/usr/local/bin:/usr/local/sbin:/usr/sbin:/usr/bin:/sbin:/bin:"@
                + settings.workspace_home@ + ("/.local/bin:"@ + settings.workspace_home@
                + "/.local/share/pnpm"@)),
        ]);
    }
    settings
}

/// What the stored profile of a legacy record changes on the standard
/// template with the record's resources; an unknown profile makes the
/// record an invalid template.
pub fn legacy_settings(legacy_value: &str, resources: Resources) -> (settings: Result<
    LegacySettings,
    StorageError,
>)
    ensures
        match legacy_profile_of(legacy_value@) {
            None => settings == Err::<LegacySettings, StorageError>(StorageError::InvalidTemplate),
            Some(LegacyProfile::Standard) => settings == Ok::<LegacySettings, StorageError>(
                LegacySettings::Standard,
            ),
            Some(LegacyProfile::NodeDevelopment) => settings matches Ok(
                LegacySettings::Development(d),
            ) && development_settings_ok(d, false, resources),
            Some(LegacyProfile::RustDevelopment) => settings matches Ok(
                LegacySettings::Development(d),
            ) && development_settings_ok(d, true, resources),
            Some(LegacyProfile::Maintenance) => settings matches Ok(LegacySettings::Maintenance(m))
                && maintenance_settings_ok(m, resources),
        },
{
    match legacy_profile(legacy_value) {
        Err(e) => Err(e),
        Ok(LegacyProfile::Standard) => Ok(LegacySettings::Standard),
        Ok(LegacyProfile::NodeDevelopment) => Ok(
            LegacySettings::Development(development_settings(false, resources)),
        ),
        Ok(LegacyProfile::RustDevelopment) => Ok(
            LegacySettings::Development(development_settings(true, resources)),
        ),
        Ok(LegacyProfile::Maintenance) => Ok(LegacySettings::Maintenance(maintenance_settings(resources))),
    }
}

} // verus!
