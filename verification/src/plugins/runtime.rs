//! The plugin registry and the decisions taken around plugin execution:
//! which plugins run for a request, how their answers are read, and what
//! the registry reports about itself.
use vstd::prelude::*;

use super::error::{is_invalid_package, PluginError};
use super::manifest::PluginManifest;
use crate::templates::WorkspaceTemplateSpec;
use crate::text::{chars_of, trim, utf8_len};

verus! {

/// How many plugin executions may run at once.
pub const MAX_CONCURRENT_EXECUTIONS: usize = 16;

/// The largest request body handed to a plugin API route.
pub const MAX_API_REQUEST_BODY: usize = 262144;

/// The largest response body accepted from a plugin API route.
pub const MAX_API_RESPONSE_BODY: usize = 1048576;

/// Who asks to create a workspace, and for whom. Identifiers are carried as
/// their 128-bit values.
#[derive(Debug, Clone, PartialEq, Eq)]
pub struct WorkspaceCreateContext {
    pub installation_id: String,
    pub actor_user_id: u128,
    pub organization_id: u128,
    pub owner_id: u128,
    pub template_id: u128,
}

/// The workspace that admission policies are asked about.
#[derive(Debug, Clone, PartialEq, Eq)]
pub struct WorkspaceCreatePlan {
    pub name: String,
    pub image: String,
    pub access_mode: String,
    pub cpu_millis: u64,
    pub memory_mib: u64,
    pub gpu_count: u32,
    pub disk_gib: u64,
    pub buildkit_enabled: bool,
    pub cluster_access: bool,
}

/// The request that an API route or middleware sees.
#[derive(Debug, Clone, PartialEq, Eq)]
pub struct PluginRequestContext {
    pub installation_id: String,
    pub actor_user_id: Option<u128>,
    pub organization_id: Option<u128>,
    pub method: String,
    pub path: String,
}

/// What a plugin API route answered.
#[derive(Debug, Clone, PartialEq, Eq)]
pub struct PluginApiResponse {
    pub status: u16,
    pub content_type: String,
    pub body: Vec<u8>,
}

/// A snapshot of the registry and of the execution slots.
#[derive(Debug, Clone, Copy, PartialEq, Eq)]
pub struct PluginRuntimeMetrics {
    pub loaded: usize,
    pub enabled: usize,
    pub executable: usize,
    pub executions_active: usize,
    pub execution_limit: usize,
    pub registry_metadata_bytes_estimate: usize,
}

/// A plugin in the registry: its manifest, whether a compiled component
/// and a configuration schema came with it (by the schema's digest), where
/// it came from, and what an administrator approved.
#[derive(Debug, Clone, PartialEq, Eq)]
pub struct RegisteredPlugin {
    pub manifest: PluginManifest,
    pub executable: bool,
    pub configuration_schema_digest: Option<String>,
    pub source_kind: String,
    pub source_ref: String,
    pub package_digest: String,
    pub source_confirmation: String,
    pub approved_contributions: Vec<String>,
    pub package_version: u64,
    pub enabled: bool,
    /// The size of the manifest's JSON encoding.
    pub manifest_json_bytes: usize,
}

impl WorkspaceCreatePlan {
    /// The plan for a workspace named `name` (surrounding white space
    /// removed) made from `template`.
    pub fn from_template(name: &str, template: &WorkspaceTemplateSpec) -> (plan: Self)
        ensures
            plan.name@ == trim(name@),
            plan.image@ == template.image@,
            plan.access_mode@ == crate::workspaces::access_mode_name(template.access_mode),
            plan.cpu_millis == template.resources.cpu_millis,
            plan.memory_mib == template.resources.memory_mib,
            plan.gpu_count == template.resources.gpu_count,
            plan.disk_gib == template.resources.disk_gib,
            plan.buildkit_enabled == template.buildkit,
            plan.cluster_access == template.cluster_access,
    {
        let chars = chars_of(name);
        let trimmed = crate::text::trimmed(chars.as_slice());
        WorkspaceCreatePlan {
            name: crate::text::string_from_chars(trimmed.as_slice()),
            image: template.image.clone(),
            access_mode: template.access_mode.as_str().to_owned(),
            cpu_millis: template.resources.cpu_millis,
            memory_mib: template.resources.memory_mib,
            gpu_count: template.resources.gpu_count,
            disk_gib: template.resources.disk_gib,
            buildkit_enabled: template.buildkit,
            cluster_access: template.cluster_access,
        }
    }
}

/// The contributions a manifest declares, in a fixed order.
pub open spec fn declared(manifest: PluginManifest) -> Seq<Seq<char>> {
    let a: Seq<Seq<char>> = if manifest.workspace_create_policy {
        seq!["workspace_create_policy"@]
    } else {
        Seq::empty()
    };
    let b = if manifest.configuration is Some {
        a.push("configuration"@)
    } else {
        a
    };
    let c = if manifest.ui_surfaces@.len() > 0 {
        b.push("ui_surfaces"@)
    } else {
        b
    };
    let d = if manifest.api_routes@.len() > 0 {
        c.push("api_routes"@)
    } else {
        c
    };
    if manifest.api_middleware@.len() > 0 {
        d.push("api_middleware"@)
    } else {
        d
    }
}

/// The names of the contributions a manifest declares; a mounted plugin is
/// approved for exactly these.
pub fn declared_contributions(manifest: &PluginManifest) -> (contributions: Vec<String>)
    ensures
        contributions@.map_values(|c: String| c@) == declared(*manifest),
{
    let mut contributions: Vec<String> = Vec::new();
    if manifest.workspace_create_policy {
        contributions.push("workspace_create_policy".to_owned());
    }
    if manifest.configuration.is_some() {
        contributions.push("configuration".to_owned());
    }
    if manifest.ui_surfaces.len() > 0 {
        contributions.push("ui_surfaces".to_owned());
    }
    if manifest.api_routes.len() > 0 {
        contributions.push("api_routes".to_owned());
    }
    if manifest.api_middleware.len() > 0 {
        contributions.push("api_middleware".to_owned());
    }
    assert(contributions@.map_values(|c: String| c@) =~= declared(*manifest));
    contributions
}

/// An administrator approved the contribution `name` of the plugin.
pub open spec fn approves(plugin: RegisteredPlugin, name: Seq<char>) -> bool {
    exists|k: int|
        0 <= k < plugin.approved_contributions@.len()
            && #[trigger] plugin.approved_contributions@[k]@ == name
}

/// Whether the plugin's approved contributions include `name`.
pub fn approved(plugin: &RegisteredPlugin, name: &str) -> (found: bool)
    ensures
        found == approves(*plugin, name@),
{
    let wanted = chars_of(name);
    let mut k: usize = 0;
    while k < plugin.approved_contributions.len()
        invariant
            wanted@ == name@,
            k <= plugin.approved_contributions@.len(),
            forall|m: int| 0 <= m < k ==> #[trigger] plugin.approved_contributions@[m]@ != name@,
        decreases plugin.approved_contributions.len() - k,
    {
        if crate::text::chars_eq_str(wanted.as_slice(), plugin.approved_contributions[k].as_str()) {
            assert(plugin.approved_contributions@[k as int]@ == name@);
            return true;
        }
        k = k + 1;
    }
    false
}

/// Which plugins a request runs through.
#[derive(Debug, Clone, Copy, PartialEq, Eq)]
pub enum PluginSelection {
    /// Enabled plugins with an approved workspace creation policy.
    AdmissionPolicies,
    /// Enabled plugins with approved API middleware.
    ApiMiddleware,
}

/// Whether `plugin` takes part in the selection.
pub open spec fn selects(selection: PluginSelection, plugin: RegisteredPlugin) -> bool {
    match selection {
        PluginSelection::AdmissionPolicies => plugin.enabled && plugin.manifest.workspace_create_policy
            && approves(plugin, "workspace_create_policy"@),
        PluginSelection::ApiMiddleware => plugin.enabled && plugin.manifest.api_middleware@.len() > 0
            && approves(plugin, "api_middleware"@),
    }
}

/// The positions of the selected plugins, in registry order.
pub open spec fn selected_positions(plugins: Seq<RegisteredPlugin>, selection: PluginSelection) -> Seq<
    int,
>
    decreases plugins.len(),
{
    if plugins.len() == 0 {
        Seq::empty()
    } else {
        let earlier = selected_positions(plugins.drop_last(), selection);
        if selects(selection, plugins.last()) {
            earlier.push(plugins.len() - 1)
        } else {
            earlier
        }
    }
}

/// Only enabled plugins take part in a request, and only with what an
/// administrator approved and the manifest declares: an admission policy
/// runs only for an approved `workspace_create_policy`, middleware only
/// for an approved `api_middleware` that the manifest lists.
pub proof fn lemma_only_enabled_plugins_selected(selection: PluginSelection, plugin: RegisteredPlugin)
    ensures
        selects(selection, plugin) ==> plugin.enabled,
        selects(PluginSelection::AdmissionPolicies, plugin) ==> plugin.manifest.workspace_create_policy
            && exists|k: int|
            0 <= k < plugin.approved_contributions@.len()
                && #[trigger] plugin.approved_contributions@[k]@ == "workspace_create_policy"@,
        selects(PluginSelection::ApiMiddleware, plugin) ==> plugin.manifest.api_middleware@.len() > 0
            && exists|k: int|
            0 <= k < plugin.approved_contributions@.len()
                && #[trigger] plugin.approved_contributions@[k]@ == "api_middleware"@,
        plugin.enabled && plugin.manifest.workspace_create_policy && (exists|k: int|
            0 <= k < plugin.approved_contributions@.len()
                && #[trigger] plugin.approved_contributions@[k]@ == "workspace_create_policy"@)
            ==> selects(PluginSelection::AdmissionPolicies, plugin),
        plugin.enabled && plugin.manifest.api_middleware@.len() > 0 && (exists|k: int|
            0 <= k < plugin.approved_contributions@.len()
                && #[trigger] plugin.approved_contributions@[k]@ == "api_middleware"@)
            ==> selects(PluginSelection::ApiMiddleware, plugin),
{
}

/// Every position that a selection returns is that of an enabled plugin of
/// the registry, and the positions increase.
pub proof fn lemma_selected_positions_enabled(plugins: Seq<RegisteredPlugin>, selection: PluginSelection)
    ensures
        forall|k: int|
            0 <= k < selected_positions(plugins, selection).len() ==> {
                let i = #[trigger] selected_positions(plugins, selection)[k];
                &&& 0 <= i < plugins.len()
                &&& plugins[i].enabled
            },
        forall|k: int, l: int|
            0 <= k < l < selected_positions(plugins, selection).len() ==> #[trigger] selected_positions(
                plugins,
                selection,
            )[k] < #[trigger] selected_positions(plugins, selection)[l],
    decreases plugins.len(),
{
    if plugins.len() > 0 {
        let earlier = plugins.drop_last();
        lemma_selected_positions_enabled(earlier, selection);
        assert forall|k: int| 0 <= k < earlier.len() implies earlier[k] == plugins[k] by {}
        let here = selected_positions(plugins, selection);
        let before = selected_positions(earlier, selection);
        if selects(selection, plugins.last()) {
            lemma_only_enabled_plugins_selected(selection, plugins.last());
            assert forall|k: int| 0 <= k < here.len() implies {
                let i = #[trigger] here[k];
                &&& 0 <= i < plugins.len()
                &&& plugins[i].enabled
            } by {
                if k < before.len() {
                    assert(here[k] == before[k]);
                }
            }
            assert forall|k: int, l: int| 0 <= k < l < here.len() implies #[trigger] here[k]
                < #[trigger] here[l] by {
                if l < before.len() {
                    assert(here[k] == before[k] && here[l] == before[l]);
                } else {
                    assert(here[k] == before[k]);
                }
            }
        } else {
            assert forall|k: int| 0 <= k < here.len() implies {
                let i = #[trigger] here[k];
                &&& 0 <= i < plugins.len()
                &&& plugins[i].enabled
            } by {
                assert(here[k] == before[k]);
            }
        }
    }
}

fn is_selected(selection: PluginSelection, plugin: &RegisteredPlugin) -> (selected: bool)
    ensures
        selected == selects(selection, *plugin),
{
    match selection {
        PluginSelection::AdmissionPolicies => plugin.enabled && plugin.manifest.workspace_create_policy
            && approved(plugin, "workspace_create_policy"),
        PluginSelection::ApiMiddleware => plugin.enabled && plugin.manifest.api_middleware.len() > 0
            && approved(plugin, "api_middleware"),
    }
}

/// The positions, in registry order, of the plugins that a request runs
/// through.
pub fn select_plugins(plugins: &Vec<RegisteredPlugin>, selection: PluginSelection) -> (positions:
    Vec<usize>)
    ensures
        positions@.map_values(|p: usize| p as int) == selected_positions(plugins@, selection),
{
    let mut positions: Vec<usize> = Vec::new();
    let mut i: usize = 0;
    while i < plugins.len()
        invariant
            i <= plugins@.len(),
            positions@.map_values(|p: usize| p as int) == selected_positions(
                plugins@.take(i as int),
                selection,
            ),
        decreases plugins.len() - i,
    {
        proof {
            assert(plugins@.take(i + 1).drop_last() =~= plugins@.take(i as int));
            assert(plugins@.take(i + 1).last() == plugins@[i as int]);
        }
        if is_selected(selection, &plugins[i]) {
            positions.push(i);
            assert(positions@.map_values(|p: usize| p as int) =~= selected_positions(
                plugins@.take(i as int),
                selection,
            ).push(i as int));
        }
        i = i + 1;
    }
    assert(plugins@.take(plugins@.len() as int) =~= plugins@);
    positions
}

/// Whether any enabled plugin has approved API middleware.
pub fn has_api_middleware(plugins: &Vec<RegisteredPlugin>) -> (found: bool)
    ensures
        found == exists|i: int|
            0 <= i < plugins@.len() && selects(PluginSelection::ApiMiddleware, #[trigger] plugins@[i]),
{
    let mut i: usize = 0;
    while i < plugins.len()
        invariant
            i <= plugins@.len(),
            forall|k: int|
                0 <= k < i ==> !selects(PluginSelection::ApiMiddleware, #[trigger] plugins@[k]),
        decreases plugins.len() - i,
    {
        if is_selected(PluginSelection::ApiMiddleware, &plugins[i]) {
            return true;
        }
        i = i + 1;
    }
    false
}

/// The plugin answers the route: it is enabled, has the id, its API routes
/// are approved and it declares the route.
pub open spec fn serves_route(plugin: RegisteredPlugin, plugin_id: Seq<char>, route_id: Seq<char>) -> bool {
    &&& plugin.enabled
    &&& plugin.manifest.id@ == plugin_id
    &&& approves(plugin, "api_routes"@)
    &&& exists|r: int|
        0 <= r < plugin.manifest.api_routes@.len() && #[trigger] plugin.manifest.api_routes@[r].id@
            == route_id
}

fn declares_route(plugin: &RegisteredPlugin, route_id: &str) -> (found: bool)
    ensures
        found == exists|r: int|
            0 <= r < plugin.manifest.api_routes@.len() && #[trigger] plugin.manifest.api_routes@[r].id@
                == route_id@,
{
    let wanted = chars_of(route_id);
    let routes = &plugin.manifest.api_routes;
    let mut r: usize = 0;
    while r < routes.len()
        invariant
            wanted@ == route_id@,
            routes@ == plugin.manifest.api_routes@,
            r <= routes@.len(),
            forall|m: int| 0 <= m < r ==> #[trigger] routes@[m].id@ != route_id@,
        decreases routes.len() - r,
    {
        if crate::text::chars_eq_str(wanted.as_slice(), routes[r].id.as_str()) {
            assert(routes@[r as int].id@ == route_id@);
            return true;
        }
        r = r + 1;
    }
    false
}

/// The position of the first plugin that answers the route; the route is
/// not found when none does.
pub fn find_route_plugin(plugins: &Vec<RegisteredPlugin>, plugin_id: &str, route_id: &str) -> (found:
    Result<usize, PluginError>)
    ensures
        match found {
            Ok(i) => i < plugins@.len() && serves_route(plugins@[i as int], plugin_id@, route_id@)
                && forall|k: int|
                0 <= k < i ==> !serves_route(#[trigger] plugins@[k], plugin_id@, route_id@),
            Err(error) => error == PluginError::NotFound && forall|k: int|
                0 <= k < plugins@.len() ==> !serves_route(#[trigger] plugins@[k], plugin_id@, route_id@),
        },
{
    let wanted = chars_of(plugin_id);
    let mut i: usize = 0;
    while i < plugins.len()
        invariant
            wanted@ == plugin_id@,
            i <= plugins@.len(),
            forall|k: int|
                0 <= k < i ==> !serves_route(#[trigger] plugins@[k], plugin_id@, route_id@),
        decreases plugins.len() - i,
    {
        let plugin = &plugins[i];
        if plugin.enabled && crate::text::chars_eq_str(wanted.as_slice(), plugin.manifest.id.as_str())
            && approved(plugin, "api_routes") && declares_route(plugin, route_id) {
            return Ok(i);
        }
        i = i + 1;
    }
    Err(PluginError::NotFound)
}

/// The position of the plugin with the given id, if the registry has one.
pub fn find_plugin(plugins: &Vec<RegisteredPlugin>, plugin_id: &str) -> (found: Result<
    usize,
    PluginError,
>)
    ensures
        match found {
            Ok(i) => i < plugins@.len() && plugins@[i as int].manifest.id@ == plugin_id@ && forall|
                k: int,
            |
                0 <= k < i ==> #[trigger] plugins@[k].manifest.id@ != plugin_id@,
            Err(error) => error == PluginError::NotFound && forall|k: int|
                0 <= k < plugins@.len() ==> #[trigger] plugins@[k].manifest.id@ != plugin_id@,
        },
{
    let wanted = chars_of(plugin_id);
    let mut i: usize = 0;
    while i < plugins.len()
        invariant
            wanted@ == plugin_id@,
            i <= plugins@.len(),
            forall|k: int| 0 <= k < i ==> #[trigger] plugins@[k].manifest.id@ != plugin_id@,
        decreases plugins.len() - i,
    {
        if crate::text::chars_eq_str(wanted.as_slice(), plugins[i].manifest.id.as_str()) {
            return Ok(i);
        }
        i = i + 1;
    }
    Err(PluginError::NotFound)
}

/// The first plugin of the registry with the given id is at `i`.
pub open spec fn first_with_id(plugins: Seq<RegisteredPlugin>, plugin_id: Seq<char>, i: int) -> bool {
    &&& 0 <= i < plugins.len()
    &&& plugins[i].manifest.id@ == plugin_id
    &&& forall|k: int| 0 <= k < i ==> #[trigger] plugins[k].manifest.id@ != plugin_id
}

/// The digest of the configuration schema of the plugin with the given id:
/// not found without such a plugin, invalid when it takes no configuration.
pub fn configuration_schema_digest(plugins: &Vec<RegisteredPlugin>, plugin_id: &str) -> (digest:
    Result<String, PluginError>)
    ensures
        match digest {
            Ok(d) => exists|i: int|
                #[trigger] first_with_id(plugins@, plugin_id@, i)
                    && plugins@[i].configuration_schema_digest == Some(d),
            Err(PluginError::NotFound) => forall|k: int|
                0 <= k < plugins@.len() ==> #[trigger] plugins@[k].manifest.id@ != plugin_id@,
            Err(PluginError::InvalidConfiguration) => exists|i: int|
                #[trigger] first_with_id(plugins@, plugin_id@, i)
                    && plugins@[i].configuration_schema_digest is None,
            Err(_) => false,
        },
{
    let i = find_plugin(plugins, plugin_id)?;
    assert(first_with_id(plugins@, plugin_id@, i as int));
    match &plugins[i].configuration_schema_digest {
        Some(d) => Ok(d.clone()),
        None => Err(PluginError::InvalidConfiguration),
    }
}

/// A plugin's answer on a request.
#[derive(Debug, Clone, PartialEq, Eq)]
pub struct PluginDecision {
    pub allow: bool,
    pub code: Option<String>,
}

/// The code is one the manifest declares.
pub open spec fn declares_denial_code(manifest: PluginManifest, code: Seq<char>) -> bool {
    exists|k: int| 0 <= k < manifest.denial_codes@.len() && #[trigger] manifest.denial_codes@[k]@ == code
}

fn has_denial_code(manifest: &PluginManifest, code: &str) -> (found: bool)
    ensures
        found == declares_denial_code(*manifest, code@),
{
    let wanted = chars_of(code);
    let mut k: usize = 0;
    while k < manifest.denial_codes.len()
        invariant
            wanted@ == code@,
            k <= manifest.denial_codes@.len(),
            forall|m: int| 0 <= m < k ==> #[trigger] manifest.denial_codes@[m]@ != code@,
        decreases manifest.denial_codes.len() - k,
    {
        if crate::text::chars_eq_str(wanted.as_slice(), manifest.denial_codes[k].as_str()) {
            assert(manifest.denial_codes@[k as int]@ == code@);
            return true;
        }
        k = k + 1;
    }
    false
}

/// Reads an admission policy's answer: allowed, or denied with one of the
/// codes the plugin declared; a denial without a declared code counts as a
/// failed execution.
pub fn admission_outcome(manifest: &PluginManifest, decision: PluginDecision) -> (result: Result<
    (),
    PluginError,
>)
    ensures
        decision.allow ==> result is Ok,
        !decision.allow ==> match decision.code {
            Some(code) => if declares_denial_code(*manifest, code@) {
                result matches Err(PluginError::AdmissionDenied { plugin_id, decision_code })
                    && plugin_id@ == manifest.id@ && decision_code@ == code@
            } else {
                result == Err::<(), PluginError>(PluginError::ExecutionFailed)
            },
            None => result == Err::<(), PluginError>(PluginError::ExecutionFailed),
        },
{
    if decision.allow {
        return Ok(());
    }
    let code = match decision.code {
        Some(code) => code,
        None => return Err(PluginError::ExecutionFailed),
    };
    if !has_denial_code(manifest, code.as_str()) {
        return Err(PluginError::ExecutionFailed);
    }
    Err(PluginError::AdmissionDenied { plugin_id: manifest.id.clone(), decision_code: code })
}

/// Reads an API middleware's answer: allowed, or denied with a declared
/// code; a denial without a declared code counts as a failed execution.
pub fn middleware_outcome(manifest: &PluginManifest, decision: PluginDecision) -> (result: Result<
    (),
    PluginError,
>)
    ensures
        decision.allow ==> result is Ok,
        !decision.allow ==> match decision.code {
            Some(code) => if declares_denial_code(*manifest, code@) {
                result == Err::<(), PluginError>(PluginError::MiddlewareDenied)
            } else {
                result == Err::<(), PluginError>(PluginError::ExecutionFailed)
            },
            None => result == Err::<(), PluginError>(PluginError::ExecutionFailed),
        },
{
    if decision.allow {
        return Ok(());
    }
    let code = match decision.code {
        Some(code) => code,
        None => return Err(PluginError::ExecutionFailed),
    };
    if !has_denial_code(manifest, code.as_str()) {
        return Err(PluginError::ExecutionFailed);
    }
    Err(PluginError::MiddlewareDenied)
}

/// The content types an API route may answer with.
pub open spec fn api_content_type_ok(content_type: Seq<char>) -> bool {
    content_type == "application/json"@ || content_type == "text/plain"@ || content_type
        == "text/plain; charset=utf-8"@
}

/// An API answer is passed on only with a status from 200 to 599, a body of
/// at most 1 MiB and a known content type; anything else counts as a failed
/// execution.
pub fn api_response_outcome(response: PluginApiResponse) -> (result: Result<
    PluginApiResponse,
    PluginError,
>)
    ensures
        (200 <= response.status <= 599 && response.body@.len() <= MAX_API_RESPONSE_BODY
            && api_content_type_ok(response.content_type@)) ==> result == Ok::<
            PluginApiResponse,
            PluginError,
        >(response),
        !(200 <= response.status <= 599 && response.body@.len() <= MAX_API_RESPONSE_BODY
            && api_content_type_ok(response.content_type@)) ==> result == Err::<
            PluginApiResponse,
            PluginError,
        >(PluginError::ExecutionFailed),
{
    let content_type = chars_of(response.content_type.as_str());
    let known = crate::text::chars_eq_str(content_type.as_slice(), "application/json")
        || crate::text::chars_eq_str(content_type.as_slice(), "text/plain")
        || crate::text::chars_eq_str(content_type.as_slice(), "text/plain; charset=utf-8");
    if response.status < 200 || response.status > 599 || response.body.len()
        > MAX_API_RESPONSE_BODY || !known {
        return Err(PluginError::ExecutionFailed);
    }
    Ok(response)
}

/// A request body larger than 256 KiB is refused before any plugin runs.
pub fn check_api_request_body(body_len: usize) -> (result: Result<(), PluginError>)
    ensures
        body_len <= MAX_API_REQUEST_BODY ==> result is Ok,
        body_len > MAX_API_REQUEST_BODY ==> result == Err::<(), PluginError>(
            PluginError::InvalidApiRequest,
        ),
{
    if body_len > MAX_API_REQUEST_BODY {
        return Err(PluginError::InvalidApiRequest);
    }
    Ok(())
}

/// How many plugins satisfy `keep`.
pub open spec fn count_plugins(plugins: Seq<RegisteredPlugin>, keep: spec_fn(RegisteredPlugin) -> bool) -> nat
    decreases plugins.len(),
{
    if plugins.len() == 0 {
        0
    } else {
        count_plugins(plugins.drop_last(), keep) + if keep(plugins.last()) {
            1nat
        } else {
            0nat
        }
    }
}

/// The metadata a plugin keeps in the registry, in bytes: its manifest's
/// JSON and the text of its source fields.
pub open spec fn plugin_metadata_bytes(plugin: RegisteredPlugin) -> int {
    plugin.manifest_json_bytes + utf8_len(plugin.source_kind@) + utf8_len(plugin.source_ref@)
        + utf8_len(plugin.package_digest@) + utf8_len(plugin.source_confirmation@)
}

/// The metadata of all plugins, added up.
pub open spec fn registry_metadata_bytes(plugins: Seq<RegisteredPlugin>) -> int
    decreases plugins.len(),
{
    if plugins.len() == 0 {
        0
    } else {
        registry_metadata_bytes(plugins.drop_last()) + plugin_metadata_bytes(plugins.last())
    }
}

fn saturating_text_bytes(total: usize, s: &String) -> (sum: usize)
    ensures
        sum == if total + utf8_len(s@) <= usize::MAX {
            total + utf8_len(s@)
        } else {
            usize::MAX as int
        },
{
    let chars = chars_of(s.as_str());
    let mut sum = total;
    let mut i: usize = 0;
    proof {
        crate::text::lemma_utf8_len_push(Seq::<char>::empty(), 'a');
    }
    while i < chars.len()
        invariant
            chars@ == s@,
            i <= chars@.len(),
            sum == if total + utf8_len(chars@.take(i as int)) <= usize::MAX {
                total + utf8_len(chars@.take(i as int))
            } else {
                usize::MAX as int
            },
        decreases chars.len() - i,
    {
        proof {
            assert(chars@.take(i + 1) =~= chars@.take(i as int).push(chars@[i as int]));
            crate::text::lemma_utf8_len_push(chars@.take(i as int), chars@[i as int]);
        }
        sum = sum.saturating_add(crate::text::char_utf8_width(chars[i]));
        i = i + 1;
    }
    assert(chars@.take(chars@.len() as int) =~= chars@);
    sum
}

/// What the registry reports about itself, given how many execution slots
/// are free; the metadata estimate stops at `usize::MAX`.
pub fn runtime_metrics(plugins: &Vec<RegisteredPlugin>, available_permits: usize) -> (metrics:
    PluginRuntimeMetrics)
    ensures
        metrics.loaded == plugins@.len(),
        metrics.enabled == count_plugins(plugins@, |p: RegisteredPlugin| p.enabled),
        metrics.executable == count_plugins(plugins@, |p: RegisteredPlugin| p.executable),
        metrics.executions_active == if available_permits <= MAX_CONCURRENT_EXECUTIONS {
            MAX_CONCURRENT_EXECUTIONS - available_permits
        } else {
            0
        },
        metrics.execution_limit == MAX_CONCURRENT_EXECUTIONS,
        metrics.registry_metadata_bytes_estimate == if registry_metadata_bytes(plugins@)
            <= usize::MAX {
            registry_metadata_bytes(plugins@)
        } else {
            usize::MAX as int
        },
{
    let mut enabled: usize = 0;
    let mut executable: usize = 0;
    let mut bytes: usize = 0;
    let mut i: usize = 0;
    while i < plugins.len()
        invariant
            i <= plugins@.len(),
            enabled == count_plugins(plugins@.take(i as int), |p: RegisteredPlugin| p.enabled),
            executable == count_plugins(
                plugins@.take(i as int),
                |p: RegisteredPlugin| p.executable,
            ),
            enabled <= i,
            executable <= i,
            bytes == if registry_metadata_bytes(plugins@.take(i as int)) <= usize::MAX {
                registry_metadata_bytes(plugins@.take(i as int))
            } else {
                usize::MAX as int
            },
            registry_metadata_bytes(plugins@.take(i as int)) >= 0,
        decreases plugins.len() - i,
    {
        let plugin = &plugins[i];
        proof {
            assert(plugins@.take(i + 1).drop_last() =~= plugins@.take(i as int));
            assert(plugins@.take(i + 1).last() == plugins@[i as int]);
        }
        if plugin.enabled {
            enabled = enabled + 1;
        }
        if plugin.executable {
            executable = executable + 1;
        }
        let mut b = bytes.saturating_add(plugin.manifest_json_bytes);
        b = saturating_text_bytes(b, &plugin.source_kind);
        b = saturating_text_bytes(b, &plugin.source_ref);
        b = saturating_text_bytes(b, &plugin.package_digest);
        b = saturating_text_bytes(b, &plugin.source_confirmation);
        bytes = b;
        i = i + 1;
    }
    assert(plugins@.take(plugins@.len() as int) =~= plugins@);
    PluginRuntimeMetrics {
        loaded: plugins.len(),
        enabled,
        executable,
        executions_active: MAX_CONCURRENT_EXECUTIONS.saturating_sub(available_permits),
        execution_limit: MAX_CONCURRENT_EXECUTIONS,
        registry_metadata_bytes_estimate: bytes,
    }
}

/// The registry is refreshed only when the stored catalog revision differs
/// from the one it was built from.
pub fn catalog_is_current(registry_revision: u64, stored_revision: u64) -> (current: bool)
    ensures
        current == (registry_revision == stored_revision),
{
    registry_revision == stored_revision
}

/// No stored package takes the id of a mounted plugin or of an earlier
/// stored package.
pub open spec fn ids_unique(mounted: Seq<String>, packages: Seq<String>) -> bool {
    &&& forall|p: int, m: int|
        0 <= p < packages.len() && 0 <= m < mounted.len() ==> #[trigger] packages[p]@
            != #[trigger] mounted[m]@
    &&& forall|p: int, q: int|
        0 <= q < p < packages.len() ==> #[trigger] packages[p]@ != #[trigger] packages[q]@
}

/// Plugin ids stay unique across mounted plugins and stored packages: a
/// stored package whose id is already taken is refused, and only then.
pub fn ensure_unique_plugin_ids(mounted: &Vec<String>, packages: &Vec<String>) -> (result: Result<
    (),
    PluginError,
>)
    ensures
        result is Ok <==> ids_unique(mounted@, packages@),
        result matches Err(error) ==> is_invalid_package(
            error,
            "plugin id conflicts with mounted package"@,
        ),
{
    let mut p: usize = 0;
    while p < packages.len()
        invariant
            p <= packages@.len(),
            forall|a: int, m: int|
                0 <= a < p && 0 <= m < mounted@.len() ==> #[trigger] packages@[a]@
                    != #[trigger] mounted@[m]@,
            forall|a: int, q: int|
                0 <= q < a < p ==> #[trigger] packages@[a]@ != #[trigger] packages@[q]@,
        decreases packages.len() - p,
    {
        let id = chars_of(packages[p].as_str());
        let mut m: usize = 0;
        while m < mounted.len()
            invariant
                id@ == packages@[p as int]@,
                p < packages@.len(),
                m <= mounted@.len(),
                forall|k: int| 0 <= k < m ==> #[trigger] mounted@[k]@ != packages@[p as int]@,
            decreases mounted.len() - m,
        {
            if crate::text::chars_eq_str(id.as_slice(), mounted[m].as_str()) {
                return Err(PluginError::invalid("plugin id conflicts with mounted package"));
            }
            m = m + 1;
        }
        let mut q: usize = 0;
        while q < p
            invariant
                id@ == packages@[p as int]@,
                p < packages@.len(),
                q <= p,
                forall|k: int| 0 <= k < q ==> #[trigger] packages@[k]@ != packages@[p as int]@,
            decreases p - q,
        {
            if crate::text::chars_eq_str(id.as_slice(), packages[q].as_str()) {
                return Err(PluginError::invalid("plugin id conflicts with mounted package"));
            }
            q = q + 1;
        }
        p = p + 1;
    }
    Ok(())
}

/// A stored configuration: its value as JSON text and the digest of the
/// schema it was validated against.
#[derive(Debug, Clone, PartialEq, Eq)]
pub struct StoredConfiguration {
    pub value_json: String,
    pub schema_digest: String,
}

/// Where the configuration a plugin runs with comes from.
#[derive(Debug, Clone, PartialEq, Eq)]
pub enum ConfigurationSource {
    /// A stored configuration's value.
    Stored(String),
    /// The manifest's default value.
    ManifestDefault(String),
    /// No configuration at all: the empty JSON object.
    Empty,
}

/// The configuration a plugin runs with: the organization's stored value,
/// else the installation's, else the manifest default, else nothing. A
/// stored value is refused when the plugin's current schema differs from
/// the one the value was checked against.
pub open spec fn configuration_choice(
    schema_digest: Option<String>,
    organization: Option<StoredConfiguration>,
    installation: Option<StoredConfiguration>,
    manifest_default: Option<String>,
) -> Result<ConfigurationSource, PluginError> {
    let stored = match organization {
        Some(c) => Some(c),
        None => installation,
    };
    match stored {
        Some(c) => match schema_digest {
            Some(d) => if d@ == c.schema_digest@ {
                Ok(ConfigurationSource::Stored(c.value_json))
            } else {
                Err(PluginError::InvalidConfiguration)
            },
            None => Err(PluginError::InvalidConfiguration),
        },
        None => match manifest_default {
            Some(v) => Ok(ConfigurationSource::ManifestDefault(v)),
            None => Ok(ConfigurationSource::Empty),
        },
    }
}

/// Chooses the configuration for a plugin run. `installation` is the
/// installation-wide value, read only when the request names an
/// organization without a value of its own, or names none.
pub fn choose_configuration(
    schema_digest: &Option<String>,
    organization: Option<StoredConfiguration>,
    installation: Option<StoredConfiguration>,
    manifest_default: Option<String>,
) -> (choice: Result<ConfigurationSource, PluginError>)
    ensures
        choice == configuration_choice(*schema_digest, organization, installation, manifest_default),
{
    let stored = match organization {
        Some(c) => Some(c),
        None => installation,
    };
    match stored {
        Some(c) => match schema_digest {
            Some(d) => {
                let digest = chars_of(d.as_str());
                if crate::text::chars_eq_str(digest.as_slice(), c.schema_digest.as_str()) {
                    Ok(ConfigurationSource::Stored(c.value_json))
                } else {
                    Err(PluginError::InvalidConfiguration)
                }
            },
            None => Err(PluginError::InvalidConfiguration),
        },
        None => match manifest_default {
            Some(v) => Ok(ConfigurationSource::ManifestDefault(v)),
            None => Ok(ConfigurationSource::Empty),
        },
    }
}

/// A configuration stored for an organization always wins over the
/// installation-wide one.
pub proof fn lemma_organization_configuration_wins(
    schema_digest: Option<String>,
    organization: StoredConfiguration,
    installation: Option<StoredConfiguration>,
    other: Option<StoredConfiguration>,
    manifest_default: Option<String>,
)
    ensures
        configuration_choice(schema_digest, Some(organization), installation, manifest_default)
            == configuration_choice(schema_digest, Some(organization), other, manifest_default),
{
}

/// A plugin mounted from the plugin directory: enabled, unversioned, named
/// after its id, and approved for everything its manifest declares.
pub fn mounted_plugin(
    manifest: PluginManifest,
    executable: bool,
    configuration_schema_digest: Option<String>,
    manifest_json_bytes: usize,
) -> (plugin: RegisteredPlugin)
    ensures
        plugin.manifest == manifest,
        plugin.executable == executable,
        plugin.configuration_schema_digest == configuration_schema_digest,
        plugin.source_kind@ == "mounted"@,
        plugin.source_ref@ == manifest.id@,
        plugin.package_digest@.len() == 0,
        plugin.source_confirmation@ == "gitops_mounted"@,
        plugin.approved_contributions@.map_values(|c: String| c@) == declared(manifest),
        plugin.package_version == 0,
        plugin.enabled,
        plugin.manifest_json_bytes == manifest_json_bytes,
{
    let approved = declared_contributions(&manifest);
    let source_ref = manifest.id.clone();
    let empty = String::new();
    RegisteredPlugin {
        manifest,
        executable,
        configuration_schema_digest,
        source_kind: "mounted".to_owned(),
        source_ref,
        package_digest: empty,
        source_confirmation: "gitops_mounted".to_owned(),
        approved_contributions: approved,
        package_version: 0,
        enabled: true,
        manifest_json_bytes,
    }
}

/// A package the store holds, with its content already checked: what the
/// registry keeps of it.
#[derive(Debug, Clone, PartialEq, Eq)]
pub struct StoredPackageEntry {
    pub manifest: PluginManifest,
    pub has_component: bool,
    pub configuration_schema_digest: Option<String>,
    pub source_kind: String,
    pub source_ref: String,
    pub package_digest: String,
    pub source_confirmation: String,
    pub approved_contributions: Vec<String>,
    pub version: u64,
    pub enabled: bool,
    pub manifest_json_bytes: usize,
}

/// The registry entry of a stored package: its component is loaded only
/// when the package is enabled.
pub open spec fn registered_from(entry: StoredPackageEntry) -> RegisteredPlugin {
    RegisteredPlugin {
        manifest: entry.manifest,
        executable: entry.enabled && entry.has_component,
        configuration_schema_digest: entry.configuration_schema_digest,
        source_kind: entry.source_kind,
        source_ref: entry.source_ref,
        package_digest: entry.package_digest,
        source_confirmation: entry.source_confirmation,
        approved_contributions: entry.approved_contributions,
        package_version: entry.version,
        enabled: entry.enabled,
        manifest_json_bytes: entry.manifest_json_bytes,
    }
}

/// Package `k` takes an id already taken by a mounted plugin or an earlier
/// package.
pub open spec fn package_conflicts(
    mounted: Seq<RegisteredPlugin>,
    packages: Seq<StoredPackageEntry>,
    k: int,
) -> bool {
    ||| exists|m: int|
        0 <= m < mounted.len() && #[trigger] mounted[m].manifest.id@ == packages[k].manifest.id@
    ||| exists|q: int|
        0 <= q < k && #[trigger] packages[q].manifest.id@ == packages[k].manifest.id@
}

/// Package `k` cannot be registered: its id is taken, or it is enabled and
/// its component did not compile.
pub open spec fn package_fails(
    mounted: Seq<RegisteredPlugin>,
    packages: Seq<StoredPackageEntry>,
    compiled: Seq<bool>,
    k: int,
) -> bool {
    package_conflicts(mounted, packages, k) || (packages[k].enabled && packages[k].has_component
        && !compiled[k])
}

/// Rebuilds the registry from the mounted plugins and the stored packages,
/// in order; `compiled` says, per package, whether its component compiled
/// (it is only compiled, and only looked at, for an enabled package with a
/// component). The first package that cannot be registered refuses the
/// whole rebuild.
pub fn rebuilt_registry(
    mounted: Vec<RegisteredPlugin>,
    packages: Vec<StoredPackageEntry>,
    compiled: Vec<bool>,
) -> (result: Result<Vec<RegisteredPlugin>, PluginError>)
    requires
        compiled@.len() == packages@.len(),
    ensures
        result is Ok <==> forall|k: int|
            0 <= k < packages@.len() ==> !#[trigger] package_fails(mounted@, packages@, compiled@, k),
        result matches Ok(out) ==> out@.len() == mounted@.len() + packages@.len() && (forall|i: int|
            0 <= i < mounted@.len() ==> #[trigger] out@[i] == mounted@[i]) && (forall|k: int|
            0 <= k < packages@.len() ==> #[trigger] out@[mounted@.len() + k] == registered_from(
                packages@[k],
            )),
        result matches Err(e) ==> exists|k: int|
            0 <= k < packages@.len() && #[trigger] package_fails(mounted@, packages@, compiled@, k)
                && (forall|j: int|
                0 <= j < k ==> !#[trigger] package_fails(mounted@, packages@, compiled@, j)) && (
            package_conflicts(mounted@, packages@, k) ==> is_invalid_package(
                e,
                "plugin id conflicts with mounted package"@,
            )) && (!package_conflicts(mounted@, packages@, k) ==> is_invalid_package(
                e,
                "component could not be compiled"@,
            )),
{
    let ghost m = mounted@;
    let ghost given = packages@;
    let mut out = mounted;
    let mut rest = packages;
    let mut k: usize = 0;
    let n = rest.len();
    while k < n
        invariant
            m == mounted@,
            given == packages@,
            n == given.len(),
            compiled@.len() == n,
            k <= n,
            rest@ == given.skip(k as int),
            out@.len() == m.len() + k,
            forall|i: int| 0 <= i < m.len() ==> #[trigger] out@[i] == m[i],
            forall|j: int| 0 <= j < k ==> #[trigger] out@[m.len() + j] == registered_from(given[j]),
            forall|j: int| 0 <= j < k ==> !#[trigger] package_fails(m, given, compiled@, j),
        decreases n - k,
    {
        let entry = rest.remove(0);
        proof {
            assert(entry == given[k as int]);
            assert(given.skip(k as int).remove(0) =~= given.skip(k + 1));
        }
        let id = chars_of(entry.manifest.id.as_str());
        let mut i: usize = 0;
        while i < out.len()
            invariant
                id@ == entry.manifest.id@,
                m == mounted@,
                given == packages@,
                n == given.len(),
                compiled@.len() == n,
                k < n,
                entry == given[k as int],
                out@.len() == m.len() + k,
                forall|x: int| 0 <= x < m.len() ==> #[trigger] out@[x] == m[x],
                forall|j: int| 0 <= j < k ==> #[trigger] out@[m.len() + j] == registered_from(given[j]),
                forall|j: int| 0 <= j < k ==> !#[trigger] package_fails(m, given, compiled@, j),
                i <= out@.len(),
                forall|j: int| 0 <= j < i ==> #[trigger] out@[j].manifest.id@ != entry.manifest.id@,
            decreases out.len() - i,
        {
            if crate::text::chars_eq_str(id.as_slice(), out[i].manifest.id.as_str()) {
                proof {
                    if i < m.len() {
                        assert(m[i as int].manifest.id@ == given[k as int].manifest.id@);
                    } else {
                        let q = i - m.len();
                        assert(out@[m.len() + q] == registered_from(given[q]));
                        assert(given[q].manifest.id@ == given[k as int].manifest.id@);
                    }
                    assert(package_fails(m, given, compiled@, k as int));
                }
                return Err(PluginError::invalid("plugin id conflicts with mounted package"));
            }
            i = i + 1;
        }
        proof {
            assert(!package_conflicts(m, given, k as int)) by {
                assert forall|x: int| 0 <= x < m.len() implies #[trigger] m[x].manifest.id@
                    != given[k as int].manifest.id@ by {
                    assert(out@[x] == m[x]);
                }
                assert forall|q: int| 0 <= q < k implies #[trigger] given[q].manifest.id@
                    != given[k as int].manifest.id@ by {
                    assert(out@[m.len() + q] == registered_from(given[q]));
                    assert(out@[m.len() + q].manifest.id@ != entry.manifest.id@);
                }
            }
        }
        if entry.enabled && entry.has_component && !compiled[k] {
            assert(package_fails(m, given, compiled@, k as int));
            return Err(PluginError::invalid("component could not be compiled"));
        }
        let registered = RegisteredPlugin {
            manifest: entry.manifest,
            executable: entry.enabled && entry.has_component,
            configuration_schema_digest: entry.configuration_schema_digest,
            source_kind: entry.source_kind,
            source_ref: entry.source_ref,
            package_digest: entry.package_digest,
            source_confirmation: entry.source_confirmation,
            approved_contributions: entry.approved_contributions,
            package_version: entry.version,
            enabled: entry.enabled,
            manifest_json_bytes: entry.manifest_json_bytes,
        };
        out.push(registered);
        k = k + 1;
    }
    Ok(out)
}

/// Whether a plugin was loaded from the mounted plugin directory rather
/// than from the store.
pub open spec fn is_mounted(plugin: RegisteredPlugin) -> bool {
    plugin.source_kind@ == "mounted"@
}

/// The positions of the mounted plugins, in registry order.
pub open spec fn mounted_positions_of(plugins: Seq<RegisteredPlugin>) -> Seq<int>
    decreases plugins.len(),
{
    if plugins.len() == 0 {
        Seq::empty()
    } else {
        let earlier = mounted_positions_of(plugins.drop_last());
        if is_mounted(plugins.last()) {
            earlier.push(plugins.len() - 1)
        } else {
            earlier
        }
    }
}

/// The positions, in registry order, of the mounted plugins: a refresh
/// keeps these and rebuilds everything else from the store.
pub fn mounted_positions(plugins: &Vec<RegisteredPlugin>) -> (positions: Vec<usize>)
    ensures
        positions@.map_values(|p: usize| p as int) == mounted_positions_of(plugins@),
{
    let mut positions: Vec<usize> = Vec::new();
    let mut i: usize = 0;
    while i < plugins.len()
        invariant
            i <= plugins@.len(),
            positions@.map_values(|p: usize| p as int) == mounted_positions_of(
                plugins@.take(i as int),
            ),
        decreases plugins.len() - i,
    {
        proof {
            assert(plugins@.take(i + 1).drop_last() =~= plugins@.take(i as int));
            assert(plugins@.take(i + 1).last() == plugins@[i as int]);
        }
        let kind = chars_of(plugins[i].source_kind.as_str());
        if crate::text::chars_eq_str(kind.as_slice(), "mounted") {
            positions.push(i);
            assert(positions@.map_values(|p: usize| p as int) =~= mounted_positions_of(
                plugins@.take(i as int),
            ).push(i as int));
        }
        i = i + 1;
    }
    assert(plugins@.take(plugins@.len() as int) =~= plugins@);
    positions
}

/// The plugin registry and the catalog revision it was built from.
#[derive(Debug, Clone, PartialEq, Eq)]
pub struct RegistryState {
    pub catalog_revision: u64,
    pub plugins: Vec<RegisteredPlugin>,
}

/// The registry after a refresh at `stored_revision`: the rebuilt plugins
/// when the rebuild succeeded, else the registry as it was (the last good
/// one keeps serving) together with the refusal.
pub fn refreshed_registry(
    current: RegistryState,
    stored_revision: u64,
    rebuilt: Result<Vec<RegisteredPlugin>, PluginError>,
) -> (next: (RegistryState, Result<(), PluginError>))
    ensures
        match rebuilt {
            Ok(plugins) => next.0 == RegistryState { catalog_revision: stored_revision, plugins }
                && next.1 is Ok,
            Err(e) => next.0 == current && next.1 == Err::<(), PluginError>(e),
        },
{
    match rebuilt {
        Ok(plugins) => (RegistryState { catalog_revision: stored_revision, plugins }, Ok(())),
        Err(e) => (current, Err(e)),
    }
}

} // verus!
