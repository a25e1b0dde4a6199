//! The manifest of a plugin package and the rules it must satisfy.
use vstd::prelude::*;

pub mod extensions;

use self::extensions::{
    PluginApiMiddleware, PluginApiRoute, PluginAssetDescriptor, PluginUiSurface,
};
use crate::plugins::error::{is_invalid_package, PluginError};
use crate::text::{chars_of, has_control, is_ascii_digit, is_ascii_lower, trim, utf8_len};

verus! {

/// The interface versions that this host implements.
pub const SUPPORTED_INTERFACE: &'static str = ">=0.1.0, <0.2.0";

pub const MAX_PLUGIN_ID_LEN: usize = 64;

pub const MAX_PLUGIN_NAME_BYTES: usize = 120;

pub const MAX_PLUGIN_DESCRIPTION_BYTES: usize = 2000;

pub const MAX_DENIAL_CODE_LEN: usize = 64;

/// The configuration a plugin accepts: a JSON Schema and the value used
/// when nothing is configured, each as JSON text.
#[derive(Debug, Clone, PartialEq, Eq)]
pub struct PluginConfigurationContribution {
    pub schema_json: String,
    pub default_json: String,
}

/// What `plugin.json` declares.
#[derive(Debug, Clone, PartialEq, Eq)]
pub struct PluginManifest {
    pub id: String,
    pub name: String,
    pub version: String,
    pub description: String,
    pub wit_version: String,
    pub wasm: Option<String>,
    pub workspace_create_policy: bool,
    pub denial_codes: Vec<String>,
    pub configuration: Option<PluginConfigurationContribution>,
    pub assets: Vec<PluginAssetDescriptor>,
    pub ui_surfaces: Vec<PluginUiSurface>,
    pub api_routes: Vec<PluginApiRoute>,
    pub api_middleware: Vec<PluginApiMiddleware>,
}

#[verifier::external_type_specification]
#[verifier::external_body]
pub struct ExSemverVersion(semver::Version);

#[verifier::external_type_specification]
#[verifier::external_body]
pub struct ExSemverVersionReq(semver::VersionReq);

/// Whether `semver::Version::parse` accepts the text as a SemVer version.
pub uninterp spec fn semver_version_parses(text: Seq<char>) -> bool;

/// Whether `semver::VersionReq::parse` accepts the text as a requirement.
pub uninterp spec fn semver_requirement_parses(text: Seq<char>) -> bool;

/// Calls `semver::Version::parse`; the version is given back exactly when
/// the parse succeeds.
#[verifier::external_body]
fn parse_version(text: &str) -> (parsed: Option<semver::Version>)
    ensures
        parsed is Some <==> semver_version_parses(text@),
{
    semver::Version::parse(text).ok()
}

/// Calls `semver::VersionReq::parse`; the requirement is given back exactly
/// when the parse succeeds.
#[verifier::external_body]
fn parse_requirement(text: &str) -> (parsed: Option<semver::VersionReq>)
    ensures
        parsed is Some <==> semver_requirement_parses(text@),
{
    semver::VersionReq::parse(text).ok()
}

/// Whether the requirement `semver::VersionReq::parse` reads from the
/// first text matches the version `semver::Version::parse` reads from the
/// second.
pub uninterp spec fn semver_range_matches(requirement: Seq<char>, version: Seq<char>) -> bool;

/// Parses both texts with `semver::VersionReq::parse` and
/// `semver::Version::parse` and calls `semver::VersionReq::matches` on the
/// results; when either text does not parse, the answer is `false`.
#[verifier::external_body]
fn requirement_matches(requirement: &str, version: &str) -> (matches: bool)
    ensures
        matches == (semver_requirement_parses(requirement@) && semver_version_parses(version@)
            && semver_range_matches(requirement@, version@)),
{
    match (semver::VersionReq::parse(requirement), semver::Version::parse(version)) {
        (Ok(requirement), Ok(version)) => requirement.matches(&version),
        _ => false,
    }
}

pub open spec fn is_plugin_id_char(c: char) -> bool {
    is_ascii_lower(c) || is_ascii_digit(c) || c == '-'
}

pub open spec fn is_denial_code_char(c: char) -> bool {
    is_ascii_lower(c) || is_ascii_digit(c) || c == '_' || c == '-'
}

/// A plugin id: 1 to 64 lower-case letters, digits and `-`.
pub open spec fn plugin_id_ok(id: Seq<char>) -> bool {
    &&& 0 < id.len() <= MAX_PLUGIN_ID_LEN
    &&& forall|i: int| 0 <= i < id.len() ==> is_plugin_id_char(#[trigger] id[i])
}

/// A name that is not blank and a description, within their byte limits and
/// without control characters.
pub open spec fn metadata_ok(name: Seq<char>, description: Seq<char>) -> bool {
    &&& trim(name).len() > 0
    &&& utf8_len(name) <= MAX_PLUGIN_NAME_BYTES
    &&& utf8_len(description) <= MAX_PLUGIN_DESCRIPTION_BYTES
    &&& !has_control(name)
    &&& !has_control(description)
}

/// A denial code: 1 to 64 lower-case letters, digits, `_` and `-`.
pub open spec fn denial_code_ok(code: Seq<char>) -> bool {
    &&& 0 < code.len() <= MAX_DENIAL_CODE_LEN
    &&& forall|i: int| 0 <= i < code.len() ==> is_denial_code_char(#[trigger] code[i])
}

/// Every denial code is valid and none repeats an earlier one.
pub open spec fn denial_codes_ok(codes: Seq<String>) -> bool {
    forall|i: int|
        0 <= i < codes.len() ==> denial_code_ok(#[trigger] codes[i]@) && forall|j: int|
            0 <= j < i ==> #[trigger] codes[j]@ != codes[i]@
}

/// How the manifest's interface version fared against the supported range.
#[derive(Debug, Clone, Copy, PartialEq, Eq)]
pub enum InterfaceCheck {
    /// The interface version is not a SemVer version.
    Invalid,
    /// The supported range itself could not be read.
    RangeUnreadable,
    /// The version lies outside the supported range.
    Unsupported,
    /// The version lies within the supported range.
    Supported,
}

/// The refusal for the first rule a manifest breaks, given whether its
/// version parses and how its interface version fared; `None` when it
/// satisfies them all. A refusal is an invalid-package message, or `None`
/// inside `Some` when the supported range could not be read.
pub open spec fn manifest_refusal(
    manifest: PluginManifest,
    version_parses: bool,
    interface: InterfaceCheck,
) -> Option<Option<Seq<char>>> {
    if !plugin_id_ok(manifest.id@) {
        Some(Some("plugin id is invalid"@))
    } else if !metadata_ok(manifest.name@, manifest.description@) {
        Some(Some("plugin metadata is invalid"@))
    } else if !version_parses {
        Some(Some("plugin version is invalid"@))
    } else if interface == InterfaceCheck::Invalid {
        Some(Some("plugin interface version is invalid"@))
    } else if interface == InterfaceCheck::RangeUnreadable {
        Some(None)
    } else if interface == InterfaceCheck::Unsupported {
        Some(Some("plugin interface version is not supported"@))
    } else if manifest.workspace_create_policy && manifest.wasm is None {
        Some(Some("workspace create policy requires a component"@))
    } else if manifest.wasm is Some && !manifest.workspace_create_policy {
        Some(Some("components must declare workspace_create_policy"@))
    } else if !denial_codes_ok(manifest.denial_codes@) {
        Some(Some("plugin denial code is invalid"@))
    } else {
        None
    }
}

/// `result` is the outcome that `refusal` describes.
pub open spec fn outcome_is(result: Result<(), PluginError>, refusal: Option<Option<Seq<char>>>) -> bool {
    match refusal {
        None => result is Ok,
        Some(None) => result == Err::<(), PluginError>(PluginError::Package),
        Some(Some(message)) => result matches Err(error) && is_invalid_package(error, message),
    }
}

fn valid_plugin_id(id: &str) -> (ok: bool)
    ensures
        ok == plugin_id_ok(id@),
{
    let chars = chars_of(id);
    if chars.len() == 0 || chars.len() > MAX_PLUGIN_ID_LEN {
        return false;
    }
    let mut i: usize = 0;
    while i < chars.len()
        invariant
            chars@ == id@,
            i <= chars@.len(),
            forall|k: int| 0 <= k < i ==> is_plugin_id_char(#[trigger] chars@[k]),
        decreases chars.len() - i,
    {
        let c = chars[i];
        if !(crate::text::char_is_ascii_lower(c) || crate::text::char_is_ascii_digit(c) || c
            == '-') {
            assert(!is_plugin_id_char(chars@[i as int]));
            return false;
        }
        i = i + 1;
    }
    true
}

fn valid_metadata(name: &str, description: &str) -> (ok: bool)
    ensures
        ok == metadata_ok(name@, description@),
{
    let name = chars_of(name);
    let description = chars_of(description);
    crate::text::trimmed(name.as_slice()).len() > 0 && !crate::text::utf8_len_at_least(
        name.as_slice(),
        MAX_PLUGIN_NAME_BYTES + 1,
    ) && !crate::text::utf8_len_at_least(description.as_slice(), MAX_PLUGIN_DESCRIPTION_BYTES + 1)
        && !crate::text::any_control(name.as_slice()) && !crate::text::any_control(
        description.as_slice(),
    )
}

fn valid_denial_code(code: &str) -> (ok: bool)
    ensures
        ok == denial_code_ok(code@),
{
    let chars = chars_of(code);
    if chars.len() == 0 || chars.len() > MAX_DENIAL_CODE_LEN {
        return false;
    }
    let mut i: usize = 0;
    while i < chars.len()
        invariant
            chars@ == code@,
            i <= chars@.len(),
            forall|k: int| 0 <= k < i ==> is_denial_code_char(#[trigger] chars@[k]),
        decreases chars.len() - i,
    {
        let c = chars[i];
        if !(crate::text::char_is_ascii_lower(c) || crate::text::char_is_ascii_digit(c) || c == '_'
            || c == '-') {
            assert(!is_denial_code_char(chars@[i as int]));
            return false;
        }
        i = i + 1;
    }
    true
}

fn valid_denial_codes(codes: &Vec<String>) -> (ok: bool)
    ensures
        ok == denial_codes_ok(codes@),
{
    let mut i: usize = 0;
    while i < codes.len()
        invariant
            i <= codes@.len(),
            forall|k: int|
                0 <= k < i ==> denial_code_ok(#[trigger] codes@[k]@) && forall|j: int|
                    0 <= j < k ==> #[trigger] codes@[j]@ != codes@[k]@,
        decreases codes.len() - i,
    {
        if !valid_denial_code(codes[i].as_str()) {
            return false;
        }
        let code = chars_of(codes[i].as_str());
        let mut j: usize = 0;
        while j < i
            invariant
                i < codes@.len(),
                code@ == codes@[i as int]@,
                j <= i,
                forall|m: int| 0 <= m < j ==> #[trigger] codes@[m]@ != codes@[i as int]@,
            decreases i - j,
        {
            if crate::text::chars_eq_str(code.as_slice(), codes[j].as_str()) {
                assert(codes@[j as int]@ == codes@[i as int]@);
                return false;
            }
            j = j + 1;
        }
        i = i + 1;
    }
    true
}

/// Checks a manifest given the outcome of the version checks; refuses with
/// the first rule broken.
pub fn check_manifest(manifest: &PluginManifest, version_parses: bool, interface: InterfaceCheck) -> (result:
    Result<(), PluginError>)
    ensures
        outcome_is(result, manifest_refusal(*manifest, version_parses, interface)),
{
    if !valid_plugin_id(manifest.id.as_str()) {
        return Err(PluginError::invalid("plugin id is invalid"));
    }
    if !valid_metadata(manifest.name.as_str(), manifest.description.as_str()) {
        return Err(PluginError::invalid("plugin metadata is invalid"));
    }
    if !version_parses {
        return Err(PluginError::invalid("plugin version is invalid"));
    }
    match interface {
        InterfaceCheck::Invalid => {
            return Err(PluginError::invalid("plugin interface version is invalid"));
        },
        InterfaceCheck::RangeUnreadable => {
            return Err(PluginError::Package);
        },
        InterfaceCheck::Unsupported => {
            return Err(PluginError::invalid("plugin interface version is not supported"));
        },
        InterfaceCheck::Supported => {},
    }
    if manifest.workspace_create_policy && manifest.wasm.is_none() {
        return Err(PluginError::invalid("workspace create policy requires a component"));
    }
    if manifest.wasm.is_some() && !manifest.workspace_create_policy {
        return Err(PluginError::invalid("components must declare workspace_create_policy"));
    }
    if !valid_denial_codes(&manifest.denial_codes) {
        return Err(PluginError::invalid("plugin denial code is invalid"));
    }
    Ok(())
}

/// How the interface version fares, given whether it parses, whether the
/// supported range parses, and whether the range matches it.
pub open spec fn interface_check(interface_parses: bool, range_parses: bool, matches: bool) -> InterfaceCheck {
    if !interface_parses {
        InterfaceCheck::Invalid
    } else if !range_parses {
        InterfaceCheck::RangeUnreadable
    } else if matches {
        InterfaceCheck::Supported
    } else {
        InterfaceCheck::Unsupported
    }
}

/// Checks the interface version against the supported range.
pub fn check_interface(wit_version: &str) -> (check: InterfaceCheck)
    ensures
        check == interface_check(
            semver_version_parses(wit_version@),
            semver_requirement_parses(SUPPORTED_INTERFACE@),
            semver_range_matches(SUPPORTED_INTERFACE@, wit_version@),
        ),
{
    if parse_version(wit_version).is_none() {
        return InterfaceCheck::Invalid;
    }
    if parse_requirement(SUPPORTED_INTERFACE).is_none() {
        return InterfaceCheck::RangeUnreadable;
    }
    if requirement_matches(SUPPORTED_INTERFACE, wit_version) {
        InterfaceCheck::Supported
    } else {
        InterfaceCheck::Unsupported
    }
}

/// Checks a manifest: its id, metadata, versions, the consistency of its
/// component with its policy flag, and its denial codes. The versions are
/// read, and the supported range matched against the interface version,
/// by the SemVer crate.
pub fn validate_manifest(manifest: &PluginManifest) -> (result: Result<(), PluginError>)
    ensures
        outcome_is(
            result,
            manifest_refusal(
                *manifest,
                semver_version_parses(manifest.version@),
                interface_check(
                    semver_version_parses(manifest.wit_version@),
                    semver_requirement_parses(SUPPORTED_INTERFACE@),
                    semver_range_matches(SUPPORTED_INTERFACE@, manifest.wit_version@),
                ),
            ),
        ),
{
    let version_parses = parse_version(manifest.version.as_str()).is_some();
    let interface = check_interface(manifest.wit_version.as_str());
    check_manifest(manifest, version_parses, interface)
}

/// A `..` segment of a `/`-separated path starts at `i`.
pub open spec fn parent_segment_at(s: Seq<char>, i: int) -> bool {
    &&& 0 <= i && i + 2 <= s.len()
    &&& s[i] == '.' && s[i + 1] == '.'
    &&& (i == 0 || s[i - 1] == '/')
    &&& (i + 2 == s.len() || s[i + 2] == '/')
}

/// A component path as written in the manifest is usable before it is
/// resolved: not empty, relative, and never naming a parent directory.
pub open spec fn component_path_ok(s: Seq<char>) -> bool {
    &&& s.len() > 0
    &&& s[0] != '/'
    &&& forall|i: int| 0 <= i < s.len() ==> !#[trigger] parent_segment_at(s, i)
}

/// Checks the component path written in a manifest before it is
/// resolved; where it leads is checked once it is.
pub fn check_component_path(relative: &str) -> (result: Result<(), PluginError>)
    ensures
        component_path_ok(relative@) ==> result is Ok,
        !component_path_ok(relative@) ==> (result matches Err(e) && is_invalid_package(
            e,
            "component path is unsafe"@,
        )),
{
    let s = chars_of(relative);
    let n = s.len();
    if n == 0 || s[0] == '/' {
        return Err(PluginError::invalid("component path is unsafe"));
    }
    let mut i: usize = 0;
    while i < n
        invariant
            s@ == relative@,
            n == s@.len(),
            i <= n,
            forall|k: int| 0 <= k < i ==> !#[trigger] parent_segment_at(s@, k),
        decreases n - i,
    {
        let parent = s[i] == '.' && i + 1 < n && s[i + 1] == '.' && (i == 0 || s[i - 1] == '/') && (
        i + 2 == n || s[i + 2] == '/');
        if parent {
            assert(parent_segment_at(s@, i as int));
            return Err(PluginError::invalid("component path is unsafe"));
        }
        i = i + 1;
    }
    Ok(())
}

} // verus!
