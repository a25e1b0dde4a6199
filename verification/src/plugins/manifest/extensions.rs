//! Browser assets, UI surfaces and API contributions that a plugin declares.
use vstd::prelude::*;

use super::PluginManifest;
use crate::plugins::error::{is_invalid_package, PluginError};
use crate::text::{chars_of, has_control, is_ascii_alnum, is_ascii_digit, is_ascii_hex, is_ascii_lower, trim, utf8_len};

verus! {

/// A static file served for the plugin's UI.
#[derive(Debug, Clone, PartialEq, Eq)]
pub struct PluginAssetDescriptor {
    pub path: String,
    pub media_type: String,
    pub sha256: String,
    pub size_bytes: u64,
}

/// A page of the plugin embedded in the console.
#[derive(Debug, Clone, PartialEq, Eq)]
pub struct PluginUiSurface {
    pub id: String,
    pub title: String,
    pub placement: PluginUiPlacement,
    pub entrypoint: String,
    pub allowed_bridge_methods: Vec<String>,
}

/// Where a UI surface appears.
#[derive(Debug, Clone, Copy, PartialEq, Eq)]
pub enum PluginUiPlacement {
    AdminTab,
    WorkspaceDetail,
}

/// An API route that the plugin answers.
#[derive(Debug, Clone, PartialEq, Eq)]
pub struct PluginApiRoute {
    pub id: String,
    pub title: String,
    pub permission: PluginRoutePermission,
}

/// Who may call a plugin API route.
#[derive(Debug, Clone, Copy, PartialEq, Eq)]
pub enum PluginRoutePermission {
    Authenticated,
    OrganizationAdmin,
    SystemAdmin,
}

/// A hook run around API requests.
#[derive(Debug, Clone, PartialEq, Eq)]
pub struct PluginApiMiddleware {
    pub id: String,
    pub phase: String,
}

pub const MAX_ASSETS: usize = 64;

pub const MAX_ASSET_BYTES: u64 = 2097152;

pub const MAX_TOTAL_ASSET_BYTES: u64 = 8388608;

pub const MAX_ID_LEN: usize = 64;

pub const MAX_ASSET_PATH_LEN: usize = 240;

pub const MAX_SURFACE_TITLE_BYTES: usize = 120;

pub open spec fn is_id_char(c: char) -> bool {
    is_ascii_lower(c) || is_ascii_digit(c) || c == '-' || c == '_'
}

/// An identifier: 1 to 64 lower-case letters, digits, `-` and `_`.
pub open spec fn id_ok(value: Seq<char>) -> bool {
    &&& 0 < value.len() <= MAX_ID_LEN
    &&& forall|i: int| 0 <= i < value.len() ==> is_id_char(#[trigger] value[i])
}

/// Whether `value` is a valid identifier.
pub fn safe_id(value: &str) -> (safe: bool)
    ensures
        safe == id_ok(value@),
{
    let chars = chars_of(value);
    if chars.len() == 0 || chars.len() > MAX_ID_LEN {
        return false;
    }
    let mut i: usize = 0;
    while i < chars.len()
        invariant
            chars@ == value@,
            i <= chars@.len(),
            forall|k: int| 0 <= k < i ==> is_id_char(#[trigger] chars@[k]),
        decreases chars.len() - i,
    {
        let c = chars[i];
        if !(crate::text::char_is_ascii_lower(c) || crate::text::char_is_ascii_digit(c) || c == '-'
            || c == '_') {
            assert(!is_id_char(chars@[i as int]));
            return false;
        }
        i = i + 1;
    }
    true
}

pub open spec fn is_path_char(c: char) -> bool {
    is_ascii_alnum(c) || c == '.' || c == '-' || c == '_' || c == '/'
}

/// A path segment starts at `i`.
pub open spec fn starts_segment(s: Seq<char>, i: int) -> bool {
    i == 0 || s[i - 1] == '/'
}

/// A path segment ends just before `j`.
pub open spec fn ends_segment(s: Seq<char>, j: int) -> bool {
    j == s.len() || s[j] == '/'
}

/// The `/` at `i` leaves an empty segment before or after it.
pub open spec fn empty_segment_at(s: Seq<char>, i: int) -> bool {
    s[i] == '/' && (i == 0 || i + 1 == s.len() || s[i + 1] == '/')
}

/// A segment `.` or `..` starts at `i`.
pub open spec fn dot_segment_at(s: Seq<char>, i: int) -> bool {
    &&& s[i] == '.'
    &&& starts_segment(s, i)
    &&& (ends_segment(s, i + 1) || (i + 1 < s.len() && s[i + 1] == '.' && ends_segment(s, i + 2)))
}

/// A relative asset path: 1 to 240 ASCII letters, digits, `.`, `-`, `_`
/// and `/`, whose `/`-separated segments are neither empty nor `.` nor `..`.
pub open spec fn asset_path_ok(s: Seq<char>) -> bool {
    &&& 0 < s.len() <= MAX_ASSET_PATH_LEN
    &&& forall|i: int|
        0 <= i < s.len() ==> is_path_char(#[trigger] s[i]) && !empty_segment_at(s, i)
            && !dot_segment_at(s, i)
}

/// Whether `value` is a safe relative asset path.
pub fn safe_asset_path(value: &str) -> (safe: bool)
    ensures
        safe == asset_path_ok(value@),
{
    let s = chars_of(value);
    let n = s.len();
    if n == 0 || n > MAX_ASSET_PATH_LEN {
        return false;
    }
    let mut i: usize = 0;
    while i < n
        invariant
            s@ == value@,
            n == s@.len(),
            i <= n,
            forall|k: int|
                0 <= k < i ==> is_path_char(#[trigger] s@[k]) && !empty_segment_at(s@, k)
                    && !dot_segment_at(s@, k),
        decreases n - i,
    {
        let c = s[i];
        let allowed = crate::text::char_is_ascii_alnum(c) || c == '.' || c == '-' || c == '_' || c
            == '/';
        let empty = c == '/' && (i == 0 || i + 1 == n || s[i + 1] == '/');
        let starts = i == 0 || s[i - 1] == '/';
        let dot = c == '.' && starts && (i + 1 == n || s[i + 1] == '/' || (i + 1 < n && s[i + 1]
            == '.' && (i + 2 == n || s[i + 2] == '/')));
        if !allowed || empty || dot {
            assert(!(is_path_char(s@[i as int]) && !empty_segment_at(s@, i as int)
                && !dot_segment_at(s@, i as int)));
            return false;
        }
        i = i + 1;
    }
    true
}

/// The media types an asset may have.
pub open spec fn media_type_ok(m: Seq<char>) -> bool {
    ||| m == "text/html"@
    ||| m == "text/css"@
    ||| m == "application/javascript"@
    ||| m == "application/json"@
    ||| m == "image/png"@
    ||| m == "image/jpeg"@
    ||| m == "image/webp"@
    ||| m == "image/svg+xml"@
}

/// The media types an asset may have are exactly these eight.
pub proof fn lemma_accepted_media_types(m: Seq<char>)
    ensures
        media_type_ok(m) <==> (m == "text/html"@ || m == "text/css"@ || m
            == "application/javascript"@ || m == "application/json"@ || m == "image/png"@ || m
            == "image/jpeg"@ || m == "image/webp"@ || m == "image/svg+xml"@),
{
}

fn allowed_media_type(m: &str) -> (ok: bool)
    ensures
        ok == media_type_ok(m@),
{
    let c = chars_of(m);
    let c = c.as_slice();
    crate::text::chars_eq_str(c, "text/html") || crate::text::chars_eq_str(c, "text/css")
        || crate::text::chars_eq_str(c, "application/javascript") || crate::text::chars_eq_str(
        c,
        "application/json",
    ) || crate::text::chars_eq_str(c, "image/png") || crate::text::chars_eq_str(c, "image/jpeg")
        || crate::text::chars_eq_str(c, "image/webp") || crate::text::chars_eq_str(
        c,
        "image/svg+xml",
    )
}

/// A SHA-256 digest written as 64 hex digits (either case).
pub open spec fn sha256_text_ok(s: Seq<char>) -> bool {
    &&& s.len() == 64
    &&& forall|i: int| 0 <= i < s.len() ==> is_ascii_hex(#[trigger] s[i])
}

fn hex_digest(value: &str) -> (ok: bool)
    ensures
        ok == sha256_text_ok(value@),
{
    let s = chars_of(value);
    if s.len() != 64 {
        return false;
    }
    let mut i: usize = 0;
    while i < s.len()
        invariant
            s@ == value@,
            s@.len() == 64,
            i <= s@.len(),
            forall|k: int| 0 <= k < i ==> is_ascii_hex(#[trigger] s@[k]),
        decreases s.len() - i,
    {
        if !crate::text::char_is_ascii_hex(s[i]) {
            assert(!is_ascii_hex(s@[i as int]));
            return false;
        }
        i = i + 1;
    }
    true
}

/// One asset declaration on its own: within the per-asset size, at a safe
/// path, with a well-formed digest and an allowed media type.
pub open spec fn asset_ok(asset: PluginAssetDescriptor) -> bool {
    &&& asset.size_bytes <= MAX_ASSET_BYTES
    &&& asset_path_ok(asset.path@)
    &&& sha256_text_ok(asset.sha256@)
    &&& media_type_ok(asset.media_type@)
}

/// No asset before position `i` has the path of the asset at `i`.
pub open spec fn asset_path_first(assets: Seq<PluginAssetDescriptor>, i: int) -> bool {
    forall|j: int| 0 <= j < i ==> #[trigger] assets[j].path@ != assets[i].path@
}

/// The declared sizes added up.
pub open spec fn total_asset_bytes(assets: Seq<PluginAssetDescriptor>) -> int
    decreases assets.len(),
{
    if assets.len() == 0 {
        0
    } else {
        total_asset_bytes(assets.drop_last()) + assets.last().size_bytes
    }
}

/// `path` is the path of an HTML asset.
pub open spec fn is_html_asset(assets: Seq<PluginAssetDescriptor>, path: Seq<char>) -> bool {
    exists|j: int|
        0 <= j < assets.len() && #[trigger] assets[j].path@ == path && assets[j].media_type@
            == "text/html"@
}

/// The bridge methods a surface may call.
pub open spec fn bridge_method_ok(method: Seq<char>) -> bool {
    method == "theme.read"@ || method == "plugin_api.request"@
}

/// One UI surface on its own: a valid id, an HTML entrypoint among the
/// assets, a title that is not blank, at most 120 bytes and without control
/// characters, and only known bridge methods.
pub open spec fn surface_ok(assets: Seq<PluginAssetDescriptor>, surface: PluginUiSurface) -> bool {
    &&& id_ok(surface.id@)
    &&& is_html_asset(assets, surface.entrypoint@)
    &&& trim(surface.title@).len() > 0
    &&& utf8_len(surface.title@) <= MAX_SURFACE_TITLE_BYTES
    &&& !has_control(surface.title@)
    &&& forall|k: int|
        0 <= k < surface.allowed_bridge_methods@.len() ==> bridge_method_ok(
            #[trigger] surface.allowed_bridge_methods@[k]@,
        )
}

/// No surface before position `i` has the id of the surface at `i`.
pub open spec fn surface_id_first(surfaces: Seq<PluginUiSurface>, i: int) -> bool {
    forall|j: int| 0 <= j < i ==> #[trigger] surfaces[j].id@ != surfaces[i].id@
}

pub open spec fn route_ok(route: PluginApiRoute) -> bool {
    id_ok(route.id@) && trim(route.title@).len() > 0
}

pub open spec fn middleware_ok(middleware: PluginApiMiddleware) -> bool {
    id_ok(middleware.id@) && middleware.phase@ == "before_api"@
}

/// The message for the first rule that the extensions break, in the order
/// the rules are checked: overall asset limits, each asset, each surface,
/// then the API contributions.
pub open spec fn extensions_refusal(manifest: PluginManifest) -> Option<Seq<char>> {
    let assets = manifest.assets@;
    let surfaces = manifest.ui_surfaces@;
    if assets.len() > MAX_ASSETS || total_asset_bytes(assets) > MAX_TOTAL_ASSET_BYTES {
        Some("plugin assets exceed size limits"@)
    } else if exists|i: int|
        0 <= i < assets.len() && !(asset_ok(#[trigger] assets[i]) && asset_path_first(assets, i)) {
        Some("plugin asset declaration is invalid"@)
    } else if exists|i: int|
        0 <= i < surfaces.len() && !(surface_ok(assets, #[trigger] surfaces[i]) && surface_id_first(
            surfaces,
            i,
        )) {
        Some("plugin UI surface is invalid"@)
    } else if (exists|i: int|
        0 <= i < manifest.api_routes@.len() && !route_ok(#[trigger] manifest.api_routes@[i])) || (
    exists|i: int|
        0 <= i < manifest.api_middleware@.len() && !middleware_ok(
            #[trigger] manifest.api_middleware@[i],
        )) {
        Some("plugin API contribution is invalid"@)
    } else {
        None
    }
}

fn assets_within_limits(assets: &Vec<PluginAssetDescriptor>) -> (ok: bool)
    ensures
        ok == (assets@.len() <= MAX_ASSETS && total_asset_bytes(assets@) <= MAX_TOTAL_ASSET_BYTES),
{
    if assets.len() > MAX_ASSETS {
        return false;
    }
    let mut total: u128 = 0;
    let mut i: usize = 0;
    while i < assets.len()
        invariant
            assets@.len() <= MAX_ASSETS,
            i <= assets@.len(),
            total == total_asset_bytes(assets@.take(i as int)),
            total <= i * 0xffff_ffff_ffff_ffffu128,
        decreases assets.len() - i,
    {
        proof {
            assert(assets@.take(i + 1).drop_last() == assets@.take(i as int));
        }
        total = total + assets[i].size_bytes as u128;
        i = i + 1;
    }
    proof {
        assert(assets@.take(assets@.len() as int) == assets@);
    }
    total <= MAX_TOTAL_ASSET_BYTES as u128
}

fn path_seen_before(assets: &Vec<PluginAssetDescriptor>, i: usize) -> (seen: bool)
    requires
        i < assets@.len(),
    ensures
        seen == !asset_path_first(assets@, i as int),
{
    let path = chars_of(assets[i].path.as_str());
    let mut j: usize = 0;
    while j < i
        invariant
            i < assets@.len(),
            path@ == assets@[i as int].path@,
            j <= i,
            forall|k: int| 0 <= k < j ==> #[trigger] assets@[k].path@ != assets@[i as int].path@,
        decreases i - j,
    {
        if crate::text::chars_eq_str(path.as_slice(), assets[j].path.as_str()) {
            return true;
        }
        j = j + 1;
    }
    false
}

fn html_entrypoint(assets: &Vec<PluginAssetDescriptor>, entrypoint: &str) -> (found: bool)
    ensures
        found == is_html_asset(assets@, entrypoint@),
{
    let entry = chars_of(entrypoint);
    let mut j: usize = 0;
    while j < assets.len()
        invariant
            entry@ == entrypoint@,
            j <= assets@.len(),
            forall|k: int|
                0 <= k < j ==> !(#[trigger] assets@[k].path@ == entrypoint@ && assets@[k].media_type@
                    == "text/html"@),
        decreases assets.len() - j,
    {
        let media = chars_of(assets[j].media_type.as_str());
        if crate::text::chars_eq_str(entry.as_slice(), assets[j].path.as_str())
            && crate::text::chars_eq_str(media.as_slice(), "text/html") {
            return true;
        }
        j = j + 1;
    }
    false
}

fn surface_id_seen_before(surfaces: &Vec<PluginUiSurface>, i: usize) -> (seen: bool)
    requires
        i < surfaces@.len(),
    ensures
        seen == !surface_id_first(surfaces@, i as int),
{
    let id = chars_of(surfaces[i].id.as_str());
    let mut j: usize = 0;
    while j < i
        invariant
            i < surfaces@.len(),
            id@ == surfaces@[i as int].id@,
            j <= i,
            forall|k: int| 0 <= k < j ==> #[trigger] surfaces@[k].id@ != surfaces@[i as int].id@,
        decreases i - j,
    {
        if crate::text::chars_eq_str(id.as_slice(), surfaces[j].id.as_str()) {
            return true;
        }
        j = j + 1;
    }
    false
}

fn bridge_methods_ok(methods: &Vec<String>) -> (ok: bool)
    ensures
        ok == forall|k: int| 0 <= k < methods@.len() ==> bridge_method_ok(#[trigger] methods@[k]@),
{
    let mut k: usize = 0;
    while k < methods.len()
        invariant
            k <= methods@.len(),
            forall|m: int| 0 <= m < k ==> bridge_method_ok(#[trigger] methods@[m]@),
        decreases methods.len() - k,
    {
        let method = chars_of(methods[k].as_str());
        if !(crate::text::chars_eq_str(method.as_slice(), "theme.read")
            || crate::text::chars_eq_str(method.as_slice(), "plugin_api.request")) {
            assert(!bridge_method_ok(methods@[k as int]@));
            return false;
        }
        k = k + 1;
    }
    true
}

fn check_surface(assets: &Vec<PluginAssetDescriptor>, surface: &PluginUiSurface) -> (ok: bool)
    ensures
        ok == surface_ok(assets@, *surface),
{
    if !safe_id(surface.id.as_str()) || !html_entrypoint(assets, surface.entrypoint.as_str()) {
        return false;
    }
    let title = chars_of(surface.title.as_str());
    crate::text::trimmed(title.as_slice()).len() > 0 && !crate::text::utf8_len_at_least(
        title.as_slice(),
        MAX_SURFACE_TITLE_BYTES + 1,
    ) && !crate::text::any_control(title.as_slice()) && bridge_methods_ok(
        &surface.allowed_bridge_methods,
    )
}

fn check_route(route: &PluginApiRoute) -> (ok: bool)
    ensures
        ok == route_ok(*route),
{
    let title = chars_of(route.title.as_str());
    safe_id(route.id.as_str()) && crate::text::trimmed(title.as_slice()).len() > 0
}

fn check_middleware(middleware: &PluginApiMiddleware) -> (ok: bool)
    ensures
        ok == middleware_ok(*middleware),
{
    let phase = chars_of(middleware.phase.as_str());
    safe_id(middleware.id.as_str()) && crate::text::chars_eq_str(phase.as_slice(), "before_api")
}

/// Checks the browser assets, UI surfaces and API contributions of a
/// manifest, refusing with the message of the first rule broken.
pub fn validate_extensions(manifest: &PluginManifest) -> (result: Result<(), PluginError>)
    ensures
        match extensions_refusal(*manifest) {
            None => result is Ok,
            Some(message) => result matches Err(error) && is_invalid_package(error, message),
        },
{
    let assets = &manifest.assets;
    if !assets_within_limits(assets) {
        return Err(PluginError::invalid("plugin assets exceed size limits"));
    }
    let mut i: usize = 0;
    while i < assets.len()
        invariant
            assets@ == manifest.assets@,
            assets@.len() <= MAX_ASSETS,
            total_asset_bytes(assets@) <= MAX_TOTAL_ASSET_BYTES,
            i <= assets@.len(),
            forall|k: int|
                0 <= k < i ==> asset_ok(#[trigger] assets@[k]) && asset_path_first(assets@, k),
        decreases assets.len() - i,
    {
        let asset = &assets[i];
        if asset.size_bytes > MAX_ASSET_BYTES || !safe_asset_path(asset.path.as_str())
            || path_seen_before(assets, i) || !hex_digest(asset.sha256.as_str())
            || !allowed_media_type(asset.media_type.as_str()) {
            assert(!(asset_ok(assets@[i as int]) && asset_path_first(assets@, i as int)));
            return Err(PluginError::invalid("plugin asset declaration is invalid"));
        }
        i = i + 1;
    }
    let surfaces = &manifest.ui_surfaces;
    let mut i: usize = 0;
    while i < surfaces.len()
        invariant
            assets@ == manifest.assets@,
            surfaces@ == manifest.ui_surfaces@,
            assets@.len() <= MAX_ASSETS,
            total_asset_bytes(assets@) <= MAX_TOTAL_ASSET_BYTES,
            forall|k: int|
                0 <= k < assets@.len() ==> asset_ok(#[trigger] assets@[k]) && asset_path_first(
                    assets@,
                    k,
                ),
            i <= surfaces@.len(),
            forall|k: int|
                0 <= k < i ==> surface_ok(assets@, #[trigger] surfaces@[k]) && surface_id_first(
                    surfaces@,
                    k,
                ),
        decreases surfaces.len() - i,
    {
        let surface = &surfaces[i];
        if !check_surface(assets, surface) || surface_id_seen_before(surfaces, i) {
            assert(!(surface_ok(assets@, surfaces@[i as int]) && surface_id_first(
                surfaces@,
                i as int,
            )));
            return Err(PluginError::invalid("plugin UI surface is invalid"));
        }
        i = i + 1;
    }
    let routes = &manifest.api_routes;
    let mut i: usize = 0;
    while i < routes.len()
        invariant
            assets@ == manifest.assets@,
            surfaces@ == manifest.ui_surfaces@,
            assets@.len() <= MAX_ASSETS,
            total_asset_bytes(assets@) <= MAX_TOTAL_ASSET_BYTES,
            forall|k: int|
                0 <= k < assets@.len() ==> asset_ok(#[trigger] assets@[k]) && asset_path_first(
                    assets@,
                    k,
                ),
            forall|k: int|
                0 <= k < surfaces@.len() ==> surface_ok(assets@, #[trigger] surfaces@[k])
                    && surface_id_first(surfaces@, k),
            routes@ == manifest.api_routes@,
            i <= routes@.len(),
            forall|k: int| 0 <= k < i ==> route_ok(#[trigger] routes@[k]),
        decreases routes.len() - i,
    {
        if !check_route(&routes[i]) {
            assert(!route_ok(routes@[i as int]));
            return Err(PluginError::invalid("plugin API contribution is invalid"));
        }
        i = i + 1;
    }
    let middleware = &manifest.api_middleware;
    let mut i: usize = 0;
    while i < middleware.len()
        invariant
            assets@ == manifest.assets@,
            surfaces@ == manifest.ui_surfaces@,
            assets@.len() <= MAX_ASSETS,
            total_asset_bytes(assets@) <= MAX_TOTAL_ASSET_BYTES,
            forall|k: int|
                0 <= k < assets@.len() ==> asset_ok(#[trigger] assets@[k]) && asset_path_first(
                    assets@,
                    k,
                ),
            forall|k: int|
                0 <= k < surfaces@.len() ==> surface_ok(assets@, #[trigger] surfaces@[k])
                    && surface_id_first(surfaces@, k),
            routes@ == manifest.api_routes@,
            forall|k: int| 0 <= k < routes@.len() ==> route_ok(#[trigger] routes@[k]),
            middleware@ == manifest.api_middleware@,
            i <= middleware@.len(),
            forall|k: int| 0 <= k < i ==> middleware_ok(#[trigger] middleware@[k]),
        decreases middleware.len() - i,
    {
        if !check_middleware(&middleware[i]) {
            assert(!middleware_ok(middleware@[i as int]));
            return Err(PluginError::invalid("plugin API contribution is invalid"));
        }
        i = i + 1;
    }
    Ok(())
}

} // verus!
