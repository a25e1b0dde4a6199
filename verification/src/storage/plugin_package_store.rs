//! Installed plugin packages: inspection before install, confirmation,
//! enabling and removal, UI sessions, and the encoding of stored assets.
use vstd::prelude::*;

use super::StorageError;
use crate::plugins::manifest::plugin_id_ok;
use crate::plugins::manifest::extensions::sha256_text_ok;
use crate::encoding::{base64_decode, base64_encode, base64_standard};
use crate::text::{chars_of, is_ascii_hex};

verus! {

/// A stored static file of a plugin.
#[derive(Debug, Clone, PartialEq, Eq)]
pub struct PluginAssetBlob {
    pub path: String,
    pub media_type: String,
    pub content: Vec<u8>,
    pub digest: String,
}

/// An installed package. Identifiers are carried as their 128-bit values.
#[derive(Debug, Clone, PartialEq, Eq)]
pub struct PluginPackageRecord {
    pub plugin_id: String,
    pub manifest_json: String,
    pub component_bytes: Option<Vec<u8>>,
    pub package_digest: String,
    pub source_kind: String,
    pub source_ref: String,
    pub source_confirmation: String,
    pub enabled: bool,
    pub approved_contributions: Vec<String>,
    pub version: u64,
    pub created_by: u128,
    pub created_at: i64,
    pub updated_at: i64,
}

/// A package that was inspected and awaits an administrator's confirmation.
#[derive(Debug, Clone, PartialEq, Eq)]
pub struct PluginInstallInspection {
    pub id: u128,
    pub plugin_id: String,
    pub manifest_json: String,
    pub component_bytes: Option<Vec<u8>>,
    pub package_digest: String,
    pub size_bytes: u64,
    pub source_kind: String,
    pub source_ref: String,
    pub source_confirmation: String,
    pub declared_contributions: Vec<String>,
    pub assets: Vec<PluginAssetBlob>,
    pub created_by: u128,
    pub created_at: i64,
    pub expires_at: i64,
}

/// A request to record an inspection.
#[derive(Debug, Clone, PartialEq, Eq)]
pub struct StorePluginInspection {
    pub plugin_id: String,
    pub manifest_json: String,
    pub component_bytes: Option<Vec<u8>>,
    pub package_digest: String,
    pub size_bytes: u64,
    pub source_kind: String,
    pub source_ref: String,
    pub source_confirmation: String,
    pub declared_contributions: Vec<String>,
    pub assets: Vec<PluginAssetBlob>,
    pub created_by: u128,
    pub now: i64,
    pub expires_at: i64,
}

/// An administrator's confirmation of an inspected package.
#[derive(Debug, Clone, Copy)]
pub struct ConfirmPluginInstall<'a> {
    pub inspection_id: u128,
    pub expected_digest: &'a str,
    pub expected_package_version: u64,
    pub approved_contributions: &'a [String],
    pub enabled: bool,
    pub actor_user_id: u128,
    pub now: i64,
}

/// A sandboxed UI page opened for one user.
#[derive(Debug, Clone, PartialEq, Eq)]
pub struct PluginUiSession {
    pub id: u128,
    pub plugin_id: String,
    pub surface_id: String,
    pub user_id: u128,
    pub entrypoint: String,
    pub package_digest: String,
    pub channel_nonce: String,
    pub allowed_bridge_methods: Vec<String>,
    pub expires_at: i64,
}

/// A request to open a UI session.
#[derive(Debug, Clone, Copy)]
pub struct CreatePluginUiSession<'a> {
    pub plugin_id: &'a str,
    pub surface_id: &'a str,
    pub user_id: u128,
    pub ticket_hash: &'a str,
    pub cookie_hash: &'a str,
    pub channel_nonce: &'a str,
    pub allowed_bridge_methods: &'a [String],
    pub entrypoint: &'a str,
    pub package_digest: &'a str,
    pub expires_at: i64,
    pub now: i64,
}

/// How many inspections may wait at once, in all and per administrator.
pub const MAX_ACTIVE_INSPECTIONS: i64 = 8;

pub const MAX_ACTIVE_INSPECTIONS_PER_ACTOR: i64 = 4;

/// How many packages may be installed.
pub const MAX_INSTALLED_PLUGINS: i64 = 32;

/// How many UI sessions one user may hold.
pub const MAX_UI_SESSIONS_PER_USER: i64 = 32;

fn hex64(value: &str) -> (ok: bool)
    ensures
        ok == sha256_text_ok(value@),
{
    let s = chars_of(value);
    if s.len() != 64 {
        return false;
    }
    let mut i: usize = 0;
    while i < s.len()
        invariant
            s@ == value@,
            i <= s@.len(),
            forall|k: int| 0 <= k < i ==> is_ascii_hex(#[trigger] s@[k]),
        decreases s.len() - i,
    {
        if !crate::text::char_is_ascii_hex(s[i]) {
            assert(!is_ascii_hex(s@[i as int]));
            return false;
        }
        i = i + 1;
    }
    true
}

fn plugin_id_valid(value: &str) -> (ok: bool)
    ensures
        ok == plugin_id_ok(value@),
{
    let chars = chars_of(value);
    if chars.len() == 0 || chars.len() > 64 {
        return false;
    }
    let mut i: usize = 0;
    while i < chars.len()
        invariant
            chars@ == value@,
            i <= chars@.len(),
            forall|k: int|
                0 <= k < i ==> crate::plugins::manifest::is_plugin_id_char(#[trigger] chars@[k]),
        decreases chars.len() - i,
    {
        let c = chars[i];
        if !(crate::text::char_is_ascii_lower(c) || crate::text::char_is_ascii_digit(c) || c
            == '-') {
            assert(!crate::plugins::manifest::is_plugin_id_char(chars@[i as int]));
            return false;
        }
        i = i + 1;
    }
    true
}

/// A package is named by a valid plugin id and a SHA-256 digest in hex.
pub fn validate_package_input(plugin_id: &str, digest: &str) -> (result: Result<(), StorageError>)
    ensures
        result is Ok <==> (plugin_id_ok(plugin_id@) && sha256_text_ok(digest@)),
        result matches Err(error) ==> error == StorageError::InvalidPluginConfiguration,
{
    if !plugin_id_valid(plugin_id) || !hex64(digest) {
        return Err(StorageError::InvalidPluginConfiguration);
    }
    Ok(())
}

/// The stored size of an inspected package; sizes beyond the database's
/// integer range are refused.
pub fn inspection_size(size_bytes: u64) -> (size: Result<i64, StorageError>)
    ensures
        size_bytes <= i64::MAX ==> size == Ok::<i64, StorageError>(size_bytes as i64),
        size_bytes > i64::MAX ==> size == Err::<i64, StorageError>(
            StorageError::InvalidPluginConfiguration,
        ),
{
    if size_bytes > 9223372036854775807u64 {
        return Err(StorageError::InvalidPluginConfiguration);
    }
    Ok(size_bytes as i64)
}

/// A new inspection is refused while eight are waiting, or four of the same
/// administrator; expired ones are removed before counting.
pub fn ensure_inspection_capacity(active: i64, actor_active: i64) -> (result: Result<(), StorageError>)
    ensures
        (active < MAX_ACTIVE_INSPECTIONS && actor_active < MAX_ACTIVE_INSPECTIONS_PER_ACTOR)
            ==> result is Ok,
        !(active < MAX_ACTIVE_INSPECTIONS && actor_active < MAX_ACTIVE_INSPECTIONS_PER_ACTOR)
            ==> result == Err::<(), StorageError>(StorageError::TooManyPluginInspections),
{
    if active >= MAX_ACTIVE_INSPECTIONS || actor_active >= MAX_ACTIVE_INSPECTIONS_PER_ACTOR {
        return Err(StorageError::TooManyPluginInspections);
    }
    Ok(())
}

/// The version a package must still have for a change to apply; versions
/// beyond the database's integer range can never match.
pub fn expected_package_version(expected_version: u64) -> (expected: Result<i64, StorageError>)
    ensures
        expected_version <= i64::MAX ==> expected == Ok::<i64, StorageError>(
            expected_version as i64,
        ),
        expected_version > i64::MAX ==> expected == Err::<i64, StorageError>(
            StorageError::PluginPackageVersionConflict,
        ),
{
    if expected_version > 9223372036854775807u64 {
        return Err(StorageError::PluginPackageVersionConflict);
    }
    Ok(expected_version as i64)
}

/// `name` is one of the declared contributions.
pub open spec fn declares(declared: Seq<String>, name: Seq<char>) -> bool {
    exists|d: int| 0 <= d < declared.len() && #[trigger] declared[d]@ == name
}

/// Every approved contribution is one the package declares.
pub open spec fn approvals_declared(declared: Seq<String>, approved: Seq<String>) -> bool {
    forall|a: int| 0 <= a < approved.len() ==> declares(declared, #[trigger] approved[a]@)
}

fn is_declared(declared: &Vec<String>, name: &String) -> (found: bool)
    ensures
        found == declares(declared@, name@),
{
    let wanted = chars_of(name.as_str());
    let mut d: usize = 0;
    while d < declared.len()
        invariant
            wanted@ == name@,
            d <= declared@.len(),
            forall|k: int| 0 <= k < d ==> #[trigger] declared@[k]@ != name@,
        decreases declared.len() - d,
    {
        if crate::text::chars_eq_str(wanted.as_slice(), declared[d].as_str()) {
            assert(declared@[d as int]@ == name@);
            return true;
        }
        d = d + 1;
    }
    false
}

/// Why a confirmation is refused, checked in order: the inspection expired,
/// the package is not the one the administrator saw, an approval was not
/// declared, or the expected version is out of range.
pub open spec fn confirmation_refusal(
    inspection: PluginInstallInspection,
    expected_digest: Seq<char>,
    approved: Seq<String>,
    expected_version: u64,
) -> Option<StorageError> {
    if inspection.package_digest@ != expected_digest {
        Some(StorageError::PluginDigestMismatch)
    } else if !approvals_declared(inspection.declared_contributions@, approved) {
        Some(StorageError::PluginCapabilityNotApproved)
    } else if expected_version > i64::MAX {
        Some(StorageError::PluginPackageVersionConflict)
    } else {
        None
    }
}

/// Checks a confirmation against the inspection it names and gives the
/// version the package must still have.
pub fn check_install_confirmation(
    inspection: &PluginInstallInspection,
    command: &ConfirmPluginInstall,
) -> (result: Result<i64, StorageError>)
    ensures
        inspection.expires_at <= command.now ==> result == Err::<i64, StorageError>(
            StorageError::PluginInspectionExpired,
        ),
        inspection.expires_at > command.now ==> match confirmation_refusal(
            *inspection,
            command.expected_digest@,
            command.approved_contributions@,
            command.expected_package_version,
        ) {
            Some(error) => result == Err::<i64, StorageError>(error),
            None => result == Ok::<i64, StorageError>(command.expected_package_version as i64),
        },
{
    if inspection.expires_at <= command.now {
        return Err(StorageError::PluginInspectionExpired);
    }
    let digest = chars_of(inspection.package_digest.as_str());
    if !crate::text::chars_eq_str(digest.as_slice(), command.expected_digest) {
        return Err(StorageError::PluginDigestMismatch);
    }
    let approved = command.approved_contributions;
    let mut a: usize = 0;
    while a < approved.len()
        invariant
            approved@ == command.approved_contributions@,
            inspection.expires_at > command.now,
            inspection.package_digest@ == command.expected_digest@,
            a <= approved@.len(),
            forall|k: int|
                0 <= k < a ==> declares(inspection.declared_contributions@, #[trigger] approved@[k]@),
        decreases approved.len() - a,
    {
        if !is_declared(&inspection.declared_contributions, &approved[a]) {
            assert(!declares(inspection.declared_contributions@, approved@[a as int]@));
            return Err(StorageError::PluginCapabilityNotApproved);
        }
        a = a + 1;
    }
    expected_package_version(command.expected_package_version)
}

/// A first install is refused once the installation holds the maximum
/// number of packages; replacing an installed package is not.
pub fn ensure_install_capacity(expected: i64, installed: i64) -> (result: Result<(), StorageError>)
    ensures
        (expected == 0 && installed >= MAX_INSTALLED_PLUGINS) ==> result == Err::<(), StorageError>(
            StorageError::PluginCapacityExceeded,
        ),
        !(expected == 0 && installed >= MAX_INSTALLED_PLUGINS) ==> result is Ok,
{
    if expected == 0 && installed >= MAX_INSTALLED_PLUGINS {
        return Err(StorageError::PluginCapacityExceeded);
    }
    Ok(())
}

/// A change to a package applies only when exactly its row changed, i.e.
/// when the package still had the expected version; only then is the
/// catalog revision bumped.
pub fn ensure_package_changed(changed: u64) -> (result: Result<(), StorageError>)
    ensures
        changed == 1 ==> result is Ok,
        changed != 1 ==> result == Err::<(), StorageError>(StorageError::PluginPackageVersionConflict),
{
    if changed != 1 {
        return Err(StorageError::PluginPackageVersionConflict);
    }
    Ok(())
}

/// How the transaction of a package change ends.
#[derive(Debug, Clone, Copy, PartialEq, Eq)]
pub enum PackageChangeEnd {
    /// The catalog revision is bumped and the transaction committed.
    BumpRevisionAndCommit,
    /// The transaction is dropped, so nothing it did stays.
    RollBack,
}

/// The end of a package change (enable, disable or delete) after its
/// conditional statement changed `changed` rows: exactly one row means
/// the package still had the expected version, and only then is the
/// catalog revision bumped and the change committed; otherwise the change
/// is rolled back and reported as a version conflict.
pub fn package_change_end(changed: u64) -> (end: (PackageChangeEnd, Result<(), StorageError>))
    ensures
        changed == 1 ==> end == (PackageChangeEnd::BumpRevisionAndCommit, Ok::<(), StorageError>(())),
        changed != 1 ==> end == (PackageChangeEnd::RollBack, Err::<(), StorageError>(
            StorageError::PluginPackageVersionConflict,
        )),
{
    match ensure_package_changed(changed) {
        Ok(()) => (PackageChangeEnd::BumpRevisionAndCommit, Ok(())),
        Err(e) => (PackageChangeEnd::RollBack, Err(e)),
    }
}

/// The record of a package once a confirmation with `expected` applied:
/// the inspected content, the confirmation's choices, and the next version.
pub fn installed_record(
    inspection: PluginInstallInspection,
    command: &ConfirmPluginInstall,
    expected: i64,
) -> (record: PluginPackageRecord)
    requires
        0 <= expected,
    ensures
        record.plugin_id == inspection.plugin_id,
        record.manifest_json == inspection.manifest_json,
        record.component_bytes == inspection.component_bytes,
        record.package_digest == inspection.package_digest,
        record.source_kind == inspection.source_kind,
        record.source_ref == inspection.source_ref,
        record.source_confirmation == inspection.source_confirmation,
        record.enabled == command.enabled,
        record.approved_contributions@ == command.approved_contributions@,
        record.version == if expected < i64::MAX {
            expected + 1
        } else {
            expected as int
        },
        record.created_by == command.actor_user_id,
        record.created_at == command.now,
        record.updated_at == command.now,
{
    let next: i64 = if expected < 9223372036854775807i64 {
        expected + 1
    } else {
        expected
    };
    let mut approved: Vec<String> = Vec::new();
    let mut a: usize = 0;
    while a < command.approved_contributions.len()
        invariant
            a <= command.approved_contributions@.len(),
            approved@ == command.approved_contributions@.take(a as int),
        decreases command.approved_contributions.len() - a,
    {
        approved.push(command.approved_contributions[a].clone());
        assert(command.approved_contributions@.take(a + 1) =~= command.approved_contributions@.take(
            a as int,
        ).push(command.approved_contributions@[a as int]));
        a = a + 1;
    }
    assert(command.approved_contributions@.take(command.approved_contributions@.len() as int)
        =~= command.approved_contributions@);
    PluginPackageRecord {
        plugin_id: inspection.plugin_id,
        manifest_json: inspection.manifest_json,
        component_bytes: inspection.component_bytes,
        package_digest: inspection.package_digest,
        source_kind: inspection.source_kind,
        source_ref: inspection.source_ref,
        source_confirmation: inspection.source_confirmation,
        enabled: command.enabled,
        approved_contributions: approved,
        version: next as u64,
        created_by: command.actor_user_id,
        created_at: command.now,
        updated_at: command.now,
    }
}

/// A user holding 32 open UI sessions gets no more; expired sessions are
/// removed before counting.
pub fn ensure_ui_session_capacity(active: i64) -> (result: Result<(), StorageError>)
    ensures
        active < MAX_UI_SESSIONS_PER_USER ==> result is Ok,
        active >= MAX_UI_SESSIONS_PER_USER ==> result == Err::<(), StorageError>(
            StorageError::PluginCapacityExceeded,
        ),
{
    if active >= MAX_UI_SESSIONS_PER_USER {
        return Err(StorageError::PluginCapacityExceeded);
    }
    Ok(())
}

/// A UI session is created only for an enabled package with the digest the
/// page was built from; otherwise no row is inserted and the package is
/// treated as not found.
pub fn ensure_ui_session_created(changed: u64) -> (result: Result<(), StorageError>)
    ensures
        changed == 1 ==> result is Ok,
        changed != 1 ==> result == Err::<(), StorageError>(StorageError::PluginPackageNotFound),
{
    if changed != 1 {
        return Err(StorageError::PluginPackageNotFound);
    }
    Ok(())
}

/// A stored version or catalog revision read back as an unsigned number; a
/// negative value means the row is damaged.
pub fn decode_version(stored: i64) -> (version: Result<u64, StorageError>)
    ensures
        stored >= 0 ==> version == Ok::<u64, StorageError>(stored as u64),
        stored < 0 ==> version == Err::<u64, StorageError>(StorageError::InvalidPluginConfiguration),
{
    if stored < 0 {
        return Err(StorageError::InvalidPluginConfiguration);
    }
    Ok(stored as u64)
}

/// An asset as kept inside an inspection record: its content in base64.
#[derive(Debug, Clone, PartialEq, Eq)]
pub struct EncodedAsset {
    pub path: String,
    pub media_type: String,
    pub content_base64: String,
    pub digest: String,
}

/// Encodes an asset for an inspection record.
pub fn encode_asset(asset: &PluginAssetBlob) -> (encoded: EncodedAsset)
    requires
        4 * ((asset.content@.len() + 2) / 3) <= usize::MAX,
    ensures
        encoded.path == asset.path,
        encoded.media_type == asset.media_type,
        encoded.content_base64@ == base64_standard(asset.content@),
        encoded.digest == asset.digest,
{
    EncodedAsset {
        path: asset.path.clone(),
        media_type: asset.media_type.clone(),
        content_base64: base64_encode(asset.content.as_slice()),
        digest: asset.digest.clone(),
    }
}

/// Decodes an asset of an inspection record; content that is not valid
/// base64 marks the record as damaged.
pub fn decode_asset(encoded: EncodedAsset) -> (asset: Result<PluginAssetBlob, StorageError>)
    ensures
        match asset {
            Ok(a) => a.path == encoded.path && a.media_type == encoded.media_type && a.digest
                == encoded.digest && base64_standard(a.content@) == encoded.content_base64@,
            Err(error) => error == StorageError::InvalidPluginConfiguration && forall|b: Seq<u8>|
                base64_standard(b) != encoded.content_base64@,
        },
        forall|content: Seq<u8>|
            base64_standard(content) == encoded.content_base64@ ==> (asset matches Ok(a)
                && a.content@ == content),
{
    match base64_decode(encoded.content_base64.as_str()) {
        Some(content) => {
            proof {
                assert forall|c: Seq<u8>| base64_standard(c) == encoded.content_base64@ implies c
                    == content@ by {
                    crate::encoding::lemma_base64_standard_injective(c, content@);
                }
            }
            Ok(
            PluginAssetBlob {
                path: encoded.path,
                media_type: encoded.media_type,
                content,
                digest: encoded.digest,
            },
        )
        },
        None => Err(StorageError::InvalidPluginConfiguration),
    }
}

} // verus!
