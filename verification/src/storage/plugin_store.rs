//! Plugin configurations, one per plugin and scope (the installation or an
//! organization), written with optimistic versioning.
use vstd::prelude::*;

use super::StorageError;
use crate::plugins::manifest::extensions::sha256_text_ok;
use crate::plugins::manifest::plugin_id_ok;
use crate::text::{chars_of, utf8_len};

use crate::ids::{lemma_uuid_text_distinct, uuid_hyphenated, uuid_text};

verus! {

/// The largest configuration value, in bytes of JSON.
pub const MAX_CONFIGURATION_BYTES: usize = 1048576;

/// A stored configuration. Identifiers are carried as their 128-bit values
/// and the value as JSON text.
#[derive(Debug, Clone, PartialEq, Eq)]
pub struct StoredPluginConfiguration {
    pub plugin_id: String,
    pub organization_id: Option<u128>,
    pub value_json: String,
    pub schema_digest: String,
    pub version: u64,
    pub updated_at: i64,
}

/// Where and how a configuration write lands.
#[derive(Debug, Clone, PartialEq, Eq)]
pub struct ConfigurationWritePlan {
    pub scope_key: String,
    pub scope_kind: &'static str,
    /// The version the stored row must have; 0 asks for a first insert.
    pub expected: i64,
}

/// The key of a configuration scope: `installation`, or `organization:`
/// followed by the organization's id.
pub open spec fn scope_key_of(organization_id: Option<u128>) -> Seq<char> {
    match organization_id {
        None => "installation"@,
        Some(id) => "organization:"@ + uuid_hyphenated(id),
    }
}

/// The key of the scope a configuration belongs to. Different scopes never
/// share a key.
pub fn scope_key(organization_id: Option<u128>) -> (key: String)
    ensures
        key@ == scope_key_of(organization_id),
        forall|other: Option<u128>| other != organization_id ==> scope_key_of(other) != key@,
{
    proof {
        reveal_strlit("installation");
        reveal_strlit("organization:");
    }
    match organization_id {
        None => {
            let key = "installation".to_owned();
            assert forall|other: Option<u128>| other != organization_id implies scope_key_of(other)
                != key@ by {
                let o = other->Some_0;
                assert(scope_key_of(other)[0] == 'o');
                assert(key@[0] == 'i');
            }
            key
        },
        Some(id) => {
            let mut key = "organization:".to_owned();
            let text = uuid_text(id);
            key.append(text.as_str());
            assert forall|other: Option<u128>| other != organization_id implies scope_key_of(other)
                != key@ by {
                match other {
                    None => {
                        assert(scope_key_of(other)[0] == 'i');
                        assert(key@[0] == 'o');
                    },
                    Some(o) => {
                        let p = "organization:"@;
                        lemma_uuid_text_distinct(o, id);
                        if scope_key_of(other) == key@ {
                            assert(scope_key_of(other).subrange(
                                p.len() as int,
                                scope_key_of(other).len() as int,
                            ) =~= uuid_hyphenated(o));
                            assert(key@.subrange(p.len() as int, key@.len() as int) =~= text@);
                        }
                    },
                }
            }
            key
        },
    }
}

/// The kind recorded with a scope.
pub fn scope_kind(organization_id: Option<u128>) -> (kind: &'static str)
    ensures
        kind@ == if organization_id is Some {
            "organization"@
        } else {
            "installation"@
        },
{
    if organization_id.is_some() {
        "organization"
    } else {
        "installation"
    }
}

fn plugin_id_valid(value: &str) -> (ok: bool)
    ensures
        ok == plugin_id_ok(value@),
{
    let chars = chars_of(value);
    if chars.len() == 0 || chars.len() > 64 {
        return false;
    }
    let mut i: usize = 0;
    while i < chars.len()
        invariant
            chars@ == value@,
            i <= chars@.len(),
            forall|k: int|
                0 <= k < i ==> crate::plugins::manifest::is_plugin_id_char(#[trigger] chars@[k]),
        decreases chars.len() - i,
    {
        let c = chars[i];
        if !(crate::text::char_is_ascii_lower(c) || crate::text::char_is_ascii_digit(c) || c
            == '-') {
            assert(!crate::plugins::manifest::is_plugin_id_char(chars@[i as int]));
            return false;
        }
        i = i + 1;
    }
    true
}

/// Refuses a malformed plugin id.
pub fn validate_plugin_id(value: &str) -> (result: Result<(), StorageError>)
    ensures
        result is Ok <==> plugin_id_ok(value@),
        result matches Err(error) ==> error == StorageError::InvalidPluginConfiguration,
{
    if !plugin_id_valid(value) {
        return Err(StorageError::InvalidPluginConfiguration);
    }
    Ok(())
}

/// Refuses a schema digest that is not 64 hex digits.
pub fn validate_digest(value: &str) -> (result: Result<(), StorageError>)
    ensures
        result is Ok <==> sha256_text_ok(value@),
        result matches Err(error) ==> error == StorageError::InvalidPluginConfiguration,
{
    let s = chars_of(value);
    if s.len() != 64 {
        return Err(StorageError::InvalidPluginConfiguration);
    }
    let mut i: usize = 0;
    while i < s.len()
        invariant
            s@ == value@,
            s@.len() == 64,
            i <= s@.len(),
            forall|k: int| 0 <= k < i ==> crate::text::is_ascii_hex(#[trigger] s@[k]),
        decreases s.len() - i,
    {
        if !crate::text::char_is_ascii_hex(s[i]) {
            assert(!crate::text::is_ascii_hex(s@[i as int]));
            return Err(StorageError::InvalidPluginConfiguration);
        }
        i = i + 1;
    }
    Ok(())
}

/// A version as the database stores it; larger values are refused.
pub fn as_i64(value: u64) -> (stored: Result<i64, StorageError>)
    ensures
        value <= i64::MAX ==> stored == Ok::<i64, StorageError>(value as i64),
        value > i64::MAX ==> stored == Err::<i64, StorageError>(
            StorageError::InvalidPluginConfiguration,
        ),
{
    if value > 9223372036854775807u64 {
        return Err(StorageError::InvalidPluginConfiguration);
    }
    Ok(value as i64)
}

/// A write is accepted for a valid plugin id, a representable expected
/// version, a valid schema digest and a value of at most 1 MiB of JSON.
pub open spec fn write_acceptable(
    plugin_id: Seq<char>,
    value_json: Seq<char>,
    schema_digest: Seq<char>,
    expected_version: u64,
) -> bool {
    &&& plugin_id_ok(plugin_id)
    &&& expected_version <= i64::MAX
    &&& sha256_text_ok(schema_digest)
    &&& utf8_len(value_json) <= MAX_CONFIGURATION_BYTES
}

/// Checks a configuration write and says where it lands.
pub fn prepare_configuration_write(
    plugin_id: &str,
    organization_id: Option<u128>,
    value_json: &str,
    schema_digest: &str,
    expected_version: u64,
) -> (plan: Result<ConfigurationWritePlan, StorageError>)
    ensures
        match plan {
            Ok(p) => write_acceptable(plugin_id@, value_json@, schema_digest@, expected_version)
                && p.scope_key@ == scope_key_of(organization_id) && p.expected == expected_version
                && p.scope_kind@ == (if organization_id is Some {
                "organization"@
            } else {
                "installation"@
            }),
            Err(error) => !write_acceptable(plugin_id@, value_json@, schema_digest@, expected_version)
                && error == StorageError::InvalidPluginConfiguration,
        },
{
    validate_plugin_id(plugin_id)?;
    let expected = as_i64(expected_version)?;
    validate_digest(schema_digest)?;
    let value = chars_of(value_json);
    if crate::text::utf8_len_at_least(value.as_slice(), MAX_CONFIGURATION_BYTES + 1) {
        return Err(StorageError::InvalidPluginConfiguration);
    }
    Ok(
        ConfigurationWritePlan {
            scope_key: scope_key(organization_id),
            scope_kind: scope_kind(organization_id),
            expected,
        },
    )
}

/// A configuration for an organization needs that organization to exist;
/// `found` is how many organizations of the installation have its id.
pub fn require_organization(organization_id: Option<u128>, found: i64) -> (result: Result<
    (),
    StorageError,
>)
    ensures
        (organization_id is None || found == 1) ==> result is Ok,
        !(organization_id is None || found == 1) ==> result == Err::<(), StorageError>(
            StorageError::OrganizationNotFound,
        ),
{
    if organization_id.is_some() && found != 1 {
        return Err(StorageError::OrganizationNotFound);
    }
    Ok(())
}

/// The stored configuration after a write; the write applied only when
/// exactly one row changed, otherwise another writer got there first.
pub fn finish_configuration_write(
    changed: u64,
    plugin_id: &str,
    organization_id: Option<u128>,
    value_json: &str,
    schema_digest: &str,
    expected_version: u64,
    now: i64,
) -> (stored: Result<StoredPluginConfiguration, StorageError>)
    ensures
        changed != 1 ==> stored == Err::<StoredPluginConfiguration, StorageError>(
            StorageError::PluginConfigurationVersionConflict,
        ),
        changed == 1 ==> (stored matches Ok(c) && c.plugin_id@ == plugin_id@ && c.organization_id
            == organization_id && c.value_json@ == value_json@ && c.schema_digest@ == schema_digest@
            && c.version == (if expected_version < u64::MAX {
            expected_version + 1
        } else {
            expected_version as int
        }) && c.updated_at == now),
{
    if changed != 1 {
        return Err(StorageError::PluginConfigurationVersionConflict);
    }
    Ok(
        StoredPluginConfiguration {
            plugin_id: plugin_id.to_owned(),
            organization_id,
            value_json: value_json.to_owned(),
            schema_digest: schema_digest.to_owned(),
            version: expected_version.saturating_add(1),
            updated_at: now,
        },
    )
}

/// Checks a configuration deletion: the plugin id must be valid and the
/// expected version a stored one (not 0, and representable); gives the
/// scope key and the version the row must have.
pub fn prepare_configuration_delete(
    plugin_id: &str,
    organization_id: Option<u128>,
    expected_version: u64,
) -> (plan: Result<(String, i64), StorageError>)
    ensures
        !plugin_id_ok(plugin_id@) ==> plan == Err::<(String, i64), StorageError>(
            StorageError::InvalidPluginConfiguration,
        ),
        plugin_id_ok(plugin_id@) && expected_version == 0 ==> plan == Err::<(String, i64), StorageError>(
            StorageError::PluginConfigurationVersionConflict,
        ),
        plugin_id_ok(plugin_id@) && expected_version > i64::MAX ==> plan == Err::<
            (String, i64),
            StorageError,
        >(StorageError::InvalidPluginConfiguration),
        plugin_id_ok(plugin_id@) && 0 < expected_version <= i64::MAX ==> (plan matches Ok((key, expected))
            && key@ == scope_key_of(organization_id) && expected == expected_version),
{
    validate_plugin_id(plugin_id)?;
    if expected_version == 0 {
        return Err(StorageError::PluginConfigurationVersionConflict);
    }
    let expected = as_i64(expected_version)?;
    Ok((scope_key(organization_id), expected))
}

/// A deletion applied only when exactly one row went away.
pub fn ensure_configuration_changed(changed: u64) -> (result: Result<(), StorageError>)
    ensures
        changed == 1 ==> result is Ok,
        changed != 1 ==> result == Err::<(), StorageError>(
            StorageError::PluginConfigurationVersionConflict,
        ),
{
    if changed != 1 {
        return Err(StorageError::PluginConfigurationVersionConflict);
    }
    Ok(())
}

/// Whether a conditional write with `expected` changes the row of a scope
/// whose stored version is `stored` (`None` when nothing is stored): a
/// first write needs an empty scope, later writes the same version.
pub open spec fn write_applies(stored: Option<u64>, expected: u64) -> bool {
    if expected == 0 {
        stored is None
    } else {
        stored == Some(expected)
    }
}

/// Two writers that read the same version cannot both succeed: once one
/// write applied, the scope holds the next version and a write that still
/// expects the old one conflicts.
pub proof fn lemma_stale_write_conflicts(stored: Option<u64>, expected: u64)
    requires
        write_applies(stored, expected),
        expected < u64::MAX,
    ensures
        !write_applies(Some((expected + 1) as u64), expected),
{
}

/// The version stored for a scope, 0 when nothing is stored.
pub open spec fn version_or_zero(stored: Option<u64>) -> u64 {
    match stored {
        Some(v) => v,
        None => 0,
    }
}

/// A whole configuration write succeeds: it is acceptable, its
/// organization exists, and it expects the stored version.
pub open spec fn write_succeeds(
    stored: Option<u64>,
    organization_found: i64,
    plugin_id: Seq<char>,
    organization_id: Option<u128>,
    value_json: Seq<char>,
    schema_digest: Seq<char>,
    expected_version: u64,
) -> bool {
    &&& write_acceptable(plugin_id, value_json, schema_digest, expected_version)
    &&& (organization_id is None || organization_found == 1)
    &&& write_applies(stored, expected_version)
}

/// What a whole configuration write returns: `Ok` exactly when it
/// succeeds, with the written row; otherwise the first refusal among an
/// unacceptable write, a missing organization and a version conflict.
pub open spec fn write_outcome(
    stored: Option<u64>,
    organization_found: i64,
    plugin_id: Seq<char>,
    organization_id: Option<u128>,
    value_json: Seq<char>,
    schema_digest: Seq<char>,
    expected_version: u64,
    now: i64,
    result: Result<StoredPluginConfiguration, StorageError>,
) -> bool {
    &&& result is Ok <==> write_succeeds(
        stored,
        organization_found,
        plugin_id,
        organization_id,
        value_json,
        schema_digest,
        expected_version,
    )
    &&& !write_acceptable(plugin_id, value_json, schema_digest, expected_version) ==> result
        == Err::<StoredPluginConfiguration, StorageError>(StorageError::InvalidPluginConfiguration)
    &&& write_acceptable(plugin_id, value_json, schema_digest, expected_version) && !(
    organization_id is None || organization_found == 1) ==> result == Err::<
        StoredPluginConfiguration,
        StorageError,
    >(StorageError::OrganizationNotFound)
    &&& write_acceptable(plugin_id, value_json, schema_digest, expected_version) && (
    organization_id is None || organization_found == 1) && !write_applies(stored, expected_version)
        ==> result == Err::<StoredPluginConfiguration, StorageError>(
        StorageError::PluginConfigurationVersionConflict,
    )
    &&& result matches Ok(c) ==> c.plugin_id@ == plugin_id && c.organization_id == organization_id
        && c.value_json@ == value_json && c.schema_digest@ == schema_digest && c.version
        == expected_version + 1 && c.updated_at == now
}

/// A whole configuration write, given what the store holds for its scope
/// (`stored`, the stored version if any) and how many organizations of
/// the installation have its organization's id: the checks, then the
/// conditional update, which changes one row exactly when the write
/// expects the stored version.
pub fn configuration_write(
    stored: Option<u64>,
    organization_found: i64,
    plugin_id: &str,
    organization_id: Option<u128>,
    value_json: &str,
    schema_digest: &str,
    expected_version: u64,
    now: i64,
) -> (result: Result<StoredPluginConfiguration, StorageError>)
    ensures
        write_outcome(
            stored,
            organization_found,
            plugin_id@,
            organization_id,
            value_json@,
            schema_digest@,
            expected_version,
            now,
            result,
        ),
{
    match prepare_configuration_write(
        plugin_id,
        organization_id,
        value_json,
        schema_digest,
        expected_version,
    ) {
        Ok(_) => {},
        Err(e) => {
            return Err(e);
        },
    }
    match require_organization(organization_id, organization_found) {
        Ok(()) => {},
        Err(e) => {
            return Err(e);
        },
    }
    let applies = if expected_version == 0 {
        stored.is_none()
    } else {
        match stored {
            Some(v) => v == expected_version,
            None => false,
        }
    };
    let changed: u64 = if applies {
        1
    } else {
        0
    };
    finish_configuration_write(
        changed,
        plugin_id,
        organization_id,
        value_json,
        schema_digest,
        expected_version,
        now,
    )
}

/// A stored configuration as the store model holds it: its value, schema
/// digest, version and time of the last write.
pub open spec fn stored_row(c: StoredPluginConfiguration) -> (Seq<char>, Seq<char>, u64, i64) {
    (c.value_json@, c.schema_digest@, c.version, c.updated_at)
}

/// The configuration rows of an installation, by plugin id and scope (the
/// organization, or none for the installation scope).
pub open spec fn read_configuration(
    store: Map<(Seq<char>, Option<u128>), (Seq<char>, Seq<char>, u64, i64)>,
    plugin_id: Seq<char>,
    organization_id: Option<u128>,
) -> Option<(Seq<char>, Seq<char>, u64, i64)> {
    if store.contains_key((plugin_id, organization_id)) {
        Some(store[(plugin_id, organization_id)])
    } else {
        None
    }
}

/// The version stored for a scope, if a row is stored there.
pub open spec fn stored_version(
    store: Map<(Seq<char>, Option<u128>), (Seq<char>, Seq<char>, u64, i64)>,
    plugin_id: Seq<char>,
    organization_id: Option<u128>,
) -> Option<u64> {
    match read_configuration(store, plugin_id, organization_id) {
        Some(row) => Some(row.2),
        None => None,
    }
}

/// Every stored version is one the store can hold: at least 1 and at most
/// `i64::MAX`.
pub open spec fn versions_stored(
    store: Map<(Seq<char>, Option<u128>), (Seq<char>, Seq<char>, u64, i64)>,
) -> bool {
    forall|k: (Seq<char>, Option<u128>)|
        #[trigger] store.contains_key(k) ==> 1 <= store[k].2 <= i64::MAX
}

/// The rows after a write to a scope that returned `result`: the written
/// row replaces the scope's row on success; a refused write changes
/// nothing.
pub open spec fn store_after_write(
    store: Map<(Seq<char>, Option<u128>), (Seq<char>, Seq<char>, u64, i64)>,
    plugin_id: Seq<char>,
    organization_id: Option<u128>,
    result: Result<StoredPluginConfiguration, StorageError>,
) -> Map<(Seq<char>, Option<u128>), (Seq<char>, Seq<char>, u64, i64)> {
    match result {
        Ok(c) => store.insert((plugin_id, organization_id), stored_row(c)),
        Err(_) => store,
    }
}

/// The rows after a deletion from a scope that returned `result`.
pub open spec fn store_after_delete(
    store: Map<(Seq<char>, Option<u128>), (Seq<char>, Seq<char>, u64, i64)>,
    plugin_id: Seq<char>,
    organization_id: Option<u128>,
    result: Result<(), StorageError>,
) -> Map<(Seq<char>, Option<u128>), (Seq<char>, Seq<char>, u64, i64)> {
    match result {
        Ok(()) => store.remove((plugin_id, organization_id)),
        Err(_) => store,
    }
}

/// A configuration write and then a read of its scope: where the stored
/// versions are ones the store holds, the write succeeds exactly when it
/// is acceptable, its organization exists and it expects the version
/// stored for the scope (0 when none is). The read then gives back the
/// written value and digest, the next version and the write's time; every
/// other scope reads as before; a refused write changes nothing.
pub proof fn lemma_write_then_read(
    store: Map<(Seq<char>, Option<u128>), (Seq<char>, Seq<char>, u64, i64)>,
    organization_found: i64,
    plugin_id: Seq<char>,
    organization_id: Option<u128>,
    value_json: Seq<char>,
    schema_digest: Seq<char>,
    expected_version: u64,
    now: i64,
    result: Result<StoredPluginConfiguration, StorageError>,
)
    requires
        versions_stored(store),
        write_outcome(
            stored_version(store, plugin_id, organization_id),
            organization_found,
            plugin_id,
            organization_id,
            value_json,
            schema_digest,
            expected_version,
            now,
            result,
        ),
    ensures
        result is Ok <==> (write_acceptable(plugin_id, value_json, schema_digest, expected_version)
            && (organization_id is None || organization_found == 1) && expected_version
            == version_or_zero(stored_version(store, plugin_id, organization_id))),
        result is Ok ==> read_configuration(
            store_after_write(store, plugin_id, organization_id, result),
            plugin_id,
            organization_id,
        ) == Some((value_json, schema_digest, (expected_version + 1) as u64, now)),
        result is Ok ==> versions_stored(store_after_write(store, plugin_id, organization_id, result))
            || expected_version == i64::MAX,
        forall|p: Seq<char>, o: Option<u128>|
            (p, o) != (plugin_id, organization_id) ==> #[trigger] read_configuration(
                store_after_write(store, plugin_id, organization_id, result),
                p,
                o,
            ) == read_configuration(store, p, o),
        result is Err ==> store_after_write(store, plugin_id, organization_id, result) == store,
{
    let stored = stored_version(store, plugin_id, organization_id);
    if let Some(v) = stored {
        assert(store.contains_key((plugin_id, organization_id)));
    }
    let after = store_after_write(store, plugin_id, organization_id, result);
    assert forall|p: Seq<char>, o: Option<u128>|
        (p, o) != (plugin_id, organization_id) implies #[trigger] read_configuration(after, p, o)
        == read_configuration(store, p, o) by {
        if result is Ok {
            assert(after.contains_key((p, o)) == store.contains_key((p, o)));
        }
    }
}

/// The outcome of a configuration deletion given the version stored for
/// its scope: the plugin id must be valid and the expected version a
/// stored one (not 0, and representable), and the conditional deletion
/// removes the row only when it still has that version.
pub open spec fn delete_outcome(stored: Option<u64>, plugin_id: Seq<char>, expected_version: u64) -> Result<
    (),
    StorageError,
> {
    if !plugin_id_ok(plugin_id) {
        Err(StorageError::InvalidPluginConfiguration)
    } else if expected_version == 0 {
        Err(StorageError::PluginConfigurationVersionConflict)
    } else if expected_version > i64::MAX {
        Err(StorageError::InvalidPluginConfiguration)
    } else if stored != Some(expected_version) {
        Err(StorageError::PluginConfigurationVersionConflict)
    } else {
        Ok(())
    }
}

/// A whole configuration deletion, given the version stored for its scope
/// (`None` when nothing is stored): the checks, then the conditional
/// deletion, which removes one row exactly when the stored version is the
/// expected one.
pub fn configuration_delete(
    stored: Option<u64>,
    plugin_id: &str,
    organization_id: Option<u128>,
    expected_version: u64,
) -> (result: Result<(), StorageError>)
    ensures
        result == delete_outcome(stored, plugin_id@, expected_version),
{
    match prepare_configuration_delete(plugin_id, organization_id, expected_version) {
        Ok(_) => {},
        Err(e) => {
            return Err(e);
        },
    }
    let changed: u64 = match stored {
        Some(v) => if v == expected_version {
            1
        } else {
            0
        },
        None => 0,
    };
    match ensure_configuration_changed(changed) {
        Ok(()) => Ok(()),
        Err(e) => Err(e),
    }
}

/// A configuration deletion and then a read of its scope: the deletion
/// succeeds exactly when the plugin id is valid and the scope holds a row
/// of the expected version; the read then finds nothing, every other scope
/// reads as before, and a refused deletion changes nothing.
pub proof fn lemma_delete_then_read(
    store: Map<(Seq<char>, Option<u128>), (Seq<char>, Seq<char>, u64, i64)>,
    plugin_id: Seq<char>,
    organization_id: Option<u128>,
    expected_version: u64,
    result: Result<(), StorageError>,
)
    requires
        versions_stored(store),
        result == delete_outcome(
            stored_version(store, plugin_id, organization_id),
            plugin_id,
            expected_version,
        ),
    ensures
        result is Ok <==> (plugin_id_ok(plugin_id) && stored_version(store, plugin_id, organization_id)
            == Some(expected_version)),
        result is Ok ==> read_configuration(
            store_after_delete(store, plugin_id, organization_id, result),
            plugin_id,
            organization_id,
        ) is None,
        result is Ok ==> versions_stored(store_after_delete(store, plugin_id, organization_id, result)),
        forall|p: Seq<char>, o: Option<u128>|
            (p, o) != (plugin_id, organization_id) ==> #[trigger] read_configuration(
                store_after_delete(store, plugin_id, organization_id, result),
                p,
                o,
            ) == read_configuration(store, p, o),
        result is Err ==> store_after_delete(store, plugin_id, organization_id, result) == store,
{
    let key = (plugin_id, organization_id);
    if store.contains_key(key) {
        assert(1 <= store[key].2 <= i64::MAX);
    }
    let after = store_after_delete(store, plugin_id, organization_id, result);
    assert forall|p: Seq<char>, o: Option<u128>|
        (p, o) != (plugin_id, organization_id) implies #[trigger] read_configuration(after, p, o)
        == read_configuration(store, p, o) by {
        if result is Ok {
            assert(after.contains_key((p, o)) == store.contains_key((p, o)));
        }
    }
}

} // verus!
