//! Schema versions and the upgrade of stored templates to node-pool
//! placement and a single temporary-storage budget.
use vstd::prelude::*;

use vstd::utf8::encode_utf8;

use super::node_pool_store::{ResolvedPlacement, WorkspacePlacement};
use super::StorageError;
use crate::digest::sha256_hex;
use crate::text::{
    char_is_ascii_digit, char_is_ascii_lower, chars_lt, chars_of, is_ascii_digit, is_ascii_lower,
    text_lt,
};

verus! {

/// The schema version this code writes.
pub const SCHEMA_VERSION: i64 = 23;

/// The one older version that is upgraded in place.
pub const UPGRADABLE_VERSION: i64 = 22;

/// The version whose stored documents still carry per-template
/// environment values; it is bridged to `BRIDGE_TARGET_VERSION`.
pub const BRIDGED_VERSION: i64 = 19;

/// The version a bridged database records.
pub const BRIDGE_TARGET_VERSION: i64 = 20;

/// What a migration run does, given the recorded version.
#[derive(Debug, Clone, Copy, PartialEq, Eq)]
pub enum MigrationStep {
    /// The schema is current; nothing changes.
    Current,
    /// The schema is one version behind and is upgraded in place.
    Upgrade,
    /// The database is empty and receives the current schema.
    Bootstrap,
    /// The database still holds per-template environment values: its
    /// template documents, workspace snapshots and replayable responses
    /// are cleansed (see `migration_v20::upgrade_to_v20`) and it records
    /// `BRIDGE_TARGET_VERSION`; any value in a legacy environment rolls
    /// the whole run back.
    BridgeToV20,
}

/// The step for a database with the given recorded version (0 when none is
/// recorded) and number of application tables. Any other version is
/// refused without touching the data.
pub open spec fn migration_step_of(version: i64, application_tables: i64) -> Result<
    MigrationStep,
    StorageError,
> {
    if version == SCHEMA_VERSION {
        Ok(MigrationStep::Current)
    } else if version == UPGRADABLE_VERSION {
        Ok(MigrationStep::Upgrade)
    } else if version == BRIDGED_VERSION {
        Ok(MigrationStep::BridgeToV20)
    } else if version == 0 && application_tables == 0 {
        Ok(MigrationStep::Bootstrap)
    } else {
        Err(StorageError::UnsupportedDatabaseVersion)
    }
}

/// Decides what a migration run does.
pub fn migration_step(version: i64, application_tables: i64) -> (step: Result<
    MigrationStep,
    StorageError,
>)
    ensures
        step == migration_step_of(version, application_tables),
{
    if version == SCHEMA_VERSION {
        Ok(MigrationStep::Current)
    } else if version == UPGRADABLE_VERSION {
        Ok(MigrationStep::Upgrade)
    } else if version == BRIDGED_VERSION {
        Ok(MigrationStep::BridgeToV20)
    } else if version == 0 && application_tables == 0 {
        Ok(MigrationStep::Bootstrap)
    } else {
        Err(StorageError::UnsupportedDatabaseVersion)
    }
}

/// The version recorded once a step has run.
pub open spec fn version_after(step: MigrationStep) -> i64 {
    match step {
        MigrationStep::BridgeToV20 => BRIDGE_TARGET_VERSION,
        _ => SCHEMA_VERSION,
    }
}

/// The version a step records.
pub fn recorded_version(step: MigrationStep) -> (version: i64)
    ensures
        version == version_after(step),
{
    match step {
        MigrationStep::BridgeToV20 => BRIDGE_TARGET_VERSION,
        _ => SCHEMA_VERSION,
    }
}

/// Migrating is idempotent: every accepted step but the bridge leaves the
/// current version behind, and a second run on it changes nothing.
pub proof fn lemma_migration_idempotent(version: i64, application_tables: i64, later_tables: i64)
    requires
        migration_step_of(version, application_tables) is Ok,
        version != BRIDGED_VERSION,
    ensures
        migration_step_of(
            version_after(migration_step_of(version, application_tables)->Ok_0),
            later_tables,
        ) == Ok::<MigrationStep, StorageError>(MigrationStep::Current),
{
}

/// A database that holds data under no recorded version, or under a
/// version other than the current, the upgradable and the bridged one, is
/// refused.
pub proof fn lemma_unknown_versions_refused(version: i64, application_tables: i64)
    requires
        version != SCHEMA_VERSION,
        version != UPGRADABLE_VERSION,
        version != BRIDGED_VERSION,
        version != 0 || application_tables != 0,
    ensures
        migration_step_of(version, application_tables) == Err::<MigrationStep, StorageError>(
            StorageError::UnsupportedDatabaseVersion,
        ),
{
}

/// The scratch budgets an old template had when it left them unset.
pub const DEFAULT_BUILD_SCRATCH_GIB: u64 = 12;

pub const DEFAULT_BUILDKIT_CACHE_GIB: u64 = 8;

pub const DEFAULT_CODEX_SCRATCH_GIB: u64 = 2;

/// The bounds of the temporary-storage budget.
pub const MIN_TEMPORARY_STORAGE_GIB: u64 = 1;

pub const MAX_TEMPORARY_STORAGE_GIB: u64 = 2048;

/// The temporary-storage budget of an upgraded template: the explicit
/// budget when there is one, else the old scratch budgets added up (each
/// defaulting, the sum stopping at `u64::MAX`), kept within 1 to 2048 GiB.
pub open spec fn migrated_temporary_storage(
    explicit: Option<u64>,
    build_scratch: Option<u64>,
    buildkit_cache: Option<u64>,
    codex_scratch: Option<u64>,
) -> int {
    let b = match build_scratch {
        Some(v) => v as int,
        None => DEFAULT_BUILD_SCRATCH_GIB as int,
    };
    let k = match buildkit_cache {
        Some(v) => v as int,
        None => DEFAULT_BUILDKIT_CACHE_GIB as int,
    };
    let c = match codex_scratch {
        Some(v) => v as int,
        None => DEFAULT_CODEX_SCRATCH_GIB as int,
    };
    let total = if b + k + c > u64::MAX {
        u64::MAX as int
    } else {
        b + k + c
    };
    let chosen = match explicit {
        Some(v) => v as int,
        None => total,
    };
    if chosen < MIN_TEMPORARY_STORAGE_GIB {
        MIN_TEMPORARY_STORAGE_GIB as int
    } else if chosen > MAX_TEMPORARY_STORAGE_GIB {
        MAX_TEMPORARY_STORAGE_GIB as int
    } else {
        chosen
    }
}

/// The temporary-storage budget of an upgraded template.
pub fn temporary_storage_gib(
    explicit: Option<u64>,
    build_scratch: Option<u64>,
    buildkit_cache: Option<u64>,
    codex_scratch: Option<u64>,
) -> (gib: u64)
    ensures
        gib == migrated_temporary_storage(explicit, build_scratch, buildkit_cache, codex_scratch),
        MIN_TEMPORARY_STORAGE_GIB <= gib <= MAX_TEMPORARY_STORAGE_GIB,
{
    let b = match build_scratch {
        Some(v) => v,
        None => DEFAULT_BUILD_SCRATCH_GIB,
    };
    let k = match buildkit_cache {
        Some(v) => v,
        None => DEFAULT_BUILDKIT_CACHE_GIB,
    };
    let c = match codex_scratch {
        Some(v) => v,
        None => DEFAULT_CODEX_SCRATCH_GIB,
    };
    let total = b.saturating_add(k).saturating_add(c);
    let chosen = match explicit {
        Some(v) => v,
        None => total,
    };
    if chosen < MIN_TEMPORARY_STORAGE_GIB {
        MIN_TEMPORARY_STORAGE_GIB
    } else if chosen > MAX_TEMPORARY_STORAGE_GIB {
        MAX_TEMPORARY_STORAGE_GIB
    } else {
        chosen
    }
}

/// The texts are in strictly increasing order.
pub open spec fn strictly_sorted(values: Seq<String>) -> bool {
    forall|i: int, j: int| 0 <= i < j < values.len() ==> text_lt(#[trigger] values[i]@, #[trigger] values[j]@)
}

/// The text occurs among the values.
pub open spec fn holds_text(values: Seq<String>, text: Seq<char>) -> bool {
    exists|i: int| 0 <= i < values.len() && #[trigger] values[i]@ == text
}

fn position_of(sorted: &Vec<String>, text: &[char]) -> (position: (usize, bool))
    requires
        strictly_sorted(sorted@),
    ensures
        position.0 <= sorted@.len(),
        position.1 <==> holds_text(sorted@, text@),
        position.1 ==> sorted@[position.0 as int]@ == text@,
        !position.1 ==> forall|i: int| 0 <= i < position.0 ==> text_lt(#[trigger] sorted@[i]@, text@),
        !position.1 ==> forall|i: int|
            position.0 <= i < sorted@.len() ==> text_lt(text@, #[trigger] sorted@[i]@),
{
    let mut p: usize = 0;
    while p < sorted.len()
        invariant
            strictly_sorted(sorted@),
            p <= sorted@.len(),
            forall|i: int| 0 <= i < p ==> text_lt(#[trigger] sorted@[i]@, text@),
        decreases sorted.len() - p,
    {
        let current = crate::text::chars_of(sorted[p].as_str());
        if crate::text::chars_eq(current.as_slice(), text) {
            return (p, true);
        }
        if !chars_lt(current.as_slice(), text) {
            proof {
                crate::text::lemma_text_lt_total(sorted@[p as int]@, text@);
                assert forall|i: int| p <= i < sorted@.len() implies text_lt(
                    text@,
                    #[trigger] sorted@[i]@,
                ) by {
                    if i > p {
                        crate::text::lemma_text_lt_transitive(text@, sorted@[p as int]@, sorted@[i]@);
                    }
                }
                assert(!holds_text(sorted@, text@)) by {
                    if holds_text(sorted@, text@) {
                        let w = choose|i: int| 0 <= i < sorted@.len() && #[trigger] sorted@[i]@ == text@;
                        if w < p {
                            crate::text::lemma_text_lt_irreflexive(text@);
                        } else {
                            crate::text::lemma_text_lt_irreflexive(text@);
                        }
                    }
                }
            }
            return (p, false);
        }
        p = p + 1;
    }
    proof {
        assert(!holds_text(sorted@, text@)) by {
            if holds_text(sorted@, text@) {
                let w = choose|i: int| 0 <= i < sorted@.len() && #[trigger] sorted@[i]@ == text@;
                crate::text::lemma_text_lt_irreflexive(text@);
            }
        }
    }
    (p, false)
}

/// The distinct host names, sorted: what the upgrade keeps of a template's
/// required or preferred nodes.
pub fn sorted_unique(values: Vec<String>) -> (sorted: Vec<String>)
    ensures
        strictly_sorted(sorted@),
        forall|t: Seq<char>| holds_text(sorted@, t) <==> holds_text(values@, t),
{
    let mut sorted: Vec<String> = Vec::new();
    let mut n: usize = 0;
    while n < values.len()
        invariant
            n <= values@.len(),
            strictly_sorted(sorted@),
            forall|t: Seq<char>| holds_text(sorted@, t) <==> holds_text(values@.take(n as int), t),
        decreases values.len() - n,
    {
        let text = crate::text::chars_of(values[n].as_str());
        let (p, found) = position_of(&sorted, text.as_slice());
        let ghost old_sorted = sorted@;
        if !found {
            sorted.insert(p, values[n].clone());
            proof {
                assert(sorted@ =~= old_sorted.insert(p as int, values@[n as int]));
                assert forall|i: int, j: int| 0 <= i < j < sorted@.len() implies text_lt(
                    #[trigger] sorted@[i]@,
                    #[trigger] sorted@[j]@,
                ) by {
                    if j < p {
                    } else if j == p {
                    } else if i < p {
                        crate::text::lemma_text_lt_transitive(
                            sorted@[i]@,
                            text@,
                            sorted@[j]@,
                        );
                    } else if i == p {
                    } else {
                    }
                }
            }
        }
        proof {
            assert(values@.take(n + 1) =~= values@.take(n as int).push(values@[n as int]));
            assert forall|t: Seq<char>| holds_text(sorted@, t) <==> holds_text(
                values@.take(n + 1),
                t,
            ) by {
                if holds_text(values@.take(n + 1), t) {
                    let w = choose|i: int|
                        0 <= i < values@.take(n + 1).len() && #[trigger] values@.take(n + 1)[i]@
                            == t;
                    if w < n {
                        assert(values@.take(n as int)[w] == values@.take(n + 1)[w]);
                        assert(holds_text(values@.take(n as int), t));
                        assert(holds_text(old_sorted, t));
                        let v = choose|i: int| 0 <= i < old_sorted.len() && #[trigger] old_sorted[i]@ == t;
                        if !found {
                            if v < p {
                                assert(sorted@[v] == old_sorted[v]);
                            } else {
                                assert(sorted@[v + 1] == old_sorted[v]);
                            }
                        }
                    } else {
                        if !found {
                            assert(sorted@[p as int]@ == t);
                        } else {
                            assert(sorted@[p as int]@ == t);
                        }
                    }
                }
                if holds_text(sorted@, t) {
                    let v = choose|i: int| 0 <= i < sorted@.len() && #[trigger] sorted@[i]@ == t;
                    if !found {
                        if v < p {
                            assert(old_sorted[v]@ == t);
                            assert(holds_text(old_sorted, t));
                        } else if v == p {
                            assert(values@.take(n + 1)[n as int]@ == t);
                        } else {
                            assert(old_sorted[v - 1]@ == t);
                            assert(holds_text(old_sorted, t));
                        }
                    } else {
                        assert(holds_text(old_sorted, t));
                    }
                    if holds_text(values@.take(n as int), t) {
                        let w = choose|i: int|
                            0 <= i < values@.take(n as int).len() && #[trigger] values@.take(
                                n as int,
                            )[i]@ == t;
                        assert(values@.take(n + 1)[w] == values@.take(n as int)[w]);
                    } else {
                        assert(values@.take(n + 1)[n as int]@ == t);
                    }
                }
            }
        }
        n = n + 1;
    }
    proof {
        assert(values@.take(values@.len() as int) =~= values@);
    }
    sorted
}

/// The private placement an upgraded template gets from its old node
/// selector and node names: none when it had none of them, else the
/// selector with the distinct node names in sorted order.
pub fn migrated_placement(
    selector: Vec<(String, String)>,
    required_nodes: Vec<String>,
    preferred_nodes: Vec<String>,
) -> (placement: Option<ResolvedPlacement>)
    ensures
        (selector@.len() == 0 && required_nodes@.len() == 0 && preferred_nodes@.len() == 0)
            ==> placement is None,
        !(selector@.len() == 0 && required_nodes@.len() == 0 && preferred_nodes@.len() == 0)
            ==> (placement matches Some(p) && p.selector@ == selector@ && strictly_sorted(
            p.required_hosts@,
        ) && strictly_sorted(p.preferred_hosts@) && (forall|t: Seq<char>|
            holds_text(p.required_hosts@, t) <==> holds_text(required_nodes@, t)) && (forall|
            t: Seq<char>,
        | holds_text(p.preferred_hosts@, t) <==> holds_text(preferred_nodes@, t))),
{
    if selector.len() == 0 && required_nodes.len() == 0 && preferred_nodes.len() == 0 {
        return None;
    }
    Some(
        ResolvedPlacement {
            selector,
            required_hosts: sorted_unique(required_nodes),
            preferred_hosts: sorted_unique(preferred_nodes),
        },
    )
}

/// A node pool created for a placement that an old template carried.
#[derive(Debug, Clone, PartialEq, Eq)]
pub struct ImportedPool {
    pub name: String,
    pub display_name: String,
    pub placement: ResolvedPlacement,
}

/// The name of the pool for a placement: `placement-` and the first 24 hex
/// digits of the SHA-256 digest of the placement's JSON.
pub open spec fn imported_pool_name_of(placement_json: Seq<char>) -> Seq<char> {
    "placement-"@ + sha256_hex(encode_utf8(placement_json)).subrange(0, 24)
}

/// Names the pool for a placement after its JSON encoding, so the same
/// placement always lands in the same pool.
pub fn imported_pool_name(placement_json: &str) -> (name: String)
    ensures
        name@ == imported_pool_name_of(placement_json@),
{
    let digest = crate::digest::hash_secret(placement_json);
    let hex = crate::text::chars_of(digest.as_str());
    let mut name = "placement-".to_owned();
    let mut prefix: Vec<char> = Vec::new();
    let mut i: usize = 0;
    while i < 24
        invariant
            hex@.len() == 64,
            i <= 24,
            prefix@ == hex@.subrange(0, i as int),
        decreases 24 - i,
    {
        prefix.push(hex[i]);
        assert(hex@.subrange(0, i + 1) =~= hex@.subrange(0, i as int).push(hex@[i as int]));
        i = i + 1;
    }
    let prefix = crate::text::string_from_chars(prefix.as_slice());
    name.append(prefix.as_str());
    name
}

/// The placement an upgraded template gets for its private placement, and
/// the pool to create for it: the template allows that pool only and uses
/// it by default.
pub fn imported_placement(placement_json: &str, placement: ResolvedPlacement) -> (result: (
    WorkspacePlacement,
    ImportedPool,
))
    ensures
        result.0.default_node_pool@ == imported_pool_name_of(placement_json@),
        result.0.allowed_node_pools@.len() == 1,
        result.0.allowed_node_pools@[0]@ == imported_pool_name_of(placement_json@),
        result.1.name@ == imported_pool_name_of(placement_json@),
        result.1.display_name@ == "Custom placement"@,
        result.1.placement == placement,
{
    let name = imported_pool_name(placement_json);
    let mut allowed: Vec<String> = Vec::new();
    allowed.push(name.clone());
    (
        WorkspacePlacement { default_node_pool: name.clone(), allowed_node_pools: allowed },
        ImportedPool { name, display_name: "Custom placement".to_owned(), placement },
    )
}

/// A pool created by the upgrade may already exist, from another template
/// with the same placement; it must then hold exactly that placement.
pub fn ensure_imported_pool_matches(stored_json: &str, placement_json: &str) -> (result: Result<
    (),
    StorageError,
>)
    ensures
        stored_json@ == placement_json@ ==> result is Ok,
        stored_json@ != placement_json@ ==> result == Err::<(), StorageError>(
            StorageError::InvalidTemplate,
        ),
{
    let stored = crate::text::chars_of(stored_json);
    if !crate::text::chars_eq_str(stored.as_slice(), placement_json) {
        return Err(StorageError::InvalidTemplate);
    }
    Ok(())
}

/// A template amount as the database stores it; larger values are refused.
pub fn as_i64(value: u64) -> (stored: Result<i64, StorageError>)
    ensures
        value <= i64::MAX ==> stored == Ok::<i64, StorageError>(value as i64),
        value > i64::MAX ==> stored == Err::<i64, StorageError>(StorageError::InvalidTemplate),
{
    if value > 9223372036854775807u64 {
        return Err(StorageError::InvalidTemplate);
    }
    Ok(value as i64)
}

/// A lower-case letter or a digit, which a DNS label starts and ends with.
pub open spec fn dns_edge(c: char) -> bool {
    is_ascii_lower(c) || is_ascii_digit(c)
}

/// A DNS label: 1 to 63 lower-case letters, digits and hyphens, starting
/// and ending with a letter or digit. Its characters are ASCII, so its
/// length in characters is its length in bytes.
pub open spec fn dns_label(value: Seq<char>) -> bool {
    &&& 0 < value.len() <= 63
    &&& forall|i: int| 0 <= i < value.len() ==> dns_edge(#[trigger] value[i]) || value[i] == '-'
    &&& dns_edge(value[0])
    &&& dns_edge(value.last())
}

/// Whether `value` is a DNS label.
pub fn valid_dns_label(value: &str) -> (valid: bool)
    ensures
        valid == dns_label(value@),
{
    let chars = chars_of(value);
    let n = chars.len();
    if n == 0 || n > 63 {
        return false;
    }
    let mut i: usize = 0;
    while i < n
        invariant
            n == chars@.len(),
            chars@ == value@,
            i <= n,
            forall|k: int| 0 <= k < i ==> dns_edge(#[trigger] chars@[k]) || chars@[k] == '-',
        decreases n - i,
    {
        let c = chars[i];
        if !(char_is_ascii_lower(c) || char_is_ascii_digit(c) || c == '-') {
            return false;
        }
        i = i + 1;
    }
    let first = chars[0];
    let last = chars[n - 1];
    (char_is_ascii_lower(first) || char_is_ascii_digit(first)) && (char_is_ascii_lower(last)
        || char_is_ascii_digit(last))
}

/// The runtime columns of a workspace row checked before the schema makes
/// them an invariant, with the short id the row's id determines.
pub open spec fn runtime_row_valid(
    row_installation: Seq<char>,
    configured_installation: Seq<char>,
    short_id: Seq<char>,
    expected_short_id: Seq<char>,
    scope: Seq<char>,
    namespace: Seq<char>,
) -> bool {
    &&& row_installation == configured_installation
    &&& short_id == expected_short_id
    &&& (scope == "dedicated"@ || scope == "shared"@)
    &&& dns_label(namespace)
}

/// Checks the runtime columns of one workspace row: it belongs to the
/// installation, its short id is the one its id determines, its namespace
/// scope is known and its namespace is a DNS label.
pub fn check_runtime_row(
    row_installation: &str,
    configured_installation: &str,
    short_id: &str,
    expected_short_id: &str,
    scope: &str,
    namespace: &str,
) -> (result: Result<(), StorageError>)
    ensures
        runtime_row_valid(
            row_installation@,
            configured_installation@,
            short_id@,
            expected_short_id@,
            scope@,
            namespace@,
        ) ==> result is Ok,
        !runtime_row_valid(
            row_installation@,
            configured_installation@,
            short_id@,
            expected_short_id@,
            scope@,
            namespace@,
        ) ==> result == Err::<(), StorageError>(StorageError::InvalidWorkspace),
{
    let installation = chars_of(row_installation);
    let short = chars_of(short_id);
    let scope_chars = chars_of(scope);
    let known_scope = crate::text::chars_eq_str(scope_chars.as_slice(), "dedicated")
        || crate::text::chars_eq_str(scope_chars.as_slice(), "shared");
    if !crate::text::chars_eq_str(installation.as_slice(), configured_installation)
        || !crate::text::chars_eq_str(short.as_slice(), expected_short_id) || !known_scope
        || !valid_dns_label(namespace) {
        return Err(StorageError::InvalidWorkspace);
    }
    Ok(())
}

} // verus!
