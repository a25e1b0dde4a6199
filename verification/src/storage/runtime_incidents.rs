//! Normalized runtime incident history: the categories that are stored, the
//! retention window, the merging of repeated observations and the bounded
//! grouping of what is read back.

use std::collections::BTreeMap;

use vstd::prelude::*;

use crate::storage::StorageError;
use crate::text::chars_eq_str;

verus! {

/// How long incidents are kept, in seconds (30 days).
pub const RETENTION_SECONDS: i64 = 2592000;

/// The most incidents kept and returned per workspace.
pub const MAX_INCIDENTS_PER_WORKSPACE: usize = 200;

/// The most workspaces one history read may cover.
pub const MAX_BATCH_WORKSPACES: usize = 100;

/// How far in the future an observation may lie, in seconds.
pub const MAX_FUTURE_SKEW_SECONDS: i64 = 300;

/// What a runtime warning is about. Raw event text is never kept, only this.
#[derive(Debug, Clone, Copy, PartialEq, Eq, Structural, PartialOrd, Ord, Hash)]
pub enum RuntimeEventCategory {
    EphemeralStorage,
    MemoryPressure,
    DiskPressure,
    PidPressure,
    Evicted,
    TemporaryStorageProvisioning,
    TemporaryStorageAttachment,
    VolumeUnavailable,
    Other,
}

/// The position of a category in the declared order.
pub open spec fn category_rank(category: RuntimeEventCategory) -> int {
    match category {
        RuntimeEventCategory::EphemeralStorage => 0,
        RuntimeEventCategory::MemoryPressure => 1,
        RuntimeEventCategory::DiskPressure => 2,
        RuntimeEventCategory::PidPressure => 3,
        RuntimeEventCategory::Evicted => 4,
        RuntimeEventCategory::TemporaryStorageProvisioning => 5,
        RuntimeEventCategory::TemporaryStorageAttachment => 6,
        RuntimeEventCategory::VolumeUnavailable => 7,
        RuntimeEventCategory::Other => 8,
    }
}

/// The name under which a category is stored. The names of the
/// ephemeral-storage, memory-pressure and PID-pressure categories, which
/// the collector reports but the stored names did not yet cover, are
/// chosen here in the same snake-case form as the others.
pub open spec fn category_name(category: RuntimeEventCategory) -> Seq<char> {
    match category {
        RuntimeEventCategory::EphemeralStorage => "ephemeral_storage"@,
        RuntimeEventCategory::MemoryPressure => "memory_pressure"@,
        RuntimeEventCategory::DiskPressure => "disk_pressure"@,
        RuntimeEventCategory::PidPressure => "pid_pressure"@,
        RuntimeEventCategory::Evicted => "evicted"@,
        RuntimeEventCategory::TemporaryStorageProvisioning => "temporary_storage_provisioning"@,
        RuntimeEventCategory::TemporaryStorageAttachment => "temporary_storage_attachment"@,
        RuntimeEventCategory::VolumeUnavailable => "volume_unavailable"@,
        RuntimeEventCategory::Other => "other"@,
    }
}

impl RuntimeEventCategory {
    pub fn rank(self) -> (rank: u8)
        ensures
            rank == category_rank(self),
    {
        match self {
            RuntimeEventCategory::EphemeralStorage => 0,
            RuntimeEventCategory::MemoryPressure => 1,
            RuntimeEventCategory::DiskPressure => 2,
            RuntimeEventCategory::PidPressure => 3,
            RuntimeEventCategory::Evicted => 4,
            RuntimeEventCategory::TemporaryStorageProvisioning => 5,
            RuntimeEventCategory::TemporaryStorageAttachment => 6,
            RuntimeEventCategory::VolumeUnavailable => 7,
            RuntimeEventCategory::Other => 8,
        }
    }

    /// The stored name of the category.
    pub fn as_str(self) -> (name: &'static str)
        ensures
            name@ == category_name(self),
    {
        match self {
            RuntimeEventCategory::EphemeralStorage => "ephemeral_storage",
            RuntimeEventCategory::MemoryPressure => "memory_pressure",
            RuntimeEventCategory::DiskPressure => "disk_pressure",
            RuntimeEventCategory::PidPressure => "pid_pressure",
            RuntimeEventCategory::Evicted => "evicted",
            RuntimeEventCategory::TemporaryStorageProvisioning => "temporary_storage_provisioning",
            RuntimeEventCategory::TemporaryStorageAttachment => "temporary_storage_attachment",
            RuntimeEventCategory::VolumeUnavailable => "volume_unavailable",
            RuntimeEventCategory::Other => "other",
        }
    }

    /// Reads a stored category name back.
    pub fn from_stored(value: &str) -> (category: Result<Self, StorageError>)
        ensures
            match parse_category(value@) {
                Some(c) => category == Ok::<RuntimeEventCategory, StorageError>(c),
                None => category matches Err(StorageError::UnknownRuntimeIncidentCategory(text))
                    && text@ == value@,
            },
    {
        let chars = crate::text::chars_of(value);
        let v = chars.as_slice();
        if chars_eq_str(v, "ephemeral_storage") {
            Ok(RuntimeEventCategory::EphemeralStorage)
        } else if chars_eq_str(v, "memory_pressure") {
            Ok(RuntimeEventCategory::MemoryPressure)
        } else if chars_eq_str(v, "disk_pressure") {
            Ok(RuntimeEventCategory::DiskPressure)
        } else if chars_eq_str(v, "pid_pressure") {
            Ok(RuntimeEventCategory::PidPressure)
        } else if chars_eq_str(v, "evicted") {
            Ok(RuntimeEventCategory::Evicted)
        } else if chars_eq_str(v, "temporary_storage_provisioning") {
            Ok(RuntimeEventCategory::TemporaryStorageProvisioning)
        } else if chars_eq_str(v, "temporary_storage_attachment") {
            Ok(RuntimeEventCategory::TemporaryStorageAttachment)
        } else if chars_eq_str(v, "volume_unavailable") {
            Ok(RuntimeEventCategory::VolumeUnavailable)
        } else if chars_eq_str(v, "other") {
            Ok(RuntimeEventCategory::Other)
        } else {
            Err(StorageError::UnknownRuntimeIncidentCategory(crate::text::string_from_chars(v)))
        }
    }
}

/// The category stored under `value`, if any.
pub open spec fn parse_category(value: Seq<char>) -> Option<RuntimeEventCategory> {
    if value == "ephemeral_storage"@ {
        Some(RuntimeEventCategory::EphemeralStorage)
    } else if value == "memory_pressure"@ {
        Some(RuntimeEventCategory::MemoryPressure)
    } else if value == "disk_pressure"@ {
        Some(RuntimeEventCategory::DiskPressure)
    } else if value == "pid_pressure"@ {
        Some(RuntimeEventCategory::PidPressure)
    } else if value == "evicted"@ {
        Some(RuntimeEventCategory::Evicted)
    } else if value == "temporary_storage_provisioning"@ {
        Some(RuntimeEventCategory::TemporaryStorageProvisioning)
    } else if value == "temporary_storage_attachment"@ {
        Some(RuntimeEventCategory::TemporaryStorageAttachment)
    } else if value == "volume_unavailable"@ {
        Some(RuntimeEventCategory::VolumeUnavailable)
    } else if value == "other"@ {
        Some(RuntimeEventCategory::Other)
    } else {
        None
    }
}

/// Reading back the stored name of a category gives the category.
pub proof fn lemma_category_round_trip(category: RuntimeEventCategory)
    ensures
        parse_category(category_name(category)) == Some(category),
{
    reveal_strlit("ephemeral_storage");
    reveal_strlit("memory_pressure");
    reveal_strlit("disk_pressure");
    reveal_strlit("pid_pressure");
    reveal_strlit("evicted");
    reveal_strlit("temporary_storage_provisioning");
    reveal_strlit("temporary_storage_attachment");
    reveal_strlit("volume_unavailable");
    reveal_strlit("other");
    assert("ephemeral_storage"@.len() == 17);
    assert("memory_pressure"@.len() == 15);
    assert("disk_pressure"@.len() == 13);
    assert("pid_pressure"@.len() == 12);
    assert("evicted"@.len() == 7);
    assert("temporary_storage_provisioning"@.len() == 30);
    assert("temporary_storage_attachment"@.len() == 28);
    assert("volume_unavailable"@.len() == 18);
    assert("other"@.len() == 5);
}

/// One normalized observation to record for a workspace.
#[derive(Debug, Clone, Copy, PartialEq, Eq)]
pub struct NewWorkspaceRuntimeIncident {
    pub category: RuntimeEventCategory,
    pub observed_at: i64,
    pub count: u32,
}

/// One stored observation of a workspace.
#[derive(Debug, Clone, Copy, PartialEq, Eq)]
pub struct WorkspaceRuntimeIncident {
    pub workspace_id: u128,
    pub category: RuntimeEventCategory,
    pub observed_at: i64,
    pub count: u32,
}

} // verus!

verus! {

/// The oldest observation time still retained at `now`.
pub open spec fn retention_cutoff_spec(now: i64) -> i64 {
    if now - RETENTION_SECONDS < i64::MIN {
        i64::MIN
    } else {
        (now - RETENTION_SECONDS) as i64
    }
}

/// The latest observation time accepted at `now`.
pub open spec fn latest_accepted_spec(now: i64) -> i64 {
    if now + MAX_FUTURE_SKEW_SECONDS > i64::MAX {
        i64::MAX
    } else {
        (now + MAX_FUTURE_SKEW_SECONDS) as i64
    }
}

/// `now` minus the retention period, saturating.
pub fn retention_cutoff(now: i64) -> (cutoff: i64)
    ensures
        cutoff == retention_cutoff_spec(now),
{
    if now < i64::MIN + RETENTION_SECONDS {
        i64::MIN
    } else {
        now - RETENTION_SECONDS
    }
}

fn latest_accepted(now: i64) -> (latest: i64)
    ensures
        latest == latest_accepted_spec(now),
{
    if now > i64::MAX - MAX_FUTURE_SKEW_SECONDS {
        i64::MAX
    } else {
        now + MAX_FUTURE_SKEW_SECONDS
    }
}

/// An observation inside the window that is kept at `now`.
pub open spec fn retained(incident: NewWorkspaceRuntimeIncident, now: i64) -> bool {
    retention_cutoff_spec(now) <= incident.observed_at <= latest_accepted_spec(now)
}

/// A count is at least one.
pub open spec fn effective_count(count: u32) -> u32 {
    if count == 0 {
        1
    } else {
        count
    }
}

/// Incidents are ordered by category, then by start time.
pub open spec fn key_lt(
    a_category: RuntimeEventCategory,
    a_observed: i64,
    b_category: RuntimeEventCategory,
    b_observed: i64,
) -> bool {
    category_rank(a_category) < category_rank(b_category) || (category_rank(a_category)
        == category_rank(b_category) && a_observed < b_observed)
}

pub open spec fn incident_lt(a: NewWorkspaceRuntimeIncident, b: NewWorkspaceRuntimeIncident) -> bool {
    key_lt(a.category, a.observed_at, b.category, b.observed_at)
}

/// The greatest count among the retained observations of `incidents` with
/// the given category and start, or 0 when there is none.
pub open spec fn merged_count(
    incidents: Seq<NewWorkspaceRuntimeIncident>,
    now: i64,
    category: RuntimeEventCategory,
    observed_at: i64,
) -> u32
    decreases incidents.len(),
{
    if incidents.len() == 0 {
        0
    } else {
        let previous = merged_count(incidents.drop_last(), now, category, observed_at);
        let last = incidents.last();
        if retained(last, now) && last.category == category && last.observed_at == observed_at {
            if effective_count(last.count) > previous {
                effective_count(last.count)
            } else {
                previous
            }
        } else {
            previous
        }
    }
}

/// `normalized` holds one entry per retained (category, start) of
/// `incidents`, in increasing order, with the greatest count seen for it.
pub open spec fn is_normalization_of(
    normalized: Seq<NewWorkspaceRuntimeIncident>,
    incidents: Seq<NewWorkspaceRuntimeIncident>,
    now: i64,
) -> bool {
    &&& forall|i: int, j: int|
        0 <= i < j < normalized.len() ==> incident_lt(#[trigger] normalized[i], #[trigger] normalized[j])
    &&& forall|i: int|
        0 <= i < normalized.len() ==> #[trigger] normalized[i].count == merged_count(
            incidents,
            now,
            normalized[i].category,
            normalized[i].observed_at,
        ) && normalized[i].count > 0
    &&& forall|category: RuntimeEventCategory, observed_at: i64|
        #[trigger] merged_count(incidents, now, category, observed_at) > 0 ==> exists|i: int|
            0 <= i < normalized.len() && normalized[i].category == category
                && normalized[i].observed_at == observed_at
}

fn key_less(a: &NewWorkspaceRuntimeIncident, b: &NewWorkspaceRuntimeIncident) -> (lt: bool)
    ensures
        lt == incident_lt(*a, *b),
{
    let ra = a.category.rank();
    let rb = b.category.rank();
    ra < rb || (ra == rb && a.observed_at < b.observed_at)
}

proof fn lemma_rank_injective(a: RuntimeEventCategory, b: RuntimeEventCategory)
    ensures
        category_rank(a) == category_rank(b) <==> a == b,
{
}

proof fn lemma_merged_count_push(
    incidents: Seq<NewWorkspaceRuntimeIncident>,
    x: NewWorkspaceRuntimeIncident,
    now: i64,
    category: RuntimeEventCategory,
    observed_at: i64,
)
    ensures
        merged_count(incidents.push(x), now, category, observed_at) == if retained(x, now)
            && x.category == category && x.observed_at == observed_at {
            if effective_count(x.count) > merged_count(incidents, now, category, observed_at) {
                effective_count(x.count)
            } else {
                merged_count(incidents, now, category, observed_at)
            }
        } else {
            merged_count(incidents, now, category, observed_at)
        },
{
    assert(incidents.push(x).drop_last() == incidents);
}

/// Records one retained observation `x` in the normalization `out` of
/// `before`, giving the normalization of `before.push(x)`.
fn merge_observation(
    out: &mut Vec<NewWorkspaceRuntimeIncident>,
    x: NewWorkspaceRuntimeIncident,
    now: i64,
    Ghost(before): Ghost<Seq<NewWorkspaceRuntimeIncident>>,
)
    requires
        retained(x, now),
        is_normalization_of(old(out)@, before, now),
    ensures
        is_normalization_of(final(out)@, before.push(x), now),
{
    let ghost after = before.push(x);
    let count = if x.count == 0 {
        1
    } else {
        x.count
    };
    let mut p: usize = 0;
    while p < out.len() && key_less(&out[p], &x)
        invariant
            p <= out.len(),
            forall|i: int| 0 <= i < p ==> incident_lt(#[trigger] out@[i], x),
        decreases out.len() - p,
    {
        p = p + 1;
    }
    let ghost old_out = out@;
    if p < out.len() && out[p].category == x.category && out[p].observed_at == x.observed_at {
        let mut entry = out[p];
        if count > entry.count {
            entry.count = count;
        }
        out.set(p, entry);
        proof {
            assert forall|i: int, j: int|
                0 <= i < j < out@.len() implies incident_lt(
                #[trigger] out@[i],
                #[trigger] out@[j],
            ) by {
                assert(incident_lt(old_out[i], old_out[j]));
            }
            assert forall|i: int|
                0 <= i < out@.len() implies #[trigger] out@[i].count == merged_count(
                after,
                now,
                out@[i].category,
                out@[i].observed_at,
            ) && out@[i].count > 0 by {
                lemma_merged_count_push(before, x, now, out@[i].category, out@[i].observed_at);
                if i != p {
                    if out@[i].category == x.category && out@[i].observed_at == x.observed_at {
                        if i < p {
                            assert(incident_lt(old_out[i], old_out[p as int]));
                        } else {
                            assert(incident_lt(old_out[p as int], old_out[i]));
                        }
                    }
                }
            }
            assert forall|c: RuntimeEventCategory, o: i64|
                #[trigger] merged_count(after, now, c, o) > 0 implies exists|i: int|
                0 <= i < out@.len() && out@[i].category == c && out@[i].observed_at == o by {
                lemma_merged_count_push(before, x, now, c, o);
                if c == x.category && o == x.observed_at {
                    assert(out@[p as int].category == c);
                } else {
                    assert(merged_count(before, now, c, o) > 0);
                    let i = choose|i: int|
                        0 <= i < old_out.len() && old_out[i].category == c
                            && old_out[i].observed_at == o;
                    assert(out@[i].category == c);
                }
            }
        }
    } else {
        let fresh = NewWorkspaceRuntimeIncident {
            category: x.category,
            observed_at: x.observed_at,
            count,
        };
        proof {
            if p < old_out.len() {
                lemma_rank_injective(old_out[p as int].category, x.category);
                assert(incident_lt(fresh, old_out[p as int]));
            }
            assert(merged_count(before, now, x.category, x.observed_at) == 0) by {
                if merged_count(before, now, x.category, x.observed_at) > 0 {
                    let i = choose|i: int|
                        0 <= i < old_out.len() && old_out[i].category == x.category
                            && old_out[i].observed_at == x.observed_at;
                    if i < p {
                        assert(incident_lt(old_out[i], x));
                    } else if i > p {
                        assert(incident_lt(old_out[p as int], old_out[i]));
                    }
                }
            }
        }
        out.insert(p, fresh);
        proof {
            assert forall|i: int, j: int|
                0 <= i < j < out@.len() implies incident_lt(
                #[trigger] out@[i],
                #[trigger] out@[j],
            ) by {
                if j < p {
                    assert(incident_lt(old_out[i], old_out[j]));
                } else if j == p {
                    assert(incident_lt(old_out[i], x));
                } else if i < p {
                    assert(incident_lt(old_out[i], x));
                    assert(incident_lt(fresh, old_out[p as int]));
                    if j - 1 > p {
                        assert(incident_lt(old_out[p as int], old_out[j - 1]));
                    }
                } else if i == p {
                    if j - 1 > p {
                        assert(incident_lt(old_out[p as int], old_out[j - 1]));
                    }
                } else {
                    assert(incident_lt(old_out[i - 1], old_out[j - 1]));
                }
            }
            assert forall|i: int|
                0 <= i < out@.len() implies #[trigger] out@[i].count == merged_count(
                after,
                now,
                out@[i].category,
                out@[i].observed_at,
            ) && out@[i].count > 0 by {
                lemma_merged_count_push(before, x, now, out@[i].category, out@[i].observed_at);
                if i < p {
                    assert(out@[i] == old_out[i]);
                    assert(incident_lt(old_out[i], x));
                } else if i > p {
                    assert(out@[i] == old_out[i - 1]);
                    assert(incident_lt(fresh, old_out[p as int]));
                    if i - 1 > p {
                        assert(incident_lt(old_out[p as int], old_out[i - 1]));
                    }
                }
            }
            assert forall|c: RuntimeEventCategory, o: i64|
                #[trigger] merged_count(after, now, c, o) > 0 implies exists|i: int|
                0 <= i < out@.len() && out@[i].category == c && out@[i].observed_at == o by {
                lemma_merged_count_push(before, x, now, c, o);
                if c == x.category && o == x.observed_at {
                    assert(out@[p as int].category == c);
                } else {
                    assert(merged_count(before, now, c, o) > 0);
                    let i = choose|i: int|
                        0 <= i < old_out.len() && old_out[i].category == c
                            && old_out[i].observed_at == o;
                    if i < p {
                        assert(out@[i].category == c);
                    } else {
                        assert(out@[i + 1].category == c);
                    }
                }
            }
        }
    }
}

/// Merges the retained observations of `incidents` per (category, start),
/// keeping the greatest count, in increasing order. Kubernetes counts are
/// cumulative, so a repeated observation never adds up.
pub fn normalized_incidents(incidents: &[NewWorkspaceRuntimeIncident], now: i64) -> (normalized: Vec<
    NewWorkspaceRuntimeIncident,
>)
    ensures
        is_normalization_of(normalized@, incidents@, now),
{
    let cutoff = retention_cutoff(now);
    let latest = latest_accepted(now);
    let mut out: Vec<NewWorkspaceRuntimeIncident> = Vec::new();
    let mut k: usize = 0;
    while k < incidents.len()
        invariant
            k <= incidents.len(),
            cutoff == retention_cutoff_spec(now),
            latest == latest_accepted_spec(now),
            is_normalization_of(out@, incidents@.take(k as int), now),
        decreases incidents.len() - k,
    {
        let x = incidents[k];
        let ghost before = incidents@.take(k as int);
        proof {
            assert(incidents@.take(k + 1) == before.push(x));
        }
        if x.observed_at < cutoff || x.observed_at > latest {
            proof {
                assert(!retained(x, now));
                assert forall|c: RuntimeEventCategory, o: i64|
                    #[trigger] merged_count(before.push(x), now, c, o) == merged_count(
                        before,
                        now,
                        c,
                        o,
                    ) by {
                    lemma_merged_count_push(before, x, now, c, o);
                }
                assert forall|i: int|
                    0 <= i < out@.len() implies #[trigger] out@[i].count == merged_count(
                    before.push(x),
                    now,
                    out@[i].category,
                    out@[i].observed_at,
                ) && out@[i].count > 0 by {
                    assert(merged_count(before.push(x), now, out@[i].category, out@[i].observed_at)
                        == merged_count(before, now, out@[i].category, out@[i].observed_at));
                }
                assert forall|c: RuntimeEventCategory, o: i64|
                    #[trigger] merged_count(before.push(x), now, c, o) > 0 implies exists|i: int|
                    0 <= i < out@.len() && out@[i].category == c && out@[i].observed_at == o by {
                    assert(merged_count(before, now, c, o) > 0);
                }
            }
        } else {
            merge_observation(&mut out, x, now, Ghost(before));
        }
        k = k + 1;
    }
    proof {
        assert(incidents@.take(incidents@.len() as int) == incidents@);
    }
    out
}

} // verus!

verus! {

/// The incidents of `incidents` that belong to `workspace_id`, in order.
pub open spec fn incidents_of(incidents: Seq<WorkspaceRuntimeIncident>, workspace_id: u128) -> Seq<
    WorkspaceRuntimeIncident,
>
    decreases incidents.len(),
{
    if incidents.len() == 0 {
        Seq::empty()
    } else {
        let previous = incidents_of(incidents.drop_last(), workspace_id);
        if incidents.last().workspace_id == workspace_id {
            previous.push(incidents.last())
        } else {
            previous
        }
    }
}

/// At most the first `limit` elements of `s`.
pub open spec fn first_n<T>(s: Seq<T>, limit: nat) -> Seq<T> {
    if s.len() <= limit {
        s
    } else {
        s.take(limit as int)
    }
}

/// `groups` holds an entry for every workspace that has an incident, and
/// for no other, with its first `limit` incidents in the order they were
/// read.
pub open spec fn is_grouping_of(
    groups: Map<u128, Vec<WorkspaceRuntimeIncident>>,
    incidents: Seq<WorkspaceRuntimeIncident>,
    limit: nat,
) -> bool {
    &&& forall|w: u128|
        #![trigger groups.contains_key(w)]
        #![trigger incidents_of(incidents, w)]
        groups.contains_key(w) <==> incidents_of(incidents, w).len() > 0
    &&& forall|w: u128|
        #[trigger] groups.contains_key(w) ==> groups[w]@ == first_n(
            incidents_of(incidents, w),
            limit,
        )
}

proof fn lemma_first_n_push<T>(s: Seq<T>, x: T, limit: nat)
    ensures
        s.len() < limit ==> first_n(s.push(x), limit) == first_n(s, limit).push(x),
        s.len() >= limit ==> first_n(s.push(x), limit) == first_n(s, limit),
{
    if s.len() >= limit {
        assert(s.push(x).take(limit as int) == first_n(s, limit));
    }
}

proof fn lemma_incidents_of_push(
    incidents: Seq<WorkspaceRuntimeIncident>,
    x: WorkspaceRuntimeIncident,
    w: u128,
)
    ensures
        incidents_of(incidents.push(x), w) == if x.workspace_id == w {
            incidents_of(incidents, w).push(x)
        } else {
            incidents_of(incidents, w)
        },
{
    assert(incidents.push(x).drop_last() == incidents);
}

/// Groups stored incidents by workspace, keeping at most `limit` per
/// workspace in the order they were read.
pub fn group_incidents(incidents: Vec<WorkspaceRuntimeIncident>, limit: usize) -> (grouped:
    BTreeMap<u128, Vec<WorkspaceRuntimeIncident>>)
    ensures
        is_grouping_of(grouped@, incidents@, limit as nat),
{
    let mut grouped: BTreeMap<u128, Vec<WorkspaceRuntimeIncident>> = BTreeMap::new();
    let mut k: usize = 0;
    while k < incidents.len()
        invariant
            k <= incidents.len(),
            is_grouping_of(grouped@, incidents@.take(k as int), limit as nat),
        decreases incidents.len() - k,
    {
        let x = incidents[k];
        let ghost before = incidents@.take(k as int);
        let ghost previous = grouped@;
        proof {
            assert(incidents@.take(k + 1) == before.push(x));
        }
        let id = x.workspace_id;
        let mut group = match grouped.remove(&id) {
            Some(g) => g,
            None => Vec::new(),
        };
        proof {
            if !previous.contains_key(id) {
                assert(incidents_of(before, id) =~= Seq::<WorkspaceRuntimeIncident>::empty());
            }
            assert(group@ == first_n(incidents_of(before, id), limit as nat));
            lemma_first_n_push(incidents_of(before, id), x, limit as nat);
        }
        if group.len() < limit {
            group.push(x);
        }
        grouped.insert(id, group);
        proof {
            let after = before.push(x);
            assert forall|w: u128| #[trigger] grouped@.contains_key(w) <==> incidents_of(
                after,
                w,
            ).len() > 0 by {
                lemma_incidents_of_push(before, x, w);
            }
            assert forall|w: u128| #[trigger] grouped@.contains_key(w) implies grouped@[w]@
                == first_n(incidents_of(after, w), limit as nat) by {
                lemma_incidents_of_push(before, x, w);
            }
        }
        k = k + 1;
    }
    proof {
        assert(incidents@.take(incidents@.len() as int) == incidents@);
    }
    grouped
}

/// A stored incident row: its count and when it was first and last seen.
#[derive(Debug, Clone, Copy, PartialEq, Eq)]
pub struct StoredIncidentRow {
    pub count: u32,
    pub first_seen_at: i64,
    pub last_seen_at: i64,
}

/// The row an observation leaves for its category and observation time:
/// a new row seen now, or the stored row keeping the greater count (event
/// counts are cumulative, so a repeated observation is not added again)
/// and the later last-seen time.
pub open spec fn upserted_row_of(
    stored: Option<StoredIncidentRow>,
    incident: NewWorkspaceRuntimeIncident,
    now: i64,
) -> StoredIncidentRow {
    match stored {
        None => StoredIncidentRow { count: incident.count, first_seen_at: now, last_seen_at: now },
        Some(row) => StoredIncidentRow {
            count: if row.count >= incident.count {
                row.count
            } else {
                incident.count
            },
            first_seen_at: row.first_seen_at,
            last_seen_at: if row.last_seen_at >= now {
                row.last_seen_at
            } else {
                now
            },
        },
    }
}

/// The row to store for an observation, given the row stored for its
/// category and observation time, if any.
pub fn upserted_row(stored: Option<StoredIncidentRow>, incident: NewWorkspaceRuntimeIncident, now: i64) -> (row: StoredIncidentRow)
    ensures
        row == upserted_row_of(stored, incident, now),
{
    match stored {
        None => StoredIncidentRow { count: incident.count, first_seen_at: now, last_seen_at: now },
        Some(row) => StoredIncidentRow {
            count: if row.count >= incident.count {
                row.count
            } else {
                incident.count
            },
            first_seen_at: row.first_seen_at,
            last_seen_at: if row.last_seen_at >= now {
                row.last_seen_at
            } else {
                now
            },
        },
    }
}

/// The incident rows of one workspace, by category rank and observation
/// time, after recording an observation at `now`.
pub open spec fn rows_after_upsert(
    rows: Map<(int, i64), StoredIncidentRow>,
    incident: NewWorkspaceRuntimeIncident,
    now: i64,
) -> Map<(int, i64), StoredIncidentRow> {
    let key = (category_rank(incident.category), incident.observed_at);
    let stored = if rows.contains_key(key) {
        Some(rows[key])
    } else {
        None
    };
    rows.insert(key, upserted_row_of(stored, incident, now))
}

/// Recording observations is idempotent and order-free: recording the same
/// observation again changes nothing, two observations give the same rows
/// in either order, and the stored count is the greatest count observed,
/// never a sum.
pub proof fn lemma_upsert_idempotent_and_commutative(
    rows: Map<(int, i64), StoredIncidentRow>,
    a: NewWorkspaceRuntimeIncident,
    b: NewWorkspaceRuntimeIncident,
    now: i64,
)
    ensures
        rows_after_upsert(rows_after_upsert(rows, a, now), a, now) == rows_after_upsert(rows, a, now),
        rows_after_upsert(rows_after_upsert(rows, a, now), b, now) == rows_after_upsert(
            rows_after_upsert(rows, b, now),
            a,
            now,
        ),
        ({
            let key = (category_rank(a.category), a.observed_at);
            let after = rows_after_upsert(rows, a, now);
            &&& after[key].count >= a.count
            &&& rows.contains_key(key) ==> after[key].count >= rows[key].count
            &&& (after[key].count == a.count || (rows.contains_key(key) && after[key].count
                == rows[key].count))
        }),
{
    let ka = (category_rank(a.category), a.observed_at);
    let kb = (category_rank(b.category), b.observed_at);
    let once = rows_after_upsert(rows, a, now);
    assert(rows_after_upsert(once, a, now) =~= once);
    let ab = rows_after_upsert(once, b, now);
    let ba = rows_after_upsert(rows_after_upsert(rows, b, now), a, now);
    assert(ab =~= ba);
}

/// How a history read is bounded: nothing to read, or the per-workspace
/// limit to apply.
pub open spec fn incident_read_limit_spec(workspaces: nat, limit_per_workspace: nat) -> Result<
    Option<nat>,
    StorageError,
> {
    if workspaces == 0 || limit_per_workspace == 0 {
        Ok(None)
    } else if workspaces > MAX_BATCH_WORKSPACES {
        Err(StorageError::InvalidWorkspace)
    } else if limit_per_workspace < MAX_INCIDENTS_PER_WORKSPACE {
        Ok(Some(limit_per_workspace))
    } else {
        Ok(Some(MAX_INCIDENTS_PER_WORKSPACE as nat))
    }
}

/// A history read returns what was asked, capped: nothing for an empty
/// request, a refusal beyond 100 workspaces, and otherwise per workspace
/// the requested number of incidents, or 200 when more were asked; never
/// more than was requested.
pub proof fn lemma_read_limit_follows_the_request(workspaces: nat, limit: nat)
    ensures
        (workspaces == 0 || limit == 0) ==> incident_read_limit_spec(workspaces, limit) == Ok::<
            Option<nat>,
            StorageError,
        >(None),
        0 < limit && workspaces > 100 ==> incident_read_limit_spec(workspaces, limit) == Err::<
            Option<nat>,
            StorageError,
        >(StorageError::InvalidWorkspace),
        0 < workspaces <= 100 && 0 < limit ==> incident_read_limit_spec(workspaces, limit) == Ok::<
            Option<nat>,
            StorageError,
        >(Some(if limit <= 200 { limit } else { 200 })),
        incident_read_limit_spec(workspaces, limit) matches Ok(Some(n)) ==> 0 < n <= limit && n
            <= 200,
{
}

/// Decides how many incidents to return per workspace for a read of
/// `workspaces` workspaces: none for an empty request, a refusal for more
/// than 100 workspaces, otherwise the request capped at 200.
pub fn incident_read_limit(workspaces: usize, limit_per_workspace: usize) -> (limit: Result<
    Option<usize>,
    StorageError,
>)
    ensures
        match (limit, incident_read_limit_spec(workspaces as nat, limit_per_workspace as nat)) {
            (Ok(Some(a)), Ok(Some(b))) => a == b,
            (Ok(None), Ok(None)) => true,
            (Err(a), Err(b)) => a == b,
            _ => false,
        },
{
    if workspaces == 0 || limit_per_workspace == 0 {
        return Ok(None);
    }
    if workspaces > MAX_BATCH_WORKSPACES {
        return Err(StorageError::InvalidWorkspace);
    }
    if limit_per_workspace < MAX_INCIDENTS_PER_WORKSPACE {
        Ok(Some(limit_per_workspace))
    } else {
        Ok(Some(MAX_INCIDENTS_PER_WORKSPACE))
    }
}

/// A stored count is a count only when it fits in 32 bits.
pub fn decode_incident_count(stored: i64) -> (count: Result<u32, StorageError>)
    ensures
        match count {
            Ok(c) => 0 <= stored <= u32::MAX && c as int == stored,
            Err(error) => !(0 <= stored <= u32::MAX) && error == StorageError::InvalidWorkspace,
        },
{
    if 0 <= stored && stored <= 0xFFFF_FFFF {
        Ok(stored as u32)
    } else {
        Err(StorageError::InvalidWorkspace)
    }
}

} // verus!
