//! Turns namespace events into normalized runtime incidents.
//!
//! Events outlive their Pods, so the immutable Pod name is mapped back to the
//! workspace instead of requiring the evicted Pod to still exist. The raw
//! event text is only classified in memory and never kept.
use vstd::prelude::*;

use crate::storage::runtime_incidents::{NewWorkspaceRuntimeIncident, RuntimeEventCategory};
use crate::storage::StorageError;
use crate::text::{
    ascii_lowercase, chars_eq_str, chars_of, contains, contains_str, is_lower_hex,
    lemma_text_lt_irreflexive, lemma_text_lt_total, lemma_text_lt_transitive, starts_with, str_lt,
    text_lt, to_ascii_lowercase,
};

verus! {

/// The object an event is about, as far as the mapping reads it.
pub struct InvolvedObject {
    pub kind: Option<String>,
    pub namespace: Option<String>,
    pub name: Option<String>,
}

/// The recurrence summary of an event series.
pub struct EventSeries {
    pub count: Option<i32>,
    pub last_observed_time: Option<i64>,
}

/// The fields of a namespace event that classification and mapping read.
/// Timestamps are Unix seconds.
pub struct RuntimeEvent {
    pub type_: Option<String>,
    pub reason: Option<String>,
    pub message: Option<String>,
    pub involved_object: InvolvedObject,
    pub event_time: Option<i64>,
    pub first_timestamp: Option<i64>,
    pub creation_timestamp: Option<i64>,
    pub last_timestamp: Option<i64>,
    pub count: Option<i32>,
    pub series: Option<EventSeries>,
}

/// A classified observation: the incident to persist and the time the
/// event was last seen, which is not part of the incident's key.
#[derive(Debug, Clone, Copy, PartialEq, Eq)]
pub struct ObservedIncident {
    pub category: RuntimeEventCategory,
    pub observed_at: i64,
    pub last_observed_at: i64,
    pub count: u32,
}

impl ObservedIncident {
    /// The persisted part of the observation.
    pub fn incident(&self) -> (incident: NewWorkspaceRuntimeIncident)
        ensures
            incident.category == self.category,
            incident.observed_at == self.observed_at,
            incident.count == self.count,
    {
        NewWorkspaceRuntimeIncident {
            category: self.category,
            observed_at: self.observed_at,
            count: self.count,
        }
    }
}

/// The text of an optional field, empty when it is absent.
pub open spec fn text_or_empty(value: Option<String>) -> Seq<char> {
    match value {
        Some(v) => v@,
        None => Seq::empty(),
    }
}

/// The lower-cased reason or message holds `needle`.
pub open spec fn mentions(reason: Seq<char>, message: Seq<char>, needle: Seq<char>) -> bool {
    contains(ascii_lowercase(reason), needle) || contains(ascii_lowercase(message), needle)
}

/// The event names the workspace's temporary volume.
pub open spec fn names_temporary_volume(reason: Seq<char>, message: Seq<char>) -> bool {
    mentions(reason, message, "workspace-scratch"@) || mentions(reason, message, "ephemeral volume"@)
        || mentions(reason, message, "persistentvolumeclaim"@)
}

/// The category of an event, by the first rule that its reason or message
/// (ASCII case ignored) satisfies: specific resource causes come before
/// the generic eviction, which comes before volume trouble.
pub open spec fn classify(reason: Seq<char>, message: Seq<char>) -> RuntimeEventCategory {
    if mentions(reason, message, "ephemeral-storage"@) || mentions(
        reason,
        message,
        "ephemeral storage"@,
    ) {
        RuntimeEventCategory::EphemeralStorage
    } else if mentions(reason, message, "memorypressure"@) || mentions(
        reason,
        message,
        "memory pressure"@,
    ) || mentions(reason, message, "low on resource: memory"@) {
        RuntimeEventCategory::MemoryPressure
    } else if mentions(reason, message, "diskpressure"@) || mentions(
        reason,
        message,
        "disk pressure"@,
    ) {
        RuntimeEventCategory::DiskPressure
    } else if mentions(reason, message, "pidpressure"@) || mentions(reason, message, "pid pressure"@)
        || mentions(reason, message, "low on resource: pid"@) {
        RuntimeEventCategory::PidPressure
    } else if mentions(reason, message, "evicted"@) {
        RuntimeEventCategory::Evicted
    } else if mentions(reason, message, "provision"@) && names_temporary_volume(reason, message) {
        RuntimeEventCategory::TemporaryStorageProvisioning
    } else if mentions(reason, message, "attach"@) && names_temporary_volume(reason, message) {
        RuntimeEventCategory::TemporaryStorageAttachment
    } else if mentions(reason, message, "failedmount"@) || mentions(reason, message, "failed mount"@)
        || mentions(reason, message, "volume"@) {
        RuntimeEventCategory::VolumeUnavailable
    } else {
        RuntimeEventCategory::Other
    }
}

/// Volume trouble is never dismissed: an event whose reason or message
/// mentions a volume (ASCII case ignored) is never classified `Other`, and
/// when it mentions none of the resource-pressure, eviction, provisioning
/// or attachment words, it is `VolumeUnavailable`.
pub proof fn lemma_volume_events_are_kept(reason: Seq<char>, message: Seq<char>)
    requires
        mentions(reason, message, "volume"@),
    ensures
        classify(reason, message) != RuntimeEventCategory::Other,
        !mentions(reason, message, "ephemeral-storage"@) && !mentions(
            reason,
            message,
            "ephemeral storage"@,
        ) && !mentions(reason, message, "memorypressure"@) && !mentions(
            reason,
            message,
            "memory pressure"@,
        ) && !mentions(reason, message, "low on resource: memory"@) && !mentions(
            reason,
            message,
            "diskpressure"@,
        ) && !mentions(reason, message, "disk pressure"@) && !mentions(
            reason,
            message,
            "pidpressure"@,
        ) && !mentions(reason, message, "pid pressure"@) && !mentions(
            reason,
            message,
            "low on resource: pid"@,
        ) && !mentions(reason, message, "evicted"@) && !mentions(reason, message, "provision"@)
            && !mentions(reason, message, "attach"@) ==> classify(reason, message)
            == RuntimeEventCategory::VolumeUnavailable,
{
}

/// An event is left unclassified (`Other`) exactly when its reason and
/// message (ASCII case ignored) mention no resource pressure, eviction,
/// failed mount or volume, and do not name the workspace's scratch volume
/// together with its provisioning or attachment.
pub proof fn lemma_unclassified_events(reason: Seq<char>, message: Seq<char>)
    ensures
        classify(reason, message) == RuntimeEventCategory::Other <==> !(mentions(
            reason,
            message,
            "ephemeral-storage"@,
        ) || mentions(reason, message, "ephemeral storage"@) || mentions(
            reason,
            message,
            "memorypressure"@,
        ) || mentions(reason, message, "memory pressure"@) || mentions(
            reason,
            message,
            "low on resource: memory"@,
        ) || mentions(reason, message, "diskpressure"@) || mentions(
            reason,
            message,
            "disk pressure"@,
        ) || mentions(reason, message, "pidpressure"@) || mentions(reason, message, "pid pressure"@)
            || mentions(reason, message, "low on resource: pid"@) || mentions(
            reason,
            message,
            "evicted"@,
        ) || mentions(reason, message, "failedmount"@) || mentions(reason, message, "failed mount"@)
            || mentions(reason, message, "volume"@) || ((mentions(reason, message, "provision"@)
            || mentions(reason, message, "attach"@)) && (mentions(
            reason,
            message,
            "workspace-scratch"@,
        ) || mentions(reason, message, "ephemeral volume"@) || mentions(
            reason,
            message,
            "persistentvolumeclaim"@,
        )))),
{
}

fn lowered(value: &Option<String>) -> (lower: Vec<char>)
    ensures
        lower@ == ascii_lowercase(text_or_empty(*value)),
{
    match value {
        Some(v) => {
            let chars = chars_of(v.as_str());
            to_ascii_lowercase(chars.as_slice())
        },
        None => {
            let empty: Vec<char> = Vec::new();
            proof {
                assert(ascii_lowercase(Seq::<char>::empty()) =~= Seq::<char>::empty());
            }
            empty
        },
    }
}

fn mentions_in(reason: &[char], message: &[char], needle: &str) -> (found: bool)
    ensures
        found == (contains(reason@, needle@) || contains(message@, needle@)),
{
    contains_str(reason, needle) || contains_str(message, needle)
}

/// Classifies an event by its reason and message; the text itself is not
/// returned or kept.
pub fn runtime_event_category(reason: &Option<String>, message: &Option<String>) -> (category:
    RuntimeEventCategory)
    ensures
        category == classify(text_or_empty(*reason), text_or_empty(*message)),
{
    let r = lowered(reason);
    let m = lowered(message);
    let r = r.as_slice();
    let m = m.as_slice();
    if mentions_in(r, m, "ephemeral-storage") || mentions_in(r, m, "ephemeral storage") {
        RuntimeEventCategory::EphemeralStorage
    } else if mentions_in(r, m, "memorypressure") || mentions_in(r, m, "memory pressure")
        || mentions_in(r, m, "low on resource: memory") {
        RuntimeEventCategory::MemoryPressure
    } else if mentions_in(r, m, "diskpressure") || mentions_in(r, m, "disk pressure") {
        RuntimeEventCategory::DiskPressure
    } else if mentions_in(r, m, "pidpressure") || mentions_in(r, m, "pid pressure") || mentions_in(
        r,
        m,
        "low on resource: pid",
    ) {
        RuntimeEventCategory::PidPressure
    } else if mentions_in(r, m, "evicted") {
        RuntimeEventCategory::Evicted
    } else {
        let temporary = mentions_in(r, m, "workspace-scratch") || mentions_in(
            r,
            m,
            "ephemeral volume",
        ) || mentions_in(r, m, "persistentvolumeclaim");
        if mentions_in(r, m, "provision") && temporary {
            RuntimeEventCategory::TemporaryStorageProvisioning
        } else if mentions_in(r, m, "attach") && temporary {
            RuntimeEventCategory::TemporaryStorageAttachment
        } else if mentions_in(r, m, "failedmount") || mentions_in(r, m, "failed mount")
            || mentions_in(r, m, "volume") {
            RuntimeEventCategory::VolumeUnavailable
        } else {
            RuntimeEventCategory::Other
        }
    }
}

/// The length of a Pod name of a workspace: `w-`, sixteen lower-case hex
/// digits, `-0`.
pub open spec fn is_workspace_pod_name(name: Seq<char>) -> bool {
    &&& name.len() == 20
    &&& starts_with(name, "w-"@)
    &&& name.subrange(18, 20) == "-0"@
    &&& forall|i: int| 2 <= i < 18 ==> is_lower_hex(#[trigger] name[i])
}

/// The workspace short id that an event's object names, if it is the first
/// Pod of a workspace in `namespace`.
pub open spec fn short_id_of(object: InvolvedObject, namespace: Seq<char>) -> Option<Seq<char>> {
    match (object.kind, object.namespace, object.name) {
        (Some(kind), Some(ns), Some(name)) => if kind@ == "Pod"@ && ns@ == namespace
            && is_workspace_pod_name(name@) {
            Some(name@.subrange(2, 18))
        } else {
            None
        },
        _ => None,
    }
}

fn ends_with_pod_ordinal(name: &[char]) -> (found: bool)
    requires
        name@.len() == 20,
    ensures
        found == (name@.subrange(18, 20) == "-0"@),
{
    let suffix = chars_of("-0");
    if suffix.len() != 2 {
        proof {
            assert(name@.subrange(18, 20).len() != suffix@.len());
        }
        return false;
    }
    let found = name[18] == suffix[0] && name[19] == suffix[1];
    proof {
        if found {
            assert(name@.subrange(18, 20) =~= suffix@);
        } else {
            assert(name@.subrange(18, 20)[0] != suffix@[0] || name@.subrange(18, 20)[1]
                != suffix@[1]);
        }
    }
    found
}

/// Maps an event back to the short id of its workspace; events of other
/// objects, namespaces or Pod names map to nothing.
pub fn workspace_short_id(object: &InvolvedObject, namespace: &str) -> (short_id: Option<String>)
    ensures
        match (short_id, short_id_of(*object, namespace@)) {
            (Some(id), Some(expected)) => id@ == expected,
            (None, None) => true,
            _ => false,
        },
{
    let (kind, ns, name) = match (&object.kind, &object.namespace, &object.name) {
        (Some(kind), Some(ns), Some(name)) => (kind, ns, name),
        _ => return None,
    };
    let kind_chars = chars_of(kind.as_str());
    if !crate::text::chars_eq_str(kind_chars.as_slice(), "Pod") {
        return None;
    }
    let ns_chars = chars_of(ns.as_str());
    if !crate::text::chars_eq_str(ns_chars.as_slice(), namespace) {
        return None;
    }
    let name = chars_of(name.as_str());
    if name.len() != 20 {
        return None;
    }
    if !crate::text::starts_with_str(name.as_slice(), "w-") {
        return None;
    }
    if !ends_with_pod_ordinal(name.as_slice()) {
        return None;
    }
    let mut id: Vec<char> = Vec::new();
    let mut i: usize = 2;
    while i < 18
        invariant
            name@.len() == 20,
            object.name matches Some(n) && n@ == name@,
            2 <= i <= 18,
            id@ == name@.subrange(2, i as int),
            forall|j: int| 2 <= j < i ==> is_lower_hex(#[trigger] name@[j]),
        decreases 18 - i,
    {
        if !crate::text::char_is_lower_hex(name[i]) {
            assert(!is_lower_hex(name@[i as int]));
            return None;
        }
        id.push(name[i]);
        proof {
            assert(name@.subrange(2, i + 1) =~= name@.subrange(2, i as int).push(name@[i as int]));
        }
        i = i + 1;
    }
    Some(crate::text::string_from_chars(id.as_slice()))
}

/// When an event started: its event time, else its first timestamp, else
/// the creation of its record.
pub open spec fn event_start_of(event: RuntimeEvent) -> Option<i64> {
    match event.event_time {
        Some(t) => Some(t),
        None => match event.first_timestamp {
            Some(t) => Some(t),
            None => event.creation_timestamp,
        },
    }
}

/// A series' latest timestamp changes on every recurrence and is not part
/// of the incident key, so the start is read from the stable fields only.
pub fn event_start(event: &RuntimeEvent) -> (start: Option<i64>)
    ensures
        start == event_start_of(*event),
{
    match event.event_time {
        Some(t) => Some(t),
        None => match event.first_timestamp {
            Some(t) => Some(t),
            None => event.creation_timestamp,
        },
    }
}

/// The reported recurrence count: the series count, else the event count.
pub open spec fn reported_count(event: RuntimeEvent) -> Option<i32> {
    match event.series {
        Some(series) => match series.count {
            Some(c) => Some(c),
            None => event.count,
        },
        None => event.count,
    }
}

/// The count kept for an event: the reported count when it is at least 1,
/// else 1.
pub open spec fn kept_count(event: RuntimeEvent) -> u32 {
    match reported_count(event) {
        Some(c) => if c >= 1 {
            c as u32
        } else {
            1
        },
        None => 1,
    }
}

/// When the event was last seen: the series' last observation, else its
/// last timestamp, else its start.
pub open spec fn last_observed_of(event: RuntimeEvent, start: i64) -> i64 {
    match event.series {
        Some(series) => match series.last_observed_time {
            Some(t) => t,
            None => match event.last_timestamp {
                Some(t) => t,
                None => start,
            },
        },
        None => match event.last_timestamp {
            Some(t) => t,
            None => start,
        },
    }
}

/// The incident an event stands for: only warnings that classify as
/// something other than `Other` and that have a start time.
pub open spec fn incident_of(event: RuntimeEvent) -> Option<ObservedIncident> {
    let category = classify(text_or_empty(event.reason), text_or_empty(event.message));
    match (event.type_, event_start_of(event)) {
        (Some(t), Some(start)) => if t@ == "Warning"@ && category != RuntimeEventCategory::Other {
            Some(
                ObservedIncident {
                    category,
                    observed_at: start,
                    last_observed_at: last_observed_of(event, start),
                    count: kept_count(event),
                },
            )
        } else {
            None
        },
        _ => None,
    }
}

/// Two observations of one event that differ only in how often and how
/// lately it recurred (the series, the last timestamp, the count) stand
/// for the same incident key: the same category and start, so a recurring
/// event updates one stored incident.
pub proof fn lemma_recurrence_keeps_incident_key(a: RuntimeEvent, b: RuntimeEvent)
    requires
        a.type_ == b.type_,
        a.reason == b.reason,
        a.message == b.message,
        a.event_time == b.event_time,
        a.first_timestamp == b.first_timestamp,
        a.creation_timestamp == b.creation_timestamp,
    ensures
        incident_of(a) is Some <==> incident_of(b) is Some,
        incident_of(a) matches Some(x) ==> (incident_of(b) matches Some(y) && x.category == y.category
            && x.observed_at == y.observed_at),
{
}

/// Normalizes one event into an incident, or nothing for events that are
/// not warnings, classify as `Other` or carry no start time.
pub fn normalized_incident(event: &RuntimeEvent) -> (incident: Option<ObservedIncident>)
    ensures
        incident == incident_of(*event),
{
    let warning = match &event.type_ {
        Some(t) => {
            let chars = chars_of(t.as_str());
            crate::text::chars_eq_str(chars.as_slice(), "Warning")
        },
        None => false,
    };
    if !warning {
        return None;
    }
    let category = runtime_event_category(&event.reason, &event.message);
    if category == RuntimeEventCategory::Other {
        return None;
    }
    let observed_at = match event_start(event) {
        Some(start) => start,
        None => return None,
    };
    let last_observed_at = match &event.series {
        Some(series) => match series.last_observed_time {
            Some(t) => t,
            None => match event.last_timestamp {
                Some(t) => t,
                None => observed_at,
            },
        },
        None => match event.last_timestamp {
            Some(t) => t,
            None => observed_at,
        },
    };
    let reported = match &event.series {
        Some(series) => match series.count {
            Some(c) => Some(c),
            None => event.count,
        },
        None => event.count,
    };
    let count: u32 = match reported {
        Some(c) => if c >= 1 {
            c as u32
        } else {
            1
        },
        None => 1,
    };
    Some(ObservedIncident { category, observed_at, last_observed_at, count })
}

/// The incidents one page of events holds for one workspace.
#[derive(Debug, Clone, PartialEq, Eq)]
pub struct WorkspaceObservations {
    pub short_id: String,
    pub incidents: Vec<ObservedIncident>,
}

/// The incidents of `events` that map to workspace `short_id`, in the
/// order of the events.
pub open spec fn observations_for(
    events: Seq<RuntimeEvent>,
    namespace: Seq<char>,
    short_id: Seq<char>,
) -> Seq<ObservedIncident>
    decreases events.len(),
{
    if events.len() == 0 {
        Seq::empty()
    } else {
        let rest = observations_for(events.drop_last(), namespace, short_id);
        let e = events.last();
        match (short_id_of(e.involved_object, namespace), incident_of(e)) {
            (Some(id), Some(incident)) => if id == short_id {
                rest.push(incident)
            } else {
                rest
            },
            _ => rest,
        }
    }
}

/// `groups` holds, in order of short id, one group for each workspace
/// that some event of `events` maps to with an incident.
pub open spec fn is_workspace_grouping(
    groups: Seq<WorkspaceObservations>,
    events: Seq<RuntimeEvent>,
    namespace: Seq<char>,
) -> bool {
    &&& forall|i: int, j: int|
        0 <= i < j < groups.len() ==> text_lt(
            #[trigger] groups[i].short_id@,
            #[trigger] groups[j].short_id@,
        )
    &&& forall|i: int|
        0 <= i < groups.len() ==> (#[trigger] groups[i]).incidents@ == observations_for(
            events,
            namespace,
            groups[i].short_id@,
        ) && groups[i].incidents@.len() > 0
    &&& forall|id: Seq<char>|
        #[trigger] observations_for(events, namespace, id).len() > 0 ==> exists|i: int|
            0 <= i < groups.len() && groups[i].short_id@ == id
}

proof fn lemma_observations_push(events: Seq<RuntimeEvent>, e: RuntimeEvent, namespace: Seq<char>)
    ensures
        forall|id: Seq<char>|
            #[trigger] observations_for(events.push(e), namespace, id) == match (
                short_id_of(e.involved_object, namespace),
                incident_of(e),
            ) {
                (Some(sid), Some(incident)) => if sid == id {
                    observations_for(events, namespace, id).push(incident)
                } else {
                    observations_for(events, namespace, id)
                },
                _ => observations_for(events, namespace, id),
            },
{
    assert(events.push(e).drop_last() =~= events);
}

/// Groups the workspace incidents of one page of events by short id.
pub fn group_by_workspace(events: &Vec<RuntimeEvent>, namespace: &str) -> (groups: Vec<
    WorkspaceObservations,
>)
    ensures
        is_workspace_grouping(groups@, events@, namespace@),
{
    let mut groups: Vec<WorkspaceObservations> = Vec::new();
    let mut k: usize = 0;
    while k < events.len()
        invariant
            k <= events@.len(),
            is_workspace_grouping(groups@, events@.take(k as int), namespace@),
        decreases events.len() - k,
    {
        let ghost before = events@.take(k as int);
        let e = &events[k];
        proof {
            assert(events@.take(k + 1) =~= before.push(*e));
            lemma_observations_push(before, *e, namespace@);
        }
        let ghost after = before.push(*e);
        let short_id = workspace_short_id(&e.involved_object, namespace);
        let incident = normalized_incident(e);
        match (short_id, incident) {
            (Some(id), Some(incident)) => {
                add_observation(&mut groups, id, incident, Ghost(before), Ghost(*e), Ghost(namespace@));
            },
            _ => {
                proof {
                    assert forall|i: int| 0 <= i < groups@.len() implies (#[trigger] groups@[i]).incidents@
                        == observations_for(after, namespace@, groups@[i].short_id@)
                        && groups@[i].incidents@.len() > 0 by {
                    }
                    assert forall|id: Seq<char>| #[trigger] observations_for(after, namespace@, id).len()
                        > 0 implies exists|i: int| 0 <= i < groups@.len() && groups@[i].short_id@ == id by {
                        assert(observations_for(before, namespace@, id).len() > 0);
                    }
                }
            },
        }
        k = k + 1;
    }
    proof {
        assert(events@.take(events@.len() as int) =~= events@);
    }
    groups
}

fn add_observation(
    groups: &mut Vec<WorkspaceObservations>,
    id: String,
    incident: ObservedIncident,
    Ghost(before): Ghost<Seq<RuntimeEvent>>,
    Ghost(e): Ghost<RuntimeEvent>,
    Ghost(namespace): Ghost<Seq<char>>,
)
    requires
        is_workspace_grouping(old(groups)@, before, namespace),
        short_id_of(e.involved_object, namespace) == Some(id@),
        incident_of(e) == Some(incident),
        forall|sid: Seq<char>|
            #[trigger] observations_for(before.push(e), namespace, sid) == if sid == id@ {
                observations_for(before, namespace, sid).push(incident)
            } else {
                observations_for(before, namespace, sid)
            },
    ensures
        is_workspace_grouping(final(groups)@, before.push(e), namespace),
{
    let ghost after = before.push(e);
    let mut p: usize = 0;
    while p < groups.len() && str_lt(groups[p].short_id.as_str(), id.as_str())
        invariant
            p <= groups.len(),
            forall|i: int| 0 <= i < p ==> text_lt(#[trigger] groups@[i].short_id@, id@),
        decreases groups.len() - p,
    {
        p = p + 1;
    }
    let ghost old_groups = groups@;
    proof {
        assert forall|i: int| 0 <= i < old_groups.len() && old_groups[i].short_id@ != id@ implies
            (#[trigger] old_groups[i]).incidents@ == observations_for(after, namespace, old_groups[i].short_id@) by {
        }
    }
    let c = chars_of(id.as_str());
    if p < groups.len() && chars_eq_str(c.as_slice(), groups[p].short_id.as_str()) {
        let mut group = groups.remove(p);
        assert(group == old_groups[p as int]);
        group.incidents.push(incident);
        groups.insert(p, group);
        proof {
            assert(groups@ =~= old_groups.update(p as int, group));
            assert forall|i: int| 0 <= i < old_groups.len() && i != p implies old_groups[i].short_id@
                != id@ by {
                if i < p {
                    assert(text_lt(old_groups[i].short_id@, old_groups[p as int].short_id@));
                } else {
                    assert(text_lt(old_groups[p as int].short_id@, old_groups[i].short_id@));
                }
                lemma_text_lt_irreflexive(id@);
            }
            assert forall|sid: Seq<char>| #[trigger] observations_for(after, namespace, sid).len() > 0
                implies exists|i: int| 0 <= i < groups@.len() && groups@[i].short_id@ == sid by {
                if sid == id@ {
                    assert(groups@[p as int].short_id@ == sid);
                } else {
                    assert(observations_for(before, namespace, sid).len() > 0);
                    let i = choose|i: int| 0 <= i < old_groups.len() && old_groups[i].short_id@ == sid;
                    assert(groups@[i].short_id@ == sid);
                }
            }
        }
    } else {
        proof {
            if p < old_groups.len() {
                lemma_text_lt_total(old_groups[p as int].short_id@, id@);
            }
            assert forall|q: int| p <= q < old_groups.len() implies text_lt(id@, #[trigger] old_groups[q].short_id@) by {
                if q > p {
                    assert(text_lt(old_groups[p as int].short_id@, old_groups[q].short_id@));
                    lemma_text_lt_transitive(id@, old_groups[p as int].short_id@, old_groups[q].short_id@);
                }
            }
            assert(observations_for(before, namespace, id@).len() == 0) by {
                if observations_for(before, namespace, id@).len() > 0 {
                    let i = choose|i: int| 0 <= i < old_groups.len() && old_groups[i].short_id@ == id@;
                    lemma_text_lt_irreflexive(id@);
                    if i < p {
                        assert(text_lt(old_groups[i].short_id@, id@));
                    } else {
                        assert(text_lt(id@, old_groups[i].short_id@));
                    }
                }
            }
            assert(observations_for(before, namespace, id@) =~= Seq::<ObservedIncident>::empty());
        }
        let mut incidents: Vec<ObservedIncident> = Vec::new();
        incidents.push(incident);
        let group = WorkspaceObservations { short_id: id, incidents };
        proof {
            assert(group.incidents@ =~= observations_for(after, namespace, group.short_id@));
        }
        groups.insert(p, group);
        proof {
            assert forall|i: int, j: int| 0 <= i < j < groups@.len() implies text_lt(
                #[trigger] groups@[i].short_id@,
                #[trigger] groups@[j].short_id@,
            ) by {
                if j == p {
                } else if i == p {
                    assert(text_lt(group.short_id@, old_groups[j - 1].short_id@));
                } else if i < p && j > p {
                    assert(text_lt(group.short_id@, old_groups[j - 1].short_id@));
                    lemma_text_lt_transitive(old_groups[i].short_id@, group.short_id@, old_groups[j - 1].short_id@);
                } else if i > p {
                    assert(text_lt(old_groups[i - 1].short_id@, old_groups[j - 1].short_id@));
                } else {
                    assert(text_lt(old_groups[i].short_id@, old_groups[j].short_id@));
                }
            }
            assert forall|i: int| 0 <= i < groups@.len() implies (#[trigger] groups@[i]).incidents@
                == observations_for(after, namespace, groups@[i].short_id@)
                && groups@[i].incidents@.len() > 0 by {
                if i < p {
                    assert(groups@[i] == old_groups[i]);
                    lemma_text_lt_irreflexive(id@);
                } else if i > p {
                    assert(groups@[i] == old_groups[i - 1]);
                    lemma_text_lt_irreflexive(id@);
                }
            }
            assert forall|sid: Seq<char>| #[trigger] observations_for(after, namespace, sid).len() > 0
                implies exists|i: int| 0 <= i < groups@.len() && groups@[i].short_id@ == sid by {
                if sid == id@ {
                    assert(groups@[p as int].short_id@ == sid);
                } else {
                    assert(observations_for(before, namespace, sid).len() > 0);
                    let i = choose|i: int| 0 <= i < old_groups.len() && old_groups[i].short_id@ == sid;
                    if i < p {
                        assert(groups@[i].short_id@ == sid);
                    } else {
                        assert(groups@[i + 1].short_id@ == sid);
                    }
                }
            }
        }
    }
}

/// The route key under which a workspace of this installation is stored.
pub fn workspace_route_key(installation_id: &str, short_id: &str) -> (key: String)
    ensures
        key@ == installation_id@ + "-"@ + short_id@,
{
    let mut key = installation_id.to_owned();
    key.append("-");
    key.append(short_id);
    key
}

/// The stage at which one collection pass failed; it is retried on the
/// next interval.
#[derive(Debug, Clone, Copy, PartialEq, Eq)]
pub enum CollectionFailure {
    Clock,
    Kubernetes,
    WorkspaceLookup,
    Persistence,
}

impl CollectionFailure {
    /// The stage as it is logged.
    pub fn as_str(self) -> (stage: &'static str)
        ensures
            stage@ == match self {
                CollectionFailure::Clock => "clock"@,
                CollectionFailure::Kubernetes => "kubernetes"@,
                CollectionFailure::WorkspaceLookup => "workspace_lookup"@,
                CollectionFailure::Persistence => "persistence"@,
            },
    {
        match self {
            CollectionFailure::Clock => "clock",
            CollectionFailure::Kubernetes => "kubernetes",
            CollectionFailure::WorkspaceLookup => "workspace_lookup",
            CollectionFailure::Persistence => "persistence",
        }
    }
}

/// What the lookup of a group's workspace leads to: its incidents are
/// stored under the workspace found, a workspace that no longer exists is
/// skipped, and any other failure ends the pass.
pub fn after_workspace_lookup(found: Result<u128, StorageError>) -> (step: Result<
    Option<u128>,
    CollectionFailure,
>)
    ensures
        found matches Ok(id) ==> step == Ok::<Option<u128>, CollectionFailure>(Some(id)),
        found == Err::<u128, StorageError>(StorageError::WorkspaceNotFound) ==> step == Ok::<
            Option<u128>,
            CollectionFailure,
        >(None),
        (found matches Err(e) && e != StorageError::WorkspaceNotFound) ==> step == Err::<
            Option<u128>,
            CollectionFailure,
        >(CollectionFailure::WorkspaceLookup),
{
    match found {
        Ok(id) => Ok(Some(id)),
        Err(StorageError::WorkspaceNotFound) => Ok(None),
        Err(_) => Err(CollectionFailure::WorkspaceLookup),
    }
}

/// The continuation of the next page: none when the list ends, which an
/// absent or empty token marks.
pub fn next_page(continue_token: Option<String>) -> (next: Option<String>)
    ensures
        match continue_token {
            Some(t) => if t@.len() > 0 {
                next == Some(t)
            } else {
                next is None
            },
            None => next is None,
        },
{
    match continue_token {
        Some(t) => {
            if chars_of(t.as_str()).len() > 0 {
                Some(t)
            } else {
                None
            }
        },
        None => None,
    }
}

} // verus!
