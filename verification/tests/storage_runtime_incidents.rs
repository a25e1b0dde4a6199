use workspace_control::storage::runtime_incidents::{
    decode_incident_count, group_incidents, upserted_row, StoredIncidentRow, incident_read_limit, normalized_incidents,
    retention_cutoff, NewWorkspaceRuntimeIncident, RuntimeEventCategory, WorkspaceRuntimeIncident,
    MAX_FUTURE_SKEW_SECONDS, RETENTION_SECONDS,
};
use workspace_control::storage::StorageError;

fn incident(category: RuntimeEventCategory, observed_at: i64, count: u32) -> NewWorkspaceRuntimeIncident {
    NewWorkspaceRuntimeIncident {
        category,
        observed_at,
        count,
    }
}

fn stored(workspace_id: u128, observed_at: i64) -> WorkspaceRuntimeIncident {
    WorkspaceRuntimeIncident {
        workspace_id,
        category: RuntimeEventCategory::Other,
        observed_at,
        count: 1,
    }
}

#[test]
fn normalization_deduplicates_counts_and_rejects_unbounded_timestamps() {
    let now = 2_000_000_000;
    let incidents = normalized_incidents(
        &[
            incident(RuntimeEventCategory::Evicted, now - 5, 1),
            incident(RuntimeEventCategory::Evicted, now - 5, 7),
            incident(RuntimeEventCategory::Other, now - RETENTION_SECONDS - 1, 2),
            incident(
                RuntimeEventCategory::DiskPressure,
                now + MAX_FUTURE_SKEW_SECONDS + 1,
                3,
            ),
        ],
        now,
    );
    assert_eq!(
        incidents,
        vec![incident(RuntimeEventCategory::Evicted, now - 5, 7)]
    );
}

#[test]
fn grouping_enforces_the_per_workspace_response_limit() {
    let first = 0x0190_0000_0000_7000_8000_0000_0000_0001u128;
    let second = 0x0190_0000_0000_7000_8000_0000_0000_0002u128;
    let grouped = group_incidents(
        vec![
            stored(first, 3),
            stored(first, 2),
            stored(first, 1),
            stored(second, 1),
        ],
        2,
    );
    assert_eq!(grouped[&first].len(), 2);
    assert_eq!(grouped[&second].len(), 1);
    assert_eq!(grouped.len(), 2);
    assert_eq!(
        grouped[&first].iter().map(|incident| incident.observed_at).collect::<Vec<_>>(),
        vec![3, 2]
    );
}

#[test]
fn category_names_round_trip_and_unknown_names_are_reported() {
    for category in [
        RuntimeEventCategory::EphemeralStorage,
        RuntimeEventCategory::MemoryPressure,
        RuntimeEventCategory::DiskPressure,
        RuntimeEventCategory::PidPressure,
        RuntimeEventCategory::Evicted,
        RuntimeEventCategory::TemporaryStorageProvisioning,
        RuntimeEventCategory::TemporaryStorageAttachment,
        RuntimeEventCategory::VolumeUnavailable,
        RuntimeEventCategory::Other,
    ] {
        assert_eq!(RuntimeEventCategory::from_stored(category.as_str()), Ok(category));
    }
    assert_eq!(RuntimeEventCategory::DiskPressure.as_str(), "disk_pressure");
    assert_eq!(
        RuntimeEventCategory::from_stored("flood"),
        Err(StorageError::UnknownRuntimeIncidentCategory("flood".to_owned()))
    );
}

#[test]
fn normalization_keeps_the_retention_window_edges_and_sorts() {
    let now = 1_000_000_000;
    let cutoff = retention_cutoff(now);
    assert_eq!(cutoff, now - RETENTION_SECONDS);
    let incidents = normalized_incidents(
        &[
            incident(RuntimeEventCategory::VolumeUnavailable, now + MAX_FUTURE_SKEW_SECONDS, 0),
            incident(RuntimeEventCategory::DiskPressure, cutoff, 4),
            incident(RuntimeEventCategory::DiskPressure, cutoff, 2),
        ],
        now,
    );
    assert_eq!(incidents.len(), 2);
    assert!(incidents.contains(&incident(RuntimeEventCategory::DiskPressure, cutoff, 4)));
    assert!(incidents.contains(&incident(
        RuntimeEventCategory::VolumeUnavailable,
        now + MAX_FUTURE_SKEW_SECONDS,
        1
    )));
    let again = normalized_incidents(&incidents, now);
    assert_eq!(again, incidents);
}

#[test]
fn stored_counts_and_read_limits_are_checked() {
    assert_eq!(decode_incident_count(5), Ok(5));
    assert!(decode_incident_count(-1).is_err());
    assert!(decode_incident_count(i64::from(u32::MAX) + 1).is_err());
    assert!(incident_read_limit(2, 200).is_ok());
}

#[test]
fn repeated_observations_keep_the_greatest_count() {
    let observed = NewWorkspaceRuntimeIncident {
        category: RuntimeEventCategory::Evicted,
        observed_at: 100,
        count: 3,
    };
    let first = upserted_row(None, observed, 200);
    assert_eq!(first, StoredIncidentRow { count: 3, first_seen_at: 200, last_seen_at: 200 });
    let again = upserted_row(Some(first), observed, 260);
    assert_eq!(again, StoredIncidentRow { count: 3, first_seen_at: 200, last_seen_at: 260 });
    let lower = NewWorkspaceRuntimeIncident { count: 1, ..observed };
    assert_eq!(upserted_row(Some(again), lower, 250).count, 3);
    let higher = NewWorkspaceRuntimeIncident { count: 9, ..observed };
    assert_eq!(
        upserted_row(Some(again), higher, 250),
        StoredIncidentRow { count: 9, first_seen_at: 200, last_seen_at: 260 }
    );
}
