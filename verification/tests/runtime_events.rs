use workspace_control::runtime_incidents::{
    event_start, normalized_incident, runtime_event_category, workspace_short_id, EventSeries,
    InvolvedObject, RuntimeEvent,
};
use workspace_control::storage::runtime_incidents::RuntimeEventCategory;

const NAMESPACE: &str = "workspaces";
const CREATED: i64 = 1_789_552_800;

fn event(message: &str) -> RuntimeEvent {
    RuntimeEvent {
        type_: Some("Warning".to_owned()),
        reason: Some("Evicted".to_owned()),
        message: Some(message.to_owned()),
        involved_object: InvolvedObject {
            kind: Some("Pod".to_owned()),
            namespace: Some(NAMESPACE.to_owned()),
            name: Some("w-8000000000000001-0".to_owned()),
        },
        event_time: None,
        first_timestamp: None,
        creation_timestamp: Some(CREATED),
        last_timestamp: None,
        count: Some(2),
        series: None,
    }
}

#[test]
fn eviction_resource_causes_take_precedence_over_generic_evicted() {
    for (message, expected) in [
        (
            "The node was low on resource: ephemeral-storage. secret-node",
            RuntimeEventCategory::EphemeralStorage,
        ),
        (
            "Container exceeded ephemeral storage limit",
            RuntimeEventCategory::EphemeralStorage,
        ),
        (
            "The node was low on resource: memory.",
            RuntimeEventCategory::MemoryPressure,
        ),
        ("MemoryPressure", RuntimeEventCategory::MemoryPressure),
        ("node had DiskPressure", RuntimeEventCategory::DiskPressure),
        ("node had PIDPressure", RuntimeEventCategory::PidPressure),
        (
            "The node was low on resource: pid.",
            RuntimeEventCategory::PidPressure,
        ),
        ("Unclassified eviction", RuntimeEventCategory::Evicted),
    ] {
        let incident = normalized_incident(&event(message)).unwrap();
        assert_eq!(incident.category, expected);
        assert_eq!(incident.count, 2);
        assert!(!format!("{incident:?}").contains("secret-node"));
    }
}

#[test]
fn mapping_survives_pod_deletion_but_rejects_unrelated_names_and_namespaces() {
    let mut event = event("evicted");
    assert_eq!(
        workspace_short_id(&event.involved_object, NAMESPACE),
        Some("8000000000000001".to_owned())
    );
    for name in ["w-8000000000000001-1", "w-other-0", "w-800000000000000G-0"] {
        event.involved_object.name = Some(name.into());
        assert_eq!(workspace_short_id(&event.involved_object, NAMESPACE), None);
    }
    event.involved_object.name = Some("w-8000000000000001-0".into());
    event.involved_object.namespace = Some("other".into());
    assert_eq!(workspace_short_id(&event.involved_object, NAMESPACE), None);
}

#[test]
fn normal_events_and_missing_timestamps_are_not_persisted() {
    let mut event = event("Successfully started container");
    event.reason = Some("Started".into());
    assert!(normalized_incident(&event).is_none());
    event.reason = Some("Evicted".into());
    event.creation_timestamp = None;
    assert!(normalized_incident(&event).is_none());
}

#[test]
fn successful_volume_events_never_become_background_incidents() {
    let mut event = event("AttachVolume.Attach succeeded for volume workspace-scratch");
    event.reason = Some("SuccessfulAttachVolume".into());
    event.type_ = Some("Normal".into());
    assert!(normalized_incident(&event).is_none());
    event.type_ = None;
    assert!(normalized_incident(&event).is_none());
}

#[test]
fn temporary_volume_trouble_is_told_apart_from_other_volume_trouble() {
    let reason = |text: &str| Some(text.to_owned());
    assert_eq!(
        runtime_event_category(&reason("ProvisioningFailed"), &reason("failed to provision PersistentVolumeClaim")),
        RuntimeEventCategory::TemporaryStorageProvisioning
    );
    assert_eq!(
        runtime_event_category(&reason("FailedAttachVolume"), &reason("attach of workspace-scratch timed out")),
        RuntimeEventCategory::TemporaryStorageAttachment
    );
    assert_eq!(
        runtime_event_category(&reason("FailedMount"), &reason("unable to mount")),
        RuntimeEventCategory::VolumeUnavailable
    );
    assert_eq!(
        runtime_event_category(&None, &reason("Back-off restarting failed container")),
        RuntimeEventCategory::Other
    );
    assert_eq!(runtime_event_category(&None, &None), RuntimeEventCategory::Other);
}

#[test]
fn series_observations_keep_their_start_and_report_the_latest_count() {
    let mut first = event("The node was low on resource: ephemeral-storage.");
    first.event_time = Some(CREATED + 1);
    first.series = Some(EventSeries {
        count: Some(5),
        last_observed_time: Some(CREATED + 40),
    });
    let incident = normalized_incident(&first).unwrap();
    assert_eq!(incident.observed_at, CREATED + 1);
    assert_eq!(event_start(&first), Some(CREATED + 1));
    assert_eq!(incident.last_observed_at, CREATED + 40);
    assert_eq!(incident.count, 5);
    assert_eq!(incident.incident().count, 5);
    first.series = None;
    first.count = Some(-3);
    first.last_timestamp = Some(CREATED + 9);
    let incident = normalized_incident(&first).unwrap();
    assert_eq!(incident.count, 1);
    assert_eq!(incident.last_observed_at, CREATED + 9);
    first.event_time = None;
    first.first_timestamp = Some(CREATED - 7);
    assert_eq!(event_start(&first), Some(CREATED - 7));
}
