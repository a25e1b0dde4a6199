use workspace_control::runtime_incidents::{
    after_workspace_lookup, group_by_workspace, next_page, normalized_incident,
    workspace_route_key, CollectionFailure, EventSeries, InvolvedObject, RuntimeEvent,
};
use workspace_control::storage::runtime_incidents::RuntimeEventCategory;
use workspace_control::storage::StorageError;

const NAMESPACE: &str = "workspaces";

fn event(pod: &str, message: &str, created: i64) -> RuntimeEvent {
    RuntimeEvent {
        type_: Some("Warning".to_owned()),
        reason: Some("Evicted".to_owned()),
        message: Some(message.to_owned()),
        involved_object: InvolvedObject {
            kind: Some("Pod".to_owned()),
            namespace: Some(NAMESPACE.to_owned()),
            name: Some(pod.to_owned()),
        },
        event_time: None,
        first_timestamp: None,
        creation_timestamp: Some(created),
        last_timestamp: None,
        count: None,
        series: None,
    }
}

#[test]
fn a_page_is_grouped_by_workspace_in_order() {
    let events = vec![
        event("w-00000000000000bb-0", "The node was low on resource: memory.", 10),
        event("w-00000000000000aa-0", "Unclassified eviction", 20),
        event("w-other-0", "Unclassified eviction", 30),
        event("w-00000000000000bb-0", "node had DiskPressure", 40),
    ];
    let groups = group_by_workspace(&events, NAMESPACE);
    assert_eq!(groups.len(), 2);
    assert_eq!(groups[0].short_id, "00000000000000aa");
    assert_eq!(groups[0].incidents.len(), 1);
    assert_eq!(groups[0].incidents[0].category, RuntimeEventCategory::Evicted);
    assert_eq!(groups[1].short_id, "00000000000000bb");
    let categories: Vec<_> = groups[1].incidents.iter().map(|i| i.category).collect();
    assert_eq!(
        categories,
        vec![RuntimeEventCategory::MemoryPressure, RuntimeEventCategory::DiskPressure]
    );
    assert_eq!(groups[1].incidents[1].observed_at, 40);

    let mut normal = event("w-00000000000000cc-0", "Started", 50);
    normal.type_ = Some("Normal".to_owned());
    assert!(group_by_workspace(&vec![normal], NAMESPACE).is_empty());
}

#[test]
fn collection_steps() {
    assert_eq!(workspace_route_key("main", "00000000000000aa"), "main-00000000000000aa");
    assert_eq!(after_workspace_lookup(Ok(9)), Ok(Some(9)));
    assert_eq!(after_workspace_lookup(Err(StorageError::WorkspaceNotFound)), Ok(None));
    assert_eq!(
        after_workspace_lookup(Err(StorageError::InvalidWorkspace)),
        Err(CollectionFailure::WorkspaceLookup)
    );
    assert_eq!(CollectionFailure::WorkspaceLookup.as_str(), "workspace_lookup");
    assert_eq!(next_page(Some("next-page".to_owned())), Some("next-page".to_owned()));
    assert_eq!(next_page(Some(String::new())), None);
    assert_eq!(next_page(None), None);
}

#[test]
fn recurrences_keep_the_incident_key() {
    let first = event("w-00000000000000aa-0", "The node was low on resource: ephemeral-storage.", 100);
    let mut later = event("w-00000000000000aa-0", "The node was low on resource: ephemeral-storage.", 100);
    later.last_timestamp = Some(160);
    later.count = Some(3);
    later.series = Some(EventSeries { count: Some(4), last_observed_time: Some(190) });
    let a = normalized_incident(&first).unwrap();
    let b = normalized_incident(&later).unwrap();
    assert_eq!((a.category, a.observed_at), (b.category, b.observed_at));
    assert_eq!((a.count, a.last_observed_at), (1, 100));
    assert_eq!((b.count, b.last_observed_at), (4, 190));
}
