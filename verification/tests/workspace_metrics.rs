use workspace_control::quota::Resources;
use workspace_control::storage::installation_identity::{ensure_installation_matches, stored_seconds};
use workspace_control::storage::metrics_store::{
    aggregate_workspace_metrics, StateCount, WorkspaceMetricRow,
};
use workspace_control::storage::StorageError;

fn row(user_id: u128, state: &str, workspace_count: i64, cpu_millis: u64) -> WorkspaceMetricRow {
    WorkspaceMetricRow {
        user_id,
        state: state.to_owned(),
        workspace_count,
        resources: Resources { cpu_millis, memory_mib: 512, gpu_count: 0, disk_gib: 10 },
    }
}

fn count(state: &str, count: i64) -> StateCount {
    StateCount { state: state.to_owned(), count }
}

#[test]
fn metrics_sum_by_state_and_owner_in_order() {
    let metrics = aggregate_workspace_metrics(vec![
        row(2, "running", 1, 1000),
        row(1, "stopped", 2, 500),
        row(1, "running", 3, 250),
    ]);
    assert_eq!(metrics.states, vec![count("running", 4), count("stopped", 2)]);
    assert_eq!(metrics.users.len(), 2);
    assert_eq!(metrics.users[0].user_id, 1);
    assert_eq!(metrics.users[0].states, vec![count("running", 3), count("stopped", 2)]);
    assert_eq!(
        metrics.users[0].resources,
        Resources { cpu_millis: 750, memory_mib: 1024, gpu_count: 0, disk_gib: 20 }
    );
    assert_eq!(metrics.users[1].user_id, 2);
    assert_eq!(metrics.users[1].states, vec![count("running", 1)]);
}

#[test]
fn owner_resources_saturate() {
    let metrics = aggregate_workspace_metrics(vec![
        row(7, "running", 1, u64::MAX - 1),
        row(7, "stopped", 1, 5),
    ]);
    assert_eq!(metrics.users[0].resources.cpu_millis, u64::MAX);
    assert!(aggregate_workspace_metrics(Vec::new()).states.is_empty());
}

#[test]
fn the_database_must_belong_to_the_configured_installation() {
    assert_eq!(ensure_installation_matches("main", "main"), Ok(()));
    assert_eq!(
        ensure_installation_matches("main", "other"),
        Err(StorageError::InstallationMismatch {
            configured: "main".to_owned(),
            stored: "other".to_owned(),
        })
    );
    assert_eq!(stored_seconds(1_700_000_000), Ok(1_700_000_000));
    assert_eq!(stored_seconds(u64::MAX), Err(StorageError::Clock));
}
