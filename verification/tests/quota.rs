use workspace_control::quota::{QuotaError, QuotaResources, ResourceQuota, Resources};

#[test]
fn admits_request_within_aggregate_limit() {
    let quota = ResourceQuota {
        limit: QuotaResources {
            cpu_millis: 4_000,
            memory_mib: 8_192,
            gpu_count: 1,
            disk_gib: 100,
            temporary_storage_gib: 30,
        },
    };
    let proposed = quota
        .try_admit(
            QuotaResources {
                cpu_millis: 1_000,
                ..QuotaResources::default()
            },
            QuotaResources {
                cpu_millis: 2_000,
                memory_mib: 2_048,
                temporary_storage_gib: 10,
                ..QuotaResources::default()
            },
        )
        .unwrap();
    assert_eq!(proposed.cpu_millis, 3_000);
    assert_eq!(proposed.temporary_storage_gib, 10);
}

#[test]
fn reports_exact_exceeded_resource() {
    let quota = ResourceQuota {
        limit: QuotaResources {
            temporary_storage_gib: 10,
            ..QuotaResources::default()
        },
    };
    assert_eq!(
        quota.try_admit(
            QuotaResources::default(),
            QuotaResources {
                temporary_storage_gib: 11,
                ..QuotaResources::default()
            }
        ),
        Err(QuotaError::Exceeded {
            resource: "temporary_storage_gib",
            requested: 11,
            limit: 10,
        })
    );
}

#[test]
fn usage_exactly_at_the_limit_is_admitted() {
    let limit = QuotaResources {
        cpu_millis: 2_000,
        memory_mib: 4_096,
        gpu_count: 2,
        disk_gib: 50,
        temporary_storage_gib: 20,
    };
    let quota = ResourceQuota { limit };
    let usage = QuotaResources {
        cpu_millis: 1_000,
        memory_mib: 2_048,
        gpu_count: 1,
        disk_gib: 25,
        temporary_storage_gib: 10,
    };
    assert_eq!(quota.try_admit(usage, usage), Ok(limit));
}

#[test]
fn admission_is_symmetric_in_usage_and_request() {
    let quota = ResourceQuota {
        limit: QuotaResources {
            cpu_millis: 3_000,
            memory_mib: 3_000,
            gpu_count: 3,
            disk_gib: 3_000,
            temporary_storage_gib: 3_000,
        },
    };
    let a = QuotaResources {
        cpu_millis: 2_500,
        memory_mib: 10,
        ..QuotaResources::default()
    };
    let b = QuotaResources {
        cpu_millis: 600,
        ..QuotaResources::default()
    };
    assert_eq!(quota.try_admit(a, b), quota.try_admit(b, a));
    assert!(matches!(
        quota.try_admit(a, b),
        Err(QuotaError::Exceeded { resource: "cpu_millis", requested: 3_100, limit: 3_000 })
    ));
}

#[test]
fn overflowing_sums_are_reported_as_overflow() {
    let quota = ResourceQuota {
        limit: QuotaResources {
            cpu_millis: u64::MAX,
            ..QuotaResources::default()
        },
    };
    let huge = QuotaResources {
        cpu_millis: u64::MAX,
        ..QuotaResources::default()
    };
    let one = QuotaResources {
        cpu_millis: 1,
        ..QuotaResources::default()
    };
    assert_eq!(quota.try_admit(huge, one), Err(QuotaError::Overflow));
    let a = Resources {
        cpu_millis: 1,
        memory_mib: 2,
        gpu_count: u32::MAX,
        disk_gib: 4,
    };
    let b = Resources {
        gpu_count: 1,
        ..Resources::default()
    };
    assert_eq!(a.checked_add(b), Err(QuotaError::Overflow));
}

#[test]
fn workspace_quota_counts_temporary_storage() {
    let resources = Resources {
        cpu_millis: 500,
        memory_mib: 1_024,
        gpu_count: 0,
        disk_gib: 20,
    };
    let counted = QuotaResources::for_workspace(resources, 22);
    assert_eq!(counted.cpu_millis, 500);
    assert_eq!(counted.memory_mib, 1_024);
    assert_eq!(counted.disk_gib, 20);
    assert_eq!(counted.temporary_storage_gib, 22);
    assert!(resources.valid_workspace_request());
    assert!(!Resources::default().valid_workspace_request());
}
