use workspace_control::storage::admin_store::{
    membership_removal,
    audit_list_limit, decode_resources, demotes_organization_admin, ensure_another_organization_admin,
    ensure_organization_deleted, ensure_organization_empty, organization_name, page_limit,
    take_page, validate_user_display_name,
};
use workspace_control::storage::audit_store::{like_pattern, normalize_exact, AuditFilter, ValidatedFilter};
use workspace_control::storage::idempotency::{
    ensure_finished, read_decision, reservation_taken, validate, IdempotencyDecision,
    IdempotencyReplay, IdempotencyRow,
};
use workspace_control::storage::identity::{
    ensure_scopes_present, hash_token, token_may_authenticate, validate_token, TemplateAccess,
};
use workspace_control::storage::image_policy_store::{
    decode_contract_version, ensure_image_admitted, upserted_policy, validate_image,
};
use workspace_control::storage::injection_store::{
    count_deleted, decode_nonce, deletion_outcome, ensure_lock_allowed, next_version,
    should_enqueue_reconciles, sorted_unique_keys, StoredInjectionState,
};
use workspace_control::storage::leases::{ensure_lease_owned, lease_acquired, lease_expiry};
use workspace_control::storage::metrics_store::job_counts_from;
use workspace_control::storage::migration::{
    check_runtime_row, valid_dns_label, imported_placement, migrated_placement, migration_step, sorted_unique, temporary_storage_gib,
    MigrationStep,
};
use workspace_control::storage::node_pool_store::{
    enabled_by_default, ensure_node_pool_deletable, selected_name, valid_label_key,
    valid_label_value, valid_node_pool_name, validate_node_pool, NodePoolUsage, PutNodePool,
    ResolvedPlacement, WorkspacePlacement,
};
use workspace_control::storage::template_store::{
    ensure_template_access, ensure_template_deletable, normalize_yaml,
};
use workspace_control::storage::event_store::{event_list_limit, wakes_reader};
use workspace_control::storage::StorageError;
use workspace_control::quota::Resources;
use workspace_control::templates::WorkspaceTemplateSpec;
use workspace_control::workspaces::AccessMode;

fn strings(values: &[&str]) -> Vec<String> {
    values.iter().map(|s| s.to_string()).collect()
}

#[test]
fn node_pool_names_labels_and_requests() {
    assert!(valid_node_pool_name("gpu-a100"));
    assert!(!valid_node_pool_name("1pool"));
    assert!(!valid_node_pool_name("pool-"));
    assert!(!valid_node_pool_name("Pool"));
    assert!(!valid_node_pool_name(&format!("a{}", "b".repeat(63))));
    assert!(valid_label_key("topology.kubernetes.io/zone"));
    assert!(!valid_label_key(""));
    assert!(valid_label_value(""));
    assert!(!valid_label_value("a/b"));
    assert!(enabled_by_default());
    let command = PutNodePool {
        display_name: "GPU".to_owned(),
        placement: ResolvedPlacement {
            selector: vec![("gpu".to_owned(), "a100".to_owned())],
            required_hosts: strings(&["node-1"]),
            preferred_hosts: Vec::new(),
        },
        enabled: true,
    };
    assert_eq!(validate_node_pool("gpu", &command), Ok(()));
    let mut bad = command.clone();
    bad.display_name = " GPU".to_owned();
    assert_eq!(validate_node_pool("gpu", &bad), Err(StorageError::InvalidNodePool));
    let mut bad = command.clone();
    bad.placement.required_hosts.push(String::new());
    assert_eq!(validate_node_pool("gpu", &bad), Err(StorageError::InvalidNodePool));
    let mut bad = command;
    bad.placement.selector = (0..33).map(|i| (format!("k{i}"), "v".to_owned())).collect();
    assert_eq!(validate_node_pool("gpu", &bad), Err(StorageError::InvalidNodePool));
}

#[test]
fn node_pool_selection_and_deletion() {
    let placement = WorkspacePlacement {
        default_node_pool: "default".to_owned(),
        allowed_node_pools: strings(&["default", "gpu"]),
    };
    assert_eq!(selected_name(&placement, None), Ok("default".to_owned()));
    assert_eq!(selected_name(&placement, Some("gpu")), Ok("gpu".to_owned()));
    assert_eq!(selected_name(&placement, Some("cpu")), Err(StorageError::NodePoolNotAllowed));
    let idle = NodePoolUsage {
        enabled: false,
        workspace_in_use: false,
        template_in_use: false,
    };
    assert_eq!(ensure_node_pool_deletable("default", Some(idle)), Err(StorageError::NodePoolInUse));
    assert_eq!(ensure_node_pool_deletable("gpu", None), Err(StorageError::NodePoolNotFound));
    assert_eq!(ensure_node_pool_deletable("gpu", Some(idle)), Ok(()));
    let busy = NodePoolUsage {
        template_in_use: true,
        ..idle
    };
    assert_eq!(ensure_node_pool_deletable("gpu", Some(busy)), Err(StorageError::NodePoolInUse));
}

#[test]
fn idempotent_requests_reserve_replay_and_conflict() {
    assert_eq!(validate("scope", "key"), Ok(()));
    assert_eq!(validate("", "key"), Err(StorageError::InvalidIdempotencyKey));
    assert_eq!(validate("s", &"k".repeat(256)), Err(StorageError::InvalidIdempotencyKey));
    assert!(reservation_taken(1) && !reservation_taken(0));
    assert_eq!(ensure_finished(1), Ok(()));
    assert_eq!(ensure_finished(0), Err(StorageError::IdempotencyReservationLost));
    let running = IdempotencyRow {
        request_hash: "h1".to_owned(),
        status_code: 0,
        response_json: String::new(),
    };
    assert_eq!(read_decision(running.clone(), "h1"), Ok(IdempotencyDecision::InProgress));
    assert_eq!(read_decision(running, "h2"), Ok(IdempotencyDecision::Conflict));
    let done = IdempotencyRow {
        request_hash: "h1".to_owned(),
        status_code: 201,
        response_json: "{\"id\":1}".to_owned(),
    };
    assert_eq!(
        read_decision(done, "h1"),
        Ok(IdempotencyDecision::Replay(IdempotencyReplay {
            status_code: 201,
            response_json: "{\"id\":1}".to_owned()
        }))
    );
    let damaged = IdempotencyRow {
        request_hash: "h1".to_owned(),
        status_code: 70_000,
        response_json: String::new(),
    };
    assert_eq!(read_decision(damaged, "h1"), Err(StorageError::IdempotencyReservationLost));
}

#[test]
fn administration_checks() {
    assert_eq!(page_limit(None), 50);
    assert_eq!(page_limit(Some(0)), 1);
    assert_eq!(page_limit(Some(500)), 200);
    assert_eq!(audit_list_limit(5_000), 1_000);
    assert_eq!(take_page(vec![1, 2, 3], 2), (vec![1, 2], true));
    assert_eq!(take_page(vec![1, 2], 2), (vec![1, 2], false));
    assert_eq!(organization_name("  Acme  "), Ok("Acme".to_owned()));
    assert_eq!(organization_name("   "), Err(StorageError::InvalidWorkspace));
    assert_eq!(organization_name(&"x".repeat(121)), Err(StorageError::InvalidWorkspace));
    assert_eq!(ensure_organization_empty(1), Err(StorageError::OrganizationInUse));
    assert_eq!(ensure_organization_deleted(0), Err(StorageError::OrganizationNotFound));
    assert_eq!(validate_user_display_name(Some(" ")), Err(StorageError::InvalidUserProfile));
    assert_eq!(validate_user_display_name(None), Ok(()));
    assert!(demotes_organization_admin(Some("organization_admin"), false));
    assert!(!demotes_organization_admin(Some("organization_admin"), true));
    assert!(!demotes_organization_admin(Some("member"), false));
    assert_eq!(ensure_another_organization_admin(1), Err(StorageError::LastOrganizationAdmin));
    assert_eq!(ensure_another_organization_admin(2), Ok(()));
    assert_eq!(decode_resources(1, 2, 3, 4).map(|r| r.gpu_count), Ok(3));
    assert_eq!(decode_resources(1, -2, 3, 4), Err(StorageError::InvalidWorkspace));
}

#[test]
fn audit_filters_are_normalized_and_escaped() {
    assert_eq!(normalize_exact(Some("  deploy ".to_owned())), Ok(Some("deploy".to_owned())));
    assert_eq!(normalize_exact(Some("   ".to_owned())), Ok(None));
    assert_eq!(normalize_exact(Some("a\u{7}".to_owned())), Err(StorageError::InvalidAuditQuery));
    assert_eq!(normalize_exact(Some("x".repeat(129))), Err(StorageError::InvalidAuditQuery));
    assert_eq!(like_pattern(Some("50%_A\\b")), Some("%50\\%\\_a\\\\b%".to_owned()));
    assert_eq!(like_pattern(None), None);
    let filter = AuditFilter {
        organization_id: None,
        limit: 0,
        offset: 10,
        action: None,
        actor: Some(" Ann ".to_owned()),
        workspace: None,
        query: None,
    };
    let validated = ValidatedFilter::new(filter.clone()).unwrap();
    assert_eq!(validated.limit, 1);
    assert_eq!(validated.fetch_limit, 2);
    assert_eq!(validated.actor.as_deref(), Some("Ann"));
    assert_eq!(validated.actor_like.as_deref(), Some("%ann%"));
    assert_eq!(validated.page(vec!['a', 'b']), Ok((vec!['a'], Some(11))));
    assert_eq!(validated.page(vec!['a']), Ok((vec!['a'], None)));
    let too_far = AuditFilter {
        offset: u64::MAX,
        ..filter
    };
    assert_eq!(ValidatedFilter::new(too_far), Err(StorageError::InvalidAuditQuery));
}

#[test]
fn tokens_and_template_allowlists() {
    assert!(!token_may_authenticate("short"));
    assert!(token_may_authenticate(&"t".repeat(32)));
    assert_eq!(validate_token("short"), Err(StorageError::TokenTooShort));
    assert_eq!(hash_token("abc"), "ba7816bf8f01cfea414140de5dae2223b00361a396177a9cb410ff61f20015ad");
    assert_eq!(ensure_scopes_present(Vec::<u8>::new()), Err(StorageError::InvalidApiKey));
    assert_eq!(ensure_scopes_present(vec![1u8]), Ok(vec![1u8]));
}

#[test]
fn template_allowlist_distinguishes_unrestricted_empty_and_selected() {
    let template_id = 0x0190_0000_0000_7000_8000_0000_0000_0001u128;
    let other_template_id = 0x0190_0000_0000_7000_8000_0000_0000_0002u128;
    let mut access = TemplateAccess {
        allowed_template_ids: None,
    };
    assert!(access.may_use_template(template_id));
    assert!(access.may_access_workspace_template(None));
    access.allowed_template_ids = Some(Vec::new());
    assert!(!access.may_use_template(template_id));
    assert!(!access.may_access_workspace_template(None));
    access.allowed_template_ids = Some(vec![template_id]);
    assert!(access.may_use_template(template_id));
    assert!(!access.may_use_template(other_template_id));
    assert!(access.may_access_workspace_template(Some(template_id)));
    assert!(access.has_template_restriction());
}

#[test]
fn images_and_templates() {
    assert_eq!(validate_image(" registry.example/dev:1 "), Ok(()));
    assert_eq!(validate_image("bad image"), Err(StorageError::InvalidTemplate));
    assert_eq!(validate_image("  "), Err(StorageError::InvalidTemplate));
    let policy = upserted_policy(" img:1 ", true, 7).unwrap();
    assert_eq!(policy.image, "img:1");
    assert_eq!(policy.contract_version, 1);
    assert_eq!(ensure_image_admitted(0), Err(StorageError::ImageNotAllowed));
    assert_eq!(decode_contract_version(70_000), Err(StorageError::InvalidTemplate));
    assert_eq!(normalize_yaml("kind: Template"), Ok("kind: Template\n".to_owned()));
    assert_eq!(normalize_yaml("a\n"), Ok("a\n".to_owned()));
    assert_eq!(normalize_yaml(" \n "), Err(StorageError::InvalidTemplate));
    assert_eq!(normalize_yaml(&"a".repeat(128 * 1024 + 1)), Err(StorageError::InvalidTemplate));
    assert_eq!(ensure_template_deletable(true, true), Err(StorageError::TemplateMustBeDisabled));
    assert_eq!(ensure_template_deletable(false, true), Err(StorageError::TemplateInUse));
    assert_eq!(ensure_template_deletable(false, false), Ok(()));
    let spec = WorkspaceTemplateSpec {
        image: "img".to_owned(),
        access_mode: AccessMode::Internal,
        resources: Resources::default(),
        buildkit: false,
        cluster_access: true,
    };
    assert_eq!(ensure_template_access(Some(&spec), false), Err(StorageError::PrivilegedTemplateForbidden));
    assert_eq!(ensure_template_access(Some(&spec), true), Ok(()));
    assert_eq!(ensure_template_access(None, true), Err(StorageError::TemplateNotFound));
}

#[test]
fn migrations_accept_only_known_versions() {
    assert_eq!(migration_step(23, 40), Ok(MigrationStep::Current));
    assert_eq!(migration_step(22, 40), Ok(MigrationStep::Upgrade));
    assert_eq!(migration_step(0, 0), Ok(MigrationStep::Bootstrap));
    for version in [20, 21, 24] {
        assert_eq!(migration_step(version, 40), Err(StorageError::UnsupportedDatabaseVersion));
    }
    assert_eq!(migration_step(0, 3), Err(StorageError::UnsupportedDatabaseVersion));
    assert_eq!(temporary_storage_gib(None, None, None, None), 22);
    assert_eq!(temporary_storage_gib(Some(0), None, None, None), 1);
    assert_eq!(temporary_storage_gib(Some(5_000), None, None, None), 2_048);
    assert_eq!(temporary_storage_gib(None, Some(u64::MAX), Some(1), None), 2_048);
    assert_eq!(temporary_storage_gib(None, Some(1), Some(1), Some(1)), 3);
}

#[test]
fn migrated_placements_sort_and_deduplicate_hosts() {
    assert_eq!(
        sorted_unique(strings(&["b", "a", "b", "ab", "a"])),
        strings(&["a", "ab", "b"])
    );
    assert_eq!(migrated_placement(Vec::new(), Vec::new(), Vec::new()), None);
    let placement = migrated_placement(Vec::new(), strings(&["n2", "n1", "n2"]), strings(&["p"])).unwrap();
    assert_eq!(placement.required_hosts, strings(&["n1", "n2"]));
    let (template, pool) = imported_placement("{}", placement.clone());
    assert_eq!(pool.name, "placement-44136fa355b3678a1146ad16");
    assert_eq!(template.default_node_pool, pool.name);
    assert_eq!(template.allowed_node_pools, vec![pool.name.clone()]);
    assert_eq!(pool.display_name, "Custom placement");
    assert_eq!(pool.placement, placement);
}

#[test]
fn injections_delete_each_key_once_and_respect_locks() {
    assert_eq!(
        sorted_unique_keys(&strings(&["b", "a", "b"])),
        strings(&["a", "b"])
    );
    let locked = StoredInjectionState { locked: true, version: 3 };
    assert_eq!(deletion_outcome(None, false), Ok(false));
    assert_eq!(deletion_outcome(Some(locked), false), Err(StorageError::InvalidInjectionLock));
    assert_eq!(deletion_outcome(Some(locked), true), Ok(true));
    assert_eq!(count_deleted(&[true, false, true]), 2);
    assert!(should_enqueue_reconciles(2) && !should_enqueue_reconciles(0));
    assert_eq!(ensure_lock_allowed(true, false), Err(StorageError::InvalidInjectionLock));
    assert_eq!(ensure_lock_allowed(true, true), Ok(()));
    assert_eq!(next_version(None), Ok(1));
    assert_eq!(next_version(Some(4)), Ok(5));
    assert_eq!(next_version(Some(-1)), Err(StorageError::InvalidEncryptedInjection));
    assert_eq!(decode_nonce("AAAAAAAAAAAAAAAA"), Ok([0u8; 12]));
    assert_eq!(decode_nonce("AAAA"), Err(StorageError::InvalidEncryptedInjection));
    assert_eq!(decode_nonce("not base64!"), Err(StorageError::InvalidEncryptedInjection));
}

#[test]
fn leases_need_an_owner_and_a_representable_expiry() {
    assert_eq!(lease_expiry("worker", 100, 30), Ok(130));
    assert_eq!(lease_expiry("", 100, 30), Err(StorageError::EmptyLeaseOwner));
    assert_eq!(lease_expiry("w", i64::MAX, 1), Err(StorageError::LeaseDurationOverflow));
    assert_eq!(lease_expiry("w", 0, u64::MAX), Err(StorageError::LeaseDurationOverflow));
    assert!(lease_acquired(1) && !lease_acquired(0));
    assert_eq!(ensure_lease_owned(9, 0), Err(StorageError::LeaseNotOwned(9)));
    let counts = job_counts_from(Some(2), None, Some(5), None, Some(10), None);
    assert_eq!((counts.pending, counts.running, counts.completed, counts.failed), (2, 0, 5, 0));
    assert_eq!(counts.oldest_pending_created_at, Some(10));
    assert_eq!(counts.max_active_attempts, 0);
}

#[test]
fn user_search_is_trimmed_lowered_and_escaped() {
    let terms = workspace_control::storage::admin_store::user_search(Some("  Ada_% "));
    assert_eq!(terms.text, "ada_%");
    assert_eq!(terms.pattern, "%ada\\_\\%%");
    let everyone = workspace_control::storage::admin_store::user_search(None);
    assert_eq!(everyone.text, "");
    assert_eq!(everyone.pattern, "%%");
}

#[test]
fn runtime_rows_need_known_scopes_and_dns_label_namespaces() {
    assert!(valid_dns_label("ws-main-00000000000000aa"));
    assert!(valid_dns_label("a"));
    assert!(!valid_dns_label(""));
    assert!(!valid_dns_label("-leading"));
    assert!(!valid_dns_label("trailing-"));
    assert!(!valid_dns_label("Upper"));
    assert!(!valid_dns_label(&"a".repeat(64)));
    assert!(valid_dns_label(&"a".repeat(63)));
    assert_eq!(check_runtime_row("main", "main", "aa", "aa", "shared", "ws-main"), Ok(()));
    for (installation, short_id, scope, namespace) in [
        ("other", "aa", "shared", "ws-main"),
        ("main", "bb", "shared", "ws-main"),
        ("main", "aa", "cluster", "ws-main"),
        ("main", "aa", "dedicated", "ws_main"),
    ] {
        assert_eq!(
            check_runtime_row(installation, "main", short_id, "aa", scope, namespace),
            Err(StorageError::InvalidWorkspace)
        );
    }
}

#[test]
fn event_reads_are_bounded_and_wake_only_their_installation() {
    assert_eq!(event_list_limit(0), 1);
    assert_eq!(event_list_limit(25), 25);
    assert_eq!(event_list_limit(5000), 1000);
    assert!(wakes_reader("main", "main"));
    assert!(!wakes_reader("other", "main"));
}

#[test]
fn grants_bound_even_system_administrators() {
    use_principal_allows();
}

fn use_principal_allows() {
    let allows = workspace_control::storage::identity::principal_allows;
    assert!(!allows(&vec![false, false], true, &vec![true]));
    assert!(!allows(&Vec::new(), true, &Vec::new()));
    assert!(allows(&vec![false, true], true, &Vec::new()));
    assert!(allows(&vec![true], false, &vec![false, true]));
    assert!(!allows(&vec![true], false, &vec![false]));
}

#[test]
fn key_use_is_recorded_at_most_every_five_minutes() {
    let due = workspace_control::storage::identity::key_use_due;
    assert_eq!(due(None, 1_000), (true, 700));
    assert_eq!(due(Some(699), 1_000), (true, 700));
    assert_eq!(due(Some(700), 1_000), (false, 700));
    assert_eq!(due(Some(i64::MIN), i64::MIN + 10), (false, i64::MIN));
}

#[test]
fn encrypted_values_are_bound_to_where_they_are_stored() {
    let injection = workspace_control::storage::injection_store::injection_aad(
        "main",
        "workspace",
        0x018f0000_0000_7000_8000_000000000001,
        "TOKEN",
        12,
    );
    assert_eq!(
        injection,
        "mwc:v1:main:workspace:018f0000-0000-7000-8000-000000000001:TOKEN:12"
    );
    let ssh = workspace_control::storage::ssh_identity::ssh_identity_aad("main", 1);
    assert_eq!(ssh, "main:workspace-ssh:00000000-0000-0000-0000-000000000001:v1");
    assert_eq!(workspace_control::ids::decimal_text(0), "0");
    assert_eq!(workspace_control::ids::decimal_text(u64::MAX), "18446744073709551615");
}

#[test]
fn removing_the_last_active_admin_is_refused() {
    assert_eq!(
        membership_removal(Some("organization_admin"), 1),
        Err(StorageError::LastOrganizationAdmin)
    );
    assert_eq!(membership_removal(Some("organization_admin"), 2), Ok(()));
    assert_eq!(membership_removal(Some("member"), 0), Ok(()));
    assert_eq!(membership_removal(None, 1), Ok(()));
}
