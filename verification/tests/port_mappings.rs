use workspace_control::storage::port_mappings::{
    check_mapping_request,
    decode_internal_port, issue_port_mapping_ticket, ticket_expiry, ticket_from_random,
    ticket_may_be_exchanged, validate_display_name, validate_http_port,
};
use workspace_control::storage::StorageError;

#[test]
fn accepts_application_ports_and_rejects_platform_ports() {
    assert!(validate_http_port(80).is_ok());
    assert!(validate_http_port(3000).is_ok());
    assert!(validate_http_port(2222).is_err());
    assert!(validate_http_port(7681).is_err());
    assert!(validate_http_port(8080).is_err());
}

#[test]
fn normalizes_display_names_without_accepting_controls() {
    assert_eq!(
        validate_display_name(Some("  frontend  ")).unwrap(),
        Some("frontend".to_owned())
    );
    assert_eq!(validate_display_name(Some("  ")).unwrap(), None);
    assert!(validate_display_name(Some("bad\nname")).is_err());
}

#[test]
fn privileged_and_reserved_ports_are_refused() {
    for port in [0u16, 1, 22, 443 - 1, 1023, 8081, 8443] {
        assert_eq!(validate_http_port(port), Err(StorageError::InvalidPortMappingPort));
    }
    for port in [443u16, 1024, 8000, 65535] {
        assert_eq!(validate_http_port(port), Ok(()));
    }
}

#[test]
fn display_names_are_bounded_and_idempotent() {
    assert_eq!(validate_display_name(None), Ok(None));
    let eighty = "a".repeat(80);
    assert_eq!(validate_display_name(Some(&eighty)), Ok(Some(eighty.clone())));
    let too_long = "a".repeat(81);
    assert_eq!(
        validate_display_name(Some(&too_long)),
        Err(StorageError::InvalidPortMappingDisplayName)
    );
    let once = validate_display_name(Some("  api  ")).unwrap().unwrap();
    assert_eq!(validate_display_name(Some(&once)).unwrap(), Some(once.clone()));
}

#[test]
fn tickets_expire_after_a_minute_and_short_tickets_are_not_exchanged() {
    assert_eq!(ticket_expiry(1_000), Ok(1_060));
    assert_eq!(ticket_expiry(i64::MAX - 10), Err(StorageError::InvalidTicketTtl));
    assert!(!ticket_may_be_exchanged("short"));
    assert!(ticket_may_be_exchanged(&"x".repeat(32)));
    assert_eq!(decode_internal_port(8000), Ok(8000));
    assert_eq!(decode_internal_port(70_000), Err(StorageError::InvalidPortMappingPort));
    assert_eq!(decode_internal_port(-1), Err(StorageError::InvalidPortMappingPort));
}

#[test]
fn tickets_encode_their_random_bytes_and_store_only_a_digest() {
    let random = [0u8; 32];
    let (ticket, hash) = ticket_from_random(&random, 100).unwrap();
    assert_eq!(ticket.ticket, "A".repeat(43));
    assert_eq!(ticket.expires_at, 160);
    assert_eq!(hash.len(), 64);
    assert_ne!(hash, ticket.ticket);
    assert!(ticket_may_be_exchanged(&ticket.ticket));
    let mut other = [0u8; 32];
    other[0] = 0xff;
    let (different, _) = ticket_from_random(&other, 100).unwrap();
    assert!(different.ticket.starts_with("_w"));
    let (issued, issued_hash) = issue_port_mapping_ticket(5).unwrap();
    assert_eq!(issued.ticket.len(), 43);
    assert_eq!(issued.expires_at, 65);
    assert_eq!(issued_hash.len(), 64);
    assert!(matches!(
        issue_port_mapping_ticket(i64::MAX),
        Err(StorageError::InvalidTicketTtl)
    ));
}

#[test]
fn a_mapping_request_checks_the_port_then_the_name() {
    assert_eq!(check_mapping_request(3000, Some("  web  ")), Ok(Some("web".to_owned())));
    assert_eq!(check_mapping_request(3000, Some("   ")), Ok(None));
    assert_eq!(check_mapping_request(22, Some("ssh")), Err(StorageError::InvalidPortMappingPort));
    assert_eq!(
        check_mapping_request(3000, Some("bad\u{7}name")),
        Err(StorageError::InvalidPortMappingDisplayName)
    );
}
