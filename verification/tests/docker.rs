use rustpanel_core::docker::{compose_services_verdict, container_display_name, container_port, log_tail, validate_tag_rollback, PortInfo, PruneTally};

#[test]
fn maps_container_port_defaults() {
    let port = container_port(PortInfo {
        ip: Some("127.0.0.1".to_owned()),
        private_port: 80,
        public_port: Some(8080),
        protocol: None,
    });

    assert_eq!(port.private_port, 80);
    assert_eq!(port.public_port, 8080);
    assert_eq!(port.protocol, "");
    assert_eq!(port.ip, "127.0.0.1");
}

#[test]
fn unpublished_port_reads_as_zero() {
    let port = container_port(PortInfo { ip: None, private_port: 443, public_port: None, protocol: Some("tcp".into()) });
    assert_eq!(port.public_port, 0);
    assert_eq!(port.ip, "");
    assert_eq!(port.protocol, "tcp");
}

#[test]
fn prune_tally_sums_kinds() {
    let mut tally = PruneTally::new();
    tally.add("containers", 2, Some(100));
    tally.add("images", 1, None);
    assert_eq!(tally.summary(), "containers=2, images=1");
    assert_eq!(tally.deleted_count, 3);
    assert_eq!(tally.reclaimed_bytes, 100);
}

#[test]
fn log_tail_and_tag_rollback_checks() {
    assert_eq!(log_tail(0), "100");
    assert_eq!(log_tail(500), "500");
    assert!(validate_tag_rollback("nginx:1.25", "nginx", "stable").is_ok());
    assert_eq!(validate_tag_rollback("nginx:1.25", "nginx", " ").unwrap_err().message, "target tag is required");
}

#[test]
fn container_names_and_compose_services() {
    assert_eq!(container_display_name(Some(vec!["/web".into(), "/alias".into()])), "web");
    assert_eq!(container_display_name(Some(Vec::new())), "");
    assert_eq!(container_display_name(None), "");
    assert_eq!(compose_services_verdict(None).unwrap_err().message, "compose yaml must contain services");
    assert_eq!(
        compose_services_verdict(Some(0)).unwrap_err().message,
        "compose yaml must contain at least one service"
    );
    assert!(compose_services_verdict(Some(2)).is_ok());
}
