use rustpanel_core::cluster::{
    local_endpoint, local_node_inbox, node_inbox, paired_node, sanitize_node_name,
    validate_endpoint, validate_pairing_secret,
};
use rustpanel_core::status::Code;

#[test]
fn sanitizes_node_names() {
    assert_eq!(sanitize_node_name("Node A_1").expect("name"), "node-a-1");
}

#[test]
fn validates_empty_pairing_secret() {
    assert!(validate_pairing_secret("", None).is_err());
}

#[test]
fn local_inbox_uses_node_id() {
    let path = local_node_inbox("node-1");
    assert!(std::path::Path::new(&path).ends_with(std::path::Path::new("inbox").join("node-1")));
}

#[test]
fn configured_pairing_secret_must_match() {
    assert!(validate_pairing_secret(" abc ", Some("abc")).is_ok());
    assert_eq!(validate_pairing_secret("abd", Some("abc")).expect_err("mismatch").code(), Code::PermissionDenied);
    assert!(validate_pairing_secret("anything", None).is_ok());
}

#[test]
fn endpoints_and_inboxes() {
    assert_eq!(validate_endpoint("  http://n:1 ").expect("endpoint"), "http://n:1");
    assert!(validate_endpoint(" ").is_err());
    assert_eq!(node_inbox("/data", "n1"), "/data/inbox/n1");
    assert!(local_endpoint("file:///srv"));
    assert!(local_endpoint("local"));
    assert!(!local_endpoint("https://node"));
}

#[test]
fn paired_nodes_get_random_identity() {
    let a = paired_node("n".to_owned(), "local".to_owned(), 9);
    let b = paired_node("n".to_owned(), "local".to_owned(), 9);
    assert_eq!(a.status, "paired");
    assert_ne!(a.id, b.id);
    assert_ne!(a.node_secret, b.node_secret);
    assert_eq!(a.created_at_seconds, 9);
}
