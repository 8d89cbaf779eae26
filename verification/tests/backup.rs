use rustpanel_core::backup::{
    prepare_target, redact, upsert_target, validate_target, webdav_url, BackupTarget,
    BackupTargetKind, StoredTarget, SECRET_REDACTED,
};

fn stored(id: &str, password: &str) -> StoredTarget {
    StoredTarget {
        id: id.to_owned(),
        name: "nas".to_owned(),
        kind: BackupTargetKind::Webdav as i32,
        endpoint: "https://dav.example.com".to_owned(),
        username: "u".to_owned(),
        password: password.to_owned(),
        enabled: true,
        created_at_seconds: 5,
    }
}

#[test]
fn validate_target_checks_kind_and_endpoint() {
    let mut target = BackupTarget::default();
    target.name = "nas".to_owned();
    target.kind = BackupTargetKind::Webdav as i32;
    target.endpoint = "https://dav.example.com/backups".to_owned();
    assert!(validate_target(&target).is_ok());

    target.endpoint = String::new();
    assert!(validate_target(&target).is_err());

    target.kind = BackupTargetKind::Local as i32;
    assert!(validate_target(&target).is_ok());

    target.kind = BackupTargetKind::Unspecified as i32;
    assert!(validate_target(&target).is_err());
}

#[test]
fn redact_hides_password() {
    let mut target = BackupTarget::default();
    target.password = "hunter2".to_owned();
    assert_eq!(redact(target).password, SECRET_REDACTED);
}

#[test]
fn webdav_url_joins_endpoint_and_name() {
    let target = StoredTarget {
        id: String::new(),
        name: String::new(),
        kind: BackupTargetKind::Webdav as i32,
        endpoint: "https://dav.example.com/backups/".to_owned(),
        username: String::new(),
        password: String::new(),
        enabled: true,
        created_at_seconds: 0,
    };
    assert_eq!(webdav_url(&target, "x.tar.gz"), "https://dav.example.com/backups/x.tar.gz");
}

#[test]
fn redacted_password_round_trip_keeps_the_secret() {
    let old = stored("t1", "hunter2");
    let shown = redact(old.clone().into_proto());
    let merged = prepare_target(shown, Some(&old), 100);
    assert_eq!(merged.password, "hunter2");
    assert_eq!(merged.created_at_seconds, 5);
}

#[test]
fn new_target_gets_fresh_id_and_creation_time() {
    let mut incoming = BackupTarget::default();
    incoming.password = "p".to_owned();
    let merged = prepare_target(incoming, None, 100);
    assert_eq!(merged.id.len(), 36);
    assert_eq!(merged.created_at_seconds, 100);
    assert_eq!(merged.password, "p");
}

#[test]
fn upsert_replaces_by_id_and_appends() {
    let mut targets = vec![stored("a", "1"), stored("b", "2"), stored("c", "3")];
    upsert_target(&mut targets, stored("b", "9"));
    let ids: Vec<&str> = targets.iter().map(|t| t.id.as_str()).collect();
    assert_eq!(ids, vec!["a", "c", "b"]);
    assert_eq!(targets[2].password, "9");
}
