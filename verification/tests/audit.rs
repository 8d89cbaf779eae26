use rustpanel_core::audit::{filter_events, risk_findings, AuditEvent};

fn event(index: u64, module: &str, action: &str, description: &str) -> AuditEvent {
    AuditEvent {
        id: index.to_string(),
        user: "system".to_owned(),
        module: module.to_owned(),
        action: action.to_owned(),
        description: description.to_owned(),
        source_ip: "127.0.0.1".to_owned(),
        level: "warning".to_owned(),
        timestamp_seconds: index,
    }
}

#[test]
fn filters_events_by_module_and_query() {
    let events = vec![event(1, "auth", "login_failed", "invalid password")];
    let filtered = filter_events(events, "auth", "invalid", 10);
    assert_eq!(filtered.len(), 1);
}

#[test]
fn risk_analysis_flags_repeated_login_failures() {
    let events = (0..3)
        .map(|index| event(index, "auth", "login_failed", "bad credentials"))
        .collect::<Vec<_>>();
    let findings = risk_findings(&events);
    assert!(findings[0].contains("3"));
}

#[test]
fn filter_excludes_other_modules_and_respects_limit() {
    let events = vec![
        event(1, "auth", "login_failed", "x"),
        event(2, "files", "delete", "x"),
        event(3, "auth", "login", "x"),
    ];
    let filtered = filter_events(events, "auth", "", 1);
    assert_eq!(filtered.len(), 1);
    assert_eq!(filtered[0].module, "auth");
}
