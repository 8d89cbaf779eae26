use rustpanel_core::rollback::{confirm, expire, pending_by_expiry, rollback_delay, schedule, schedule_with_id, StoredAction};
use rustpanel_core::status::Code;

#[test]
fn schedule_then_confirm_cancels_revert() {
    let mut actions: Vec<StoredAction> = Vec::new();
    let action = schedule(
        &mut actions,
        "test".into(),
        "".into(),
        "echo never".into(),
        "{}".into(),
        5,
        1_000,
    )
    .expect("scheduled");
    let id = action.action_id.clone();
    assert_eq!(id.len(), 32);
    assert_eq!(action.expires_at_seconds, 1_005);

    confirm(&mut actions, &id).expect("confirmed");

    // Nothing is pending, and the timer finds nothing to revert.
    assert!(pending_by_expiry(actions.clone()).is_empty());
    assert_eq!(expire(&mut actions, &id), None);
}

#[test]
fn schedule_auto_reverts_after_timeout() {
    let mut actions: Vec<StoredAction> = Vec::new();
    let action = schedule(
        &mut actions,
        "auto-revert-test".into(),
        "".into(),
        "".into(),
        "{}".into(),
        1,
        2_000,
    )
    .expect("scheduled");
    assert_eq!(action.expires_at_seconds, 2_001);

    // The timer fires: the action leaves the list; a blank command runs nothing.
    assert_eq!(expire(&mut actions, &action.action_id), None);
    assert!(pending_by_expiry(actions).is_empty(), "auto revert should clear list");
}

#[test]
fn expiring_action_returns_its_revert_command() {
    let mut actions: Vec<StoredAction> = Vec::new();
    schedule_with_id(&mut actions, "a1".into(), "port".into(), "".into(), "restore-port".into(), "{}".into(), 0, 10)
        .expect("scheduled");
    assert_eq!(actions[0].expires_at_seconds, 40);
    assert_eq!(expire(&mut actions, "a1"), Some("restore-port".to_owned()));
    assert!(actions.is_empty());
}

#[test]
fn blank_title_and_unknown_id_are_refused() {
    let mut actions: Vec<StoredAction> = Vec::new();
    let err = schedule(&mut actions, "  ".into(), "".into(), "".into(), "".into(), 5, 0).unwrap_err();
    assert_eq!(err.code, Code::InvalidArgument);
    assert_eq!(err.message, "title is required");
    let missing = confirm(&mut actions, "nope").unwrap_err();
    assert_eq!(missing.code, Code::NotFound);
    assert_eq!(missing.message, "action_id not found");
}

#[test]
fn delay_defaults_and_caps() {
    assert_eq!(rollback_delay(0), 30);
    assert_eq!(rollback_delay(45), 45);
    assert_eq!(rollback_delay(10_000), 600);
}

#[test]
fn rescheduling_an_id_replaces_it_and_listing_orders_by_expiry() {
    let mut actions: Vec<StoredAction> = Vec::new();
    schedule_with_id(&mut actions, "x".into(), "one".into(), "".into(), "c1".into(), "".into(), 100, 0).unwrap();
    schedule_with_id(&mut actions, "y".into(), "two".into(), "".into(), "c2".into(), "".into(), 10, 0).unwrap();
    schedule_with_id(&mut actions, "x".into(), "three".into(), "".into(), "c3".into(), "".into(), 50, 0).unwrap();
    assert_eq!(actions.len(), 2);
    let listed = pending_by_expiry(actions);
    let ids: Vec<&str> = listed.iter().map(|a| a.action_id.as_str()).collect();
    assert_eq!(ids, vec!["y", "x"]);
    assert_eq!(listed[1].title, "three");
}
