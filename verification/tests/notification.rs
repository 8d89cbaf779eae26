use rustpanel_core::notification::{
    event_enabled, prepare_channel, redact, truncate_history, validate_channel,
    NotificationChannel, NotificationChannelKind, NotificationEventKind, StoredChannel,
    StoredRecord, StoredRule, StoredSettings, HISTORY_MAX, SECRET_REDACTED,
};

#[test]
fn redact_hides_nonempty_secret() {
    let mut channel = NotificationChannel::default();
    channel.secret = "super-secret".to_owned();
    assert_eq!(redact(channel).secret, SECRET_REDACTED);
    let empty = NotificationChannel::default();
    assert_eq!(redact(empty).secret, "");
}

#[test]
fn validate_channel_requires_kind_and_target() {
    let mut channel = NotificationChannel::default();
    channel.name = "ops".to_owned();
    channel.kind = NotificationChannelKind::Webhook as i32;
    channel.target = "https://example.com/hook".to_owned();
    assert!(validate_channel(&channel).is_ok());

    channel.kind = NotificationChannelKind::Unspecified as i32;
    assert!(validate_channel(&channel).is_err());

    channel.kind = NotificationChannelKind::Webhook as i32;
    channel.target = "  ".to_owned();
    assert!(validate_channel(&channel).is_err());
}

#[test]
fn event_enabled_falls_back_to_defaults() {
    let empty = StoredSettings::default();
    assert!(event_enabled(&empty, NotificationEventKind::SshAutoBan));
    assert!(!event_enabled(&empty, NotificationEventKind::LoginFailed));
}

#[test]
fn explicit_rule_overrides_default() {
    let settings = StoredSettings {
        rules: vec![StoredRule { event: NotificationEventKind::LoginFailed as i32, enabled: true, threshold: 3 }],
    };
    assert!(event_enabled(&settings, NotificationEventKind::LoginFailed));
    assert!(event_enabled(&settings, NotificationEventKind::Unspecified));
}

#[test]
fn truncate_history_keeps_tail() {
    let mut history: Vec<StoredRecord> = (0..(HISTORY_MAX + 5))
        .map(|index| StoredRecord {
            id: index.to_string(),
            event: 0,
            title: String::new(),
            body: String::new(),
            occurred_at_seconds: index as u64,
            delivered_channels: Vec::new(),
            failed_channels: Vec::new(),
        })
        .collect();
    truncate_history(&mut history);
    assert_eq!(history.len(), HISTORY_MAX);
    assert_eq!(history.first().map(|r| r.id.as_str()), Some("5"));
}

#[test]
fn saving_a_redacted_channel_keeps_the_secret() {
    let old = StoredChannel {
        id: "c1".to_owned(),
        name: "ops".to_owned(),
        kind: 1,
        target: "https://hook".to_owned(),
        secret: "s3cret".to_owned(),
        enabled: true,
        created_at_seconds: 7,
        updated_at_seconds: 7,
    };
    let shown = redact(old.clone().into_proto());
    let merged = prepare_channel(shown, Some(&old), 50);
    assert_eq!(merged.secret, "s3cret");
    assert_eq!(merged.created_at_seconds, 7);
    assert_eq!(merged.updated_at_seconds, 50);
}
