use rustpanel_core::acme::{http01_challenge_paths, http01_next, Http01Failure, Http01Next, Http01Reply, Http01Stage};
use rustpanel_core::acme::{
    authz_step, challenge_record_name, contact_uri, directory_url, http01_token, is_forbidden_email_domain,
    pending_file_name, use_production, AuthzStatus, AuthzStep,
};

#[test]
fn directory_url_respects_production_env() {
    // No saved settings, no switch: staging.
    let staging = directory_url(use_production(None, None));
    assert!(staging.contains("staging"), "expected staging url, got {staging}");

    let production = directory_url(use_production(None, Some("1")));
    assert!(!production.contains("staging"), "expected production url, got {production}");
}

#[test]
fn directory_url_settings_override_takes_precedence() {
    let url = directory_url(use_production(Some(true), None));
    assert!(!url.contains("staging"), "settings.production=true should pick production, got {url}");
}

#[test]
fn production_switch_accepts_true_in_any_case() {
    assert!(use_production(Some(false), Some("TRUE")));
    assert!(!use_production(Some(false), Some("yes")));
    assert!(!use_production(Some(false), None));
}

#[test]
fn challenge_names_and_tokens() {
    assert_eq!(challenge_record_name("example.com"), "_acme-challenge.example.com");
    assert_eq!(contact_uri("admin@example.com"), "mailto:admin@example.com");
    assert_eq!(pending_file_name("example.com"), "example.com.json");
    assert_eq!(http01_token("tok123.thumb"), "tok123");
    assert_eq!(http01_token("nodot"), "nodot");
}

#[test]
fn forbidden_email_domains_are_refused() {
    assert!(is_forbidden_email_domain("admin@example.com"));
    assert!(!is_forbidden_email_domain("admin@rustpanel.dev"));
}

#[test]
fn authz_step_follows_status() {
    assert_eq!(authz_step(AuthzStatus::Valid), AuthzStep::Done);
    assert_eq!(authz_step(AuthzStatus::Pending), AuthzStep::SetReady);
    assert_eq!(authz_step(AuthzStatus::Expired), AuthzStep::Fail);
}

#[test]
fn http01_exchange_always_ends_by_removing_the_challenge() {
    let (dir, file) = http01_challenge_paths("/var/www/site", "tok");
    assert_eq!(dir, "/var/www/site/.well-known/acme-challenge");
    assert_eq!(file, "/var/www/site/.well-known/acme-challenge/tok");

    assert!(matches!(http01_next(Http01Stage::SetReady, Http01Reply::ReadySet), Http01Next::Request(Http01Stage::PollOrder)));
    assert!(matches!(
        http01_next(Http01Stage::PollOrder, Http01Reply::OrderSettled { ready: true, status: "Ready".to_owned() }),
        Http01Next::Request(Http01Stage::Finalize)
    ));
    match http01_next(Http01Stage::PollOrder, Http01Reply::OrderSettled { ready: false, status: "Invalid".to_owned() }) {
        Http01Next::RemoveChallengeThen(Err(Http01Failure::OrderNotReady(s))) => assert_eq!(s, "Invalid"),
        other => panic!("unexpected {other:?}"),
    }
    let stage = match http01_next(Http01Stage::Finalize, Http01Reply::Finalized("KEY".to_owned())) {
        Http01Next::Request(stage) => stage,
        other => panic!("unexpected {other:?}"),
    };
    match http01_next(stage, Http01Reply::Certificate("CHAIN".to_owned())) {
        Http01Next::RemoveChallengeThen(Ok(cert)) => {
            assert_eq!(cert.certificate_pem, "CHAIN");
            assert_eq!(cert.private_key_pem, "KEY");
        },
        other => panic!("unexpected {other:?}"),
    }
    match http01_next(Http01Stage::SetReady, Http01Reply::Failed("timeout".to_owned())) {
        Http01Next::RemoveChallengeThen(Err(Http01Failure::Request(m))) => assert_eq!(m, "timeout"),
        other => panic!("unexpected {other:?}"),
    }
}
