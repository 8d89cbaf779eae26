use rustpanel_core::security::{
    build_firewalld_rule_commands, build_iptables_rule_commands, build_ufw_rule_commands,
    default_waf_rules, firewalld_rich_rule, normalize_panel_access_path, render_ssh_config,
    render_waf_nginx_config, safe_key_name, scan_protection_commands, validate_rule,
    validate_ssh_settings, validate_waf_rule, FirewallAction, FirewallDirection, FirewallOperation,
    FirewallProtocol, FirewallRule, SshSettings, StoredFirewallRule, StoredSshSettings,
    StoredWafSettings, WafRule, WafRuleKind,
};
use rustpanel_core::security_state::{
    apply_switch, find_firewall_rule, stamp_firewall_rule, APPLY_DISABLED_MESSAGE,
    address_filter_parts, address_filter_verdict, auto_ban, AutoBan, SshLoginEvent};
use rustpanel_core::listing::upsert_keyed;
use rustpanel_core::status::Code;

fn sample_rule() -> FirewallRule {
    FirewallRule {
        id: "rule-1".to_owned(),
        name: "ssh".to_owned(),
        protocol: FirewallProtocol::Tcp as i32,
        action: FirewallAction::Allow as i32,
        direction: FirewallDirection::Inbound as i32,
        port_start: 22,
        port_end: 22,
        source: "10.0.0.0/24".to_owned(),
        destination: String::new(),
        enabled: true,
        comment: "office network".to_owned(),
        created_at_seconds: 0,
        updated_at_seconds: 0,
    }
}

#[test]
fn builds_iptables_tcp_rule_with_source_and_comment() {
    let stored = StoredFirewallRule::from_proto(sample_rule());
    let commands = build_iptables_rule_commands(&stored, FirewallOperation::Add).expect("iptables command");

    assert_eq!(commands[0].program, "iptables");
    assert!(commands[0].args.contains(&"--dport".to_owned()));
    assert!(commands[0].args.contains(&"22".to_owned()));
    assert!(commands[0].args.contains(&"10.0.0.0/24".to_owned()));
    assert!(commands[0].args.contains(&"rustpanel:rule-1".to_owned()));
}

#[test]
fn builds_firewalld_icmp_rule() {
    let mut rule = sample_rule();
    rule.protocol = FirewallProtocol::Icmp as i32;
    rule.port_start = 0;
    rule.port_end = 0;
    let stored = StoredFirewallRule::from_proto(rule);

    let rich_rule = firewalld_rich_rule(&stored).expect("rich rule");

    assert!(rich_rule.contains("protocol value=\"icmp\""));
    assert!(rich_rule.contains("source address=\"10.0.0.0/24\""));
}

#[test]
fn normalizes_panel_access_path() {
    assert_eq!(normalize_panel_access_path("/secure/").expect("path"), "/secure");
    assert!(normalize_panel_access_path("secure").is_err());
    assert!(normalize_panel_access_path("/bad path").is_err());
}

#[test]
fn renders_waf_nginx_config_with_presets() {
    let mut settings = StoredWafSettings::default();
    settings.enabled = true;
    settings.cc_protection_enabled = true;
    settings.captcha_challenge_enabled = true;
    let config = render_waf_nginx_config(&settings, &default_waf_rules()).expect("config");

    assert!(config.contains("limit_req_zone"));
    assert!(config.contains("rustpanel-waf-challenge.html"));
    assert!(config.contains("information_schema"));
    assert!(config.contains("wp-config"));
}

#[test]
fn validates_waf_rule_pattern() {
    let rule = WafRule {
        id: String::new(),
        name: "bad".to_owned(),
        kind: WafRuleKind::Xss as i32,
        pattern: "\"bad\"".to_owned(),
        enabled: true,
        scope_domain: String::new(),
        comment: String::new(),
        created_at_seconds: 0,
        updated_at_seconds: 0,
    };

    assert!(validate_waf_rule(&rule).is_err());
}

#[test]
fn renders_ssh_config_with_custom_port_and_password_lock() {
    let mut settings = StoredSshSettings::default();
    settings.port = 2222;
    settings.password_login_disabled = true;
    let config = render_ssh_config(&settings);

    assert!(config.contains("Port 2222"));
    assert!(config.contains("PasswordAuthentication no"));
}

#[test]
fn ufw_rule_lists_every_field_in_order() {
    let stored = StoredFirewallRule::from_proto(sample_rule());
    let commands = build_ufw_rule_commands(&stored, FirewallOperation::Add).expect("ufw");
    assert_eq!(commands[0].program, "ufw");
    assert_eq!(
        commands[0].args,
        vec!["allow", "proto", "tcp", "from", "10.0.0.0/24", "to", "any", "port", "22", "comment", "office network"]
    );
}

#[test]
fn ufw_cannot_manage_icmp() {
    let mut rule = sample_rule();
    rule.protocol = FirewallProtocol::Icmp as i32;
    let stored = StoredFirewallRule::from_proto(rule);
    assert_eq!(build_ufw_rule_commands(&stored, FirewallOperation::Add).expect_err("icmp").code(), Code::Unimplemented);
}

#[test]
fn firewalld_range_uses_dash_and_reloads() {
    let mut rule = sample_rule();
    rule.port_start = 8000;
    rule.port_end = 8080;
    rule.source = String::new();
    let stored = StoredFirewallRule::from_proto(rule);
    let commands = build_firewalld_rule_commands(&stored, FirewallOperation::Delete).expect("firewalld");
    assert_eq!(
        commands[0].args[1],
        "--remove-rich-rule=rule family=\"ipv4\" port port=\"8000-8080\" protocol=\"tcp\" accept"
    );
    assert_eq!(commands[1].args, vec!["--reload"]);
}

#[test]
fn scan_protection_floors_its_parameters() {
    let commands = scan_protection_commands(0, 0);
    assert_eq!(commands.len(), 2);
    assert!(commands[1].args.contains(&"1".to_owned()));
    assert!(commands[1].args.contains(&"2".to_owned()));
}

#[test]
fn rule_ports_are_checked_for_tcp() {
    let mut rule = sample_rule();
    rule.port_start = 0;
    assert_eq!(validate_rule(&rule).expect_err("port").message, "port_start must be 1-65535");
    let mut rule = sample_rule();
    rule.port_end = 10;
    assert!(validate_rule(&rule).is_err());
    assert!(validate_rule(&sample_rule()).is_ok());
}

#[test]
fn ssh_settings_require_a_valid_port() {
    let settings = SshSettings {
        service_enabled: true,
        port: 70000,
        password_login_disabled: false,
        auto_ban_enabled: true,
        failed_attempt_limit: 5,
        failed_attempt_window_seconds: 600,
        config_path: "/etc/ssh/x".to_owned(),
        last_apply_message: String::new(),
    };
    assert!(validate_ssh_settings(&settings).is_err());
}

#[test]
fn key_names_are_reduced_to_safe_characters() {
    assert_eq!(safe_key_name("  My Key_1 ").expect("name"), "my-key-1");
    assert!(safe_key_name(" -- ").is_err());
}

#[test]
fn rejects_invalid_source_filter() {
    let mut rule = sample_rule();
    rule.source = "not-cidr".to_owned();

    // The rule's own fields pass; its source filter is no IP address.
    assert!(validate_rule(&rule).is_ok());
    let (address, prefix) = address_filter_parts(&rule.source).expect("non-blank filter");
    assert_eq!(address, "not-cidr");
    assert!(prefix.is_none());
    let verdict = address_filter_verdict("source", None, prefix.as_deref());
    assert_eq!(verdict.expect_err("invalid source").code, Code::InvalidArgument);
}

#[test]
fn address_filter_prefix_limits() {
    assert_eq!(address_filter_parts(" 10.0.0.0/24 "), Some(("10.0.0.0".to_owned(), Some("24".to_owned()))));
    assert_eq!(address_filter_parts("   "), None);
    assert!(address_filter_verdict("source", Some(true), Some("24")).is_ok());
    assert_eq!(
        address_filter_verdict("source", Some(true), Some("33")).unwrap_err().message,
        "source CIDR prefix must be <= 32"
    );
    assert!(address_filter_verdict("destination", Some(false), Some("64")).is_ok());
    assert_eq!(
        address_filter_verdict("destination", Some(false), Some("x")).unwrap_err().message,
        "destination CIDR prefix is invalid"
    );
}

fn ssh_event(source: &str, successful: bool, at: u64) -> SshLoginEvent {
    SshLoginEvent {
        id: String::new(),
        username: "root".to_owned(),
        source_ip: source.to_owned(),
        successful,
        auto_banned: false,
        message: String::new(),
        occurred_at_seconds: at,
    }
}

#[test]
fn auto_bans_ssh_source_after_failed_attempts() {
    let settings = StoredSshSettings {
        port: 2222,
        failed_attempt_limit: 2,
        failed_attempt_window_seconds: 600,
        auto_ban_enabled: true,
        ..StoredSshSettings::default()
    };
    let mut first = ssh_event("192.0.2.10", false, 100);
    first.id = "first".to_owned();
    let history = vec![first];
    let event = ssh_event("192.0.2.10", false, 200);
    let mut rules: Vec<StoredFirewallRule> = Vec::new();

    let banned = match auto_ban(&settings, &history, &rules, &event, 200) {
        AutoBan::Ban(rule) => {
            rules.push(rule);
            true
        }
        _ => false,
    };

    assert!(banned);
    assert_eq!(rules.len(), 1);
    assert_eq!(rules[0].port_start, 2222);
    assert_eq!(rules[0].action, FirewallAction::Deny as i32);
    assert_eq!(rules[0].source, "192.0.2.10");
    assert_eq!(rules[0].comment, "2 次失败登录后自动封禁");

    // A second event from the banned source finds the rule in place.
    assert!(matches!(auto_ban(&settings, &history, &rules, &event, 201), AutoBan::AlreadyBanned));
}

#[test]
fn auto_ban_ignores_successes_old_failures_and_other_sources() {
    let settings = StoredSshSettings {
        failed_attempt_limit: 3,
        failed_attempt_window_seconds: 60,
        ..StoredSshSettings::default()
    };
    let history = vec![ssh_event("a", false, 10), ssh_event("b", false, 95), ssh_event("a", true, 96)];
    let rules: Vec<StoredFirewallRule> = Vec::new();
    assert!(matches!(auto_ban(&settings, &history, &rules, &ssh_event("a", true, 100), 100), AutoBan::No));
    assert!(matches!(auto_ban(&settings, &history, &rules, &ssh_event("a", false, 100), 100), AutoBan::No));
    let off = StoredSshSettings { auto_ban_enabled: false, failed_attempt_limit: 1, ..StoredSshSettings::default() };
    assert!(matches!(auto_ban(&off, &history, &rules, &ssh_event("a", false, 100), 100), AutoBan::No));
}

#[test]
fn upsert_and_list_firewall_rule() {
    let mut rules: Vec<StoredFirewallRule> = Vec::new();
    let rule = sample_rule();
    validate_rule(&rule).expect("valid");
    let existing = find_firewall_rule(&rules, &rule.id).cloned();
    let stamped = stamp_firewall_rule(rule, existing.as_ref(), 1_000);
    assert_eq!(stamped.name, "ssh");
    upsert_keyed(&mut rules, StoredFirewallRule::from_proto(stamped));

    assert_eq!(rules.len(), 1);
    assert_eq!(rules[0].source, "10.0.0.0/24");
    // Without the apply switch in the environment the rule is only saved.
    assert!(!apply_switch(None));
    assert_eq!(APPLY_DISABLED_MESSAGE, "saved; system firewall apply disabled");

    // Saving the same id again replaces it and keeps its creation time.
    let again = stamp_firewall_rule(sample_rule(), find_firewall_rule(&rules, "rule-1"), 2_000);
    assert_eq!(again.created_at_seconds, 1_000);
    upsert_keyed(&mut rules, StoredFirewallRule::from_proto(again));
    assert_eq!(rules.len(), 1);
    assert_eq!(rules[0].updated_at_seconds, 2_000);
}

fn options(listen: &str, path: &str, two_factor: bool) -> rustpanel_core::security_state::StoredSecurityOptions {
    rustpanel_core::security_state::StoredSecurityOptions {
        disable_ping: false,
        scan_protection_enabled: false,
        scan_burst: 0,
        scan_window_seconds: 0,
        backend_preference: 0,
        last_apply_message: String::new(),
        panel_access_path: path.to_owned(),
        panel_listen_addr: listen.to_owned(),
        two_factor_required: two_factor,
    }
}

#[test]
fn risky_option_changes_schedule_a_thirty_second_rollback() {
    let old = options("0.0.0.0:8080", "/", false);
    let new = options("127.0.0.1:9090", "/secure", true);
    let request = rustpanel_core::security_state::options_rollback_request(&old, &new, "{\"old\":1}".to_owned());
    assert_eq!(
        request.title,
        "面板入口安全选项变更:listen=0.0.0.0:8080 → 127.0.0.1:9090 / path=/ → /secure / 2FA=false → true"
    );
    assert_eq!(request.snapshot_json, "{\"old\":1}");
    assert_eq!(request.rollback_after_seconds, 30);
    assert!(request.revert_command.is_empty());

    let pending = vec!["a1".to_owned(), "b2".to_owned()];
    assert!(rustpanel_core::security_state::watchdog_decision(&pending, "b2"));
    assert!(!rustpanel_core::security_state::watchdog_decision(&pending, "c3"));
    assert!(!rustpanel_core::security_state::watchdog_decision(&Vec::new(), "a1"));
}
