use rustpanel_core::proxy::{
    exit_state, has_cap_net_admin, log_tail_start, mark_started, normalize_instance, normalize_instance_under,
    overlay_runtime_state, proxy_templates, ssserver_args, ssserver_binary, start_check, vpn_report, ProxyInstance,
    DEFAULT_SS_METHOD,
};
use rustpanel_core::status::Code;

#[test]
fn normalize_defaults_to_shadowsocks() {
    let mut instance = ProxyInstance {
        name: "edge".to_owned(),
        listen_port: 8388,
        password: "secret".to_owned(),
        ..Default::default()
    };

    normalize_instance(&mut instance).expect("normalized");

    assert_eq!(instance.template_id, "shadowsocks-rust");
    assert_eq!(instance.listen_host, "0.0.0.0");
    assert_eq!(instance.method, DEFAULT_SS_METHOD);
}

#[test]
fn normalize_fills_log_path_and_refuses_bad_instances() {
    let mut instance = ProxyInstance {
        id: "p1".to_owned(),
        name: "edge".to_owned(),
        listen_port: 8388,
        password: "secret".to_owned(),
        ..Default::default()
    };
    normalize_instance_under(&mut instance, "/srv/proxy").expect("normalized");
    assert_eq!(instance.log_path, "/srv/proxy/logs/p1.log");
    assert_eq!(instance.state, 1);

    let mut nameless = ProxyInstance { listen_port: 1, password: "x".into(), ..Default::default() };
    assert_eq!(normalize_instance(&mut nameless).unwrap_err().message, "proxy name is required");
    let mut other = ProxyInstance { name: "a".into(), template_id: "v2ray".into(), listen_port: 1, password: "x".into(), ..Default::default() };
    assert_eq!(
        normalize_instance(&mut other).unwrap_err().message,
        "only shadowsocks-rust proxy template is supported"
    );
    let mut portless = ProxyInstance { name: "a".into(), password: "x".into(), ..Default::default() };
    assert_eq!(normalize_instance(&mut portless).unwrap_err().message, "listen_port must be between 1 and 65535");
    let mut open = ProxyInstance { name: "a".into(), listen_port: 1, ..Default::default() };
    assert_eq!(normalize_instance(&mut open).unwrap_err().code, Code::InvalidArgument);
}

#[test]
fn runtime_state_follows_the_process_table() {
    let mut running = ProxyInstance { state: 2, pid: 7, ..Default::default() };
    overlay_runtime_state(&mut running, None);
    assert_eq!((running.state, running.pid), (1, 0));
    overlay_runtime_state(&mut running, Some(42));
    assert_eq!((running.state, running.pid), (2, 42));
}

#[test]
fn templates_and_vpn_report() {
    let templates = proxy_templates();
    assert_eq!(templates.len(), 1);
    assert_eq!(templates[0].default_port, 8388);

    let all = vpn_report(true, true, true);
    assert!(all.vpn_recommended);
    assert_eq!(all.summary, "VPN prerequisites look available");
    let some = vpn_report(true, false, true);
    assert!(!some.vpn_recommended);
    assert_eq!(some.capabilities[1].reason, "process lacks CAP_NET_ADMIN");
}

#[test]
fn cap_net_admin_reads_bit_twelve_of_cap_eff() {
    assert!(has_cap_net_admin("Name:\tx\nCapEff:\t0000003fffffffff\n"));
    assert!(!has_cap_net_admin("CapEff:\t0000000000000000\n"));
    assert!(has_cap_net_admin("CapEff:\t1000\n"));
    assert!(!has_cap_net_admin("CapPrm:\tffff\n"));
}

#[test]
fn server_binary_arguments_and_checks() {
    assert_eq!(ssserver_binary(Some("/opt/ss"), Some("/x")), "/opt/ss");
    assert_eq!(ssserver_binary(None, Some("/x")), "/x/ssserver");
    assert_eq!(ssserver_binary(None, None), "/usr/local/bin/ssserver");

    assert_eq!(start_check(true, "/b", true).unwrap_err().code, Code::AlreadyExists);
    assert_eq!(
        start_check(false, "/b", false).unwrap_err().message,
        "shadowsocks-rust ssserver not found at /b; install micro proxy runtime first"
    );
    assert!(start_check(false, "/b", true).is_ok());

    let instance = ProxyInstance {
        listen_host: "0.0.0.0".into(),
        listen_port: 8388,
        method: "m".into(),
        password: "p".into(),
        ..Default::default()
    };
    assert_eq!(ssserver_args(&instance), vec!["-s", "0.0.0.0:8388", "-m", "m", "-k", "p"]);
    let started = mark_started(instance, 99, 5);
    assert_eq!((started.state, started.pid, started.updated_at_seconds), (2, 99, 5));
    assert_eq!(exit_state(true), 1);
    assert_eq!(exit_state(false), 3);
}

#[test]
fn log_tail_clamps_the_request() {
    assert_eq!(log_tail_start(1000, 100), 900);
    assert_eq!(log_tail_start(1000, 0), 999);
    assert_eq!(log_tail_start(10, 100), 0);
    assert_eq!(log_tail_start(1_000_000, 10_000_000), 1_000_000 - 262_144);
}
