use rustpanel_core::cli::{listen_port, systemd_service, DEFAULT_BIN};

#[test]
fn port_overrides_addr_port() {
    // --addr 127.0.0.1:8080 --port 18080 listens on 127.0.0.1:18080
    assert_eq!(listen_port(8080, Some(18080)), 18080);
    assert_eq!(listen_port(8080, None), 8080);
}

#[test]
fn setup_generates_systemd_service_with_selected_port() {
    let service = systemd_service(DEFAULT_BIN, listen_port(8080, Some(18080)));

    assert!(service.contains("ExecStart=/usr/local/bin/rustpanel-backend --port 18080"));
    assert!(service.contains("RUSTPANEL_JWT_SECRET=replace-with-at-least-32-random-bytes"));
    assert!(service.starts_with("[Unit]\nDescription=RustPanel backend service\n"));
    assert!(service.ends_with("WantedBy=multi-user.target\n"));
}
