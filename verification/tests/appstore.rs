use rustpanel_core::appstore::{
    compose_file, app_templates, asset_download_url, evaluate_compatibility, expand_asset_pattern,
    phase_g_install_plan, render_install_plan_summary, render_sws_site_config,
    resolve_template_version, sanitize_app_name, site_to_rpxy_app_block, slug_to_apt_package,
    slug_to_apt_pre_install, static_site_to_sws_args, AppCategory,
    CompatibilityStatus, InstallMethod, SiteItem,
    SiteKind,
};
use rustpanel_core::capability::{Capabilities, DiskBudget, MemoryBudget, ResourceBudget};

#[test]
fn templates_expose_multiple_runtime_versions() {
    let php = app_templates()
        .into_iter()
        .find(|template| template.slug == "php")
        .expect("php template");

    assert_eq!(php.default_version, "8.3");
    assert!(php.versions.iter().any(|version| version.version == "8.2"));
}

#[test]
fn phase_g_rust_stack_templates_present() {
    let templates = app_templates();
    let expected = [
        ("rpxy", AppCategory::WebServer, "https://github.com/junkurihara/rust-rpxy"),
        ("static-web-server", AppCategory::WebServer, "https://static-web-server.net/"),
        ("leaf", AppCategory::Vpn, "https://github.com/eycorsican/leaf"),
        ("vsmtp", AppCategory::Tool, "https://www.vsmtp.rs/"),
        ("tuic", AppCategory::Vpn, "https://github.com/EAimTY/tuic"),
    ];
    for (slug, category, homepage) in expected {
        let template = templates
            .iter()
            .find(|template| template.slug == slug)
            .unwrap_or_else(|| panic!("missing phase-g template: {slug}"));
        assert_eq!(template.install_method, InstallMethod::BinaryDownload as i32, "{slug} must install from upstream binary");
        assert_eq!(template.category, category as i32, "{slug} category mismatch");
        assert_eq!(template.default_version, "latest", "{slug} should default to latest");
        assert!(
            template.versions.iter().any(|version| version.version == "latest" && version.recommended),
            "{slug} should expose recommended latest version"
        );
        assert_eq!(template.homepage, homepage, "{slug} homepage field mismatch");
    }
}

#[test]
fn every_template_has_homepage() {
    for template in app_templates() {
        assert!(!template.homepage.is_empty(), "template `{}` is missing homepage", template.slug);
        assert!(
            template.homepage.starts_with("http://") || template.homepage.starts_with("https://"),
            "template `{}` homepage should be a URL, got: {}",
            template.slug,
            template.homepage
        );
    }
}

#[test]
fn templates_are_sorted_by_category_then_recommended_then_name() {
    let templates = app_templates();
    assert_eq!(templates.len(), 23);
    for pair in templates.windows(2) {
        let (a, b) = (&pair[0], &pair[1]);
        let key_a = (a.category, !a.recommended, a.name.clone());
        let key_b = (b.category, !b.recommended, b.name.clone());
        assert!(key_a <= key_b, "{} before {}", a.slug, b.slug);
    }
}

fn make_site(kind: SiteKind, name: &str, domain: &str) -> SiteItem {
    SiteItem {
        name: name.to_owned(),
        domains: vec![domain.to_owned()],
        root: String::new(),
        proxy_target: String::new(),
        ssl_enabled: false,
        config_path: String::new(),
        engine: String::new(),
        public_path: String::new(),
        listen_addr: String::new(),
        kind: kind as i32,
        tls_strategy: 0,
        systemd_unit: String::new(),
        internal_port: 0,
    }
}

#[test]
fn site_to_rpxy_app_block_for_reverse_proxy_includes_upstream() {
    let mut site = make_site(SiteKind::ReverseProxy, "blog", "blog.example.com");
    site.proxy_target = "127.0.0.1:8080".to_owned();
    site.ssl_enabled = true;
    let block = site_to_rpxy_app_block(&site).expect("reverse-proxy block");
    assert!(block.contains("[apps.\"blog\"]"));
    assert!(block.contains("server_name = \"blog.example.com\""));
    assert!(block.contains("location = \"127.0.0.1:8080\""));
    assert!(block.contains("tls_cert_path = "));
    assert!(block.contains("tls_cert_key_path = "));
    assert!(block.contains("blog.example.com/fullchain.pem"));
    assert!(block.contains("blog.example.com/privkey.pem"));
    assert!(!block.contains("acme = true"));
}

#[test]
fn site_to_rpxy_app_block_for_rust_binary_uses_loopback_port() {
    let mut site = make_site(SiteKind::RustBinary, "api", "api.example.com");
    site.internal_port = 4321;
    let block = site_to_rpxy_app_block(&site).expect("rust-binary block");
    assert!(block.contains("location = \"127.0.0.1:4321\""));
    assert!(!block.contains("tls_cert_path"));
    assert!(!block.contains("tls = "));
}

#[test]
fn site_to_rpxy_app_block_skips_pure_static() {
    let mut site = make_site(SiteKind::Static, "docs", "docs.example.com");
    site.root = "/var/www/docs".to_owned();
    assert!(site_to_rpxy_app_block(&site).is_none());
}

#[test]
fn site_to_rpxy_app_block_skips_missing_upstream() {
    let site = make_site(SiteKind::ReverseProxy, "bare", "bare.example.com");
    assert!(site_to_rpxy_app_block(&site).is_none());
    let site = make_site(SiteKind::RustBinary, "bare", "bare.example.com");
    assert!(site_to_rpxy_app_block(&site).is_none());
    let mut site = make_site(SiteKind::ReverseProxy, "nodom", "");
    site.domains.clear();
    site.proxy_target = "127.0.0.1:1".to_owned();
    assert!(site_to_rpxy_app_block(&site).is_none());
}

#[test]
fn render_sws_site_config_emits_required_fields() {
    let config = render_sws_site_config("/var/www/blog", 9001);
    assert!(config.contains("host = \"127.0.0.1\""));
    assert!(config.contains("port = 9001"));
    assert!(config.contains("root = \"/var/www/blog\""));
    assert!(config.contains("compression = true"));
    assert!(config.contains("cache-control-headers = true"));
}

#[test]
fn static_site_to_sws_args_only_when_ready() {
    let mut site = make_site(SiteKind::Static, "docs", "docs.example.com");
    site.root = "/var/www/docs".to_owned();
    assert!(static_site_to_sws_args(&site).is_none());
    site.internal_port = 9001;
    assert_eq!(static_site_to_sws_args(&site), Some(("/var/www/docs".to_owned(), 9001)));
    let mut site = make_site(SiteKind::ReverseProxy, "x", "x.example.com");
    site.root = "/var/www/x".to_owned();
    site.internal_port = 9001;
    assert!(static_site_to_sws_args(&site).is_none());
}

#[test]
fn slug_to_apt_package_maps_known_slugs_and_falls_back() {
    assert_eq!(slug_to_apt_package("redis-tuned"), "redis-server");
    assert_eq!(slug_to_apt_package("postgres-tiny"), "postgresql");
    assert_eq!(slug_to_apt_package("sqlite"), "sqlite3");
    assert_eq!(slug_to_apt_package("nginx-light"), "nginx-light");
    assert_eq!(slug_to_apt_package("fail2ban"), "fail2ban");
    assert_eq!(slug_to_apt_package("certbot"), "certbot");
    assert_eq!(slug_to_apt_package("nginx-mainline"), "nginx");
    assert_eq!(slug_to_apt_package("nonexistent"), "nonexistent");
}

#[test]
fn nginx_mainline_has_apt_repo_pre_install_script() {
    let script = slug_to_apt_pre_install("nginx-mainline").expect("script");
    assert!(script.contains("nginx.org"));
    assert!(script.contains("nginx_signing.key"));
    assert!(script.contains("nginx-archive-keyring.gpg"));
    assert!(script.contains("/etc/apt/sources.list.d/nginx.list"));
    assert!(script.contains("/etc/apt/preferences.d/99nginx"));
    assert!(slug_to_apt_pre_install("nginx-light").is_none());
    assert!(slug_to_apt_pre_install("redis-tuned").is_none());
}

#[test]
fn expand_asset_pattern_substitutes_version_and_handles_v_prefix() {
    assert_eq!(expand_asset_pattern("rpxy-{version}-x86_64-linux.tar.gz", "0.10.0"), "rpxy-0.10.0-x86_64-linux.tar.gz");
    assert_eq!(expand_asset_pattern("sws-v{version}-musl.tar.gz", "2.32.0"), "sws-v2.32.0-musl.tar.gz");
    assert_eq!(expand_asset_pattern("sws-v{version}-musl/sws", "2.32.0"), "sws-v2.32.0-musl/sws");
    assert_eq!(expand_asset_pattern("tuic-server", "0.0.1"), "tuic-server");
}

#[test]
fn asset_download_url_matches_github_release_layout() {
    assert_eq!(
        asset_download_url("junkurihara/rust-rpxy", "v0.10.0", "rpxy-0.10.0-x86_64-unknown-linux-musl.tar.gz"),
        "https://github.com/junkurihara/rust-rpxy/releases/download/v0.10.0/rpxy-0.10.0-x86_64-unknown-linux-musl.tar.gz",
    );
}

#[test]
fn render_install_plan_summary_lists_key_fields() {
    let plan = phase_g_install_plan("rpxy").expect("rpxy plan");
    let summary = render_install_plan_summary(&plan, "0.10.0", "rpxy-0.10.0-x86_64-linux.tar.gz");
    assert!(summary.contains("junkurihara/rust-rpxy"));
    assert!(summary.contains("0.10.0"));
    assert!(summary.contains("rpxy-0.10.0-x86_64-linux.tar.gz"));
    assert!(summary.contains("/usr/local/bin/rpxy"));
    assert!(summary.contains("/etc/rpxy/config.toml"));
    assert!(summary.contains("systemd unit: /etc/systemd/system/rpxy.service"));
}

#[test]
fn phase_g_install_plans_present() {
    let slugs = ["rpxy", "static-web-server", "leaf", "vsmtp", "tuic"];
    for slug in slugs {
        let plan = phase_g_install_plan(slug).unwrap_or_else(|| panic!("no install plan for slug: {slug}"));
        assert!(!plan.upstream_repo.is_empty(), "{slug} plan must set upstream_repo");
        assert!(plan.asset_pattern.contains("{version}"), "{slug} asset_pattern must contain {{version}} placeholder");
        assert!(plan.install_to.starts_with('/'), "{slug} install_to must be absolute path");
        assert!(plan.config_path.starts_with('/'), "{slug} config_path must be absolute path");
        assert!(plan.systemd_unit.contains("[Service]"), "{slug} systemd_unit must contain [Service] section");
        assert!(plan.systemd_unit.contains(plan.install_to), "{slug} systemd_unit ExecStart should reference install_to");
        assert!(!plan.post_install_hint.is_empty(), "{slug} should provide a post-install hint");
    }
    assert!(phase_g_install_plan("not-a-real-slug").is_none(), "unknown slugs must return None");
}

#[test]
fn default_version_resolves_and_unknown_is_refused() {
    let redis = app_templates().into_iter().find(|t| t.slug == "redis").expect("redis");
    let v = resolve_template_version(&redis, "  ").expect("default");
    assert_eq!(v.version, "7");
    assert_eq!(v.image, "redis:7-alpine");
    assert_eq!(resolve_template_version(&redis, " 6 ").expect("six").image, "redis:6-alpine");
    assert!(resolve_template_version(&redis, "5").is_err());
}

fn host(docker: bool, openvz: bool, iptables: bool) -> Capabilities {
    Capabilities {
        is_openvz: openvz,
        is_container: false,
        kernel_version: String::new(),
        has_overlay2: docker,
        has_fuse: false,
        has_iptables: iptables,
        has_nf_nat: false,
        has_swap: false,
        has_bbr: false,
        has_cgroups_v2: false,
        has_user_namespaces: true,
        docker_running: docker,
        can_run_docker: docker,
        docker_block_reason: String::new(),
        probed_at_seconds: 0,
        recommended_acme_challenge: String::new(),
        acme_challenge_reason: String::new(),
    }
}

fn disk(mount: &str, free: u64) -> DiskBudget {
    DiskBudget {
        mount_point: mount.to_owned(),
        filesystem: "ext4".to_owned(),
        total_bytes: free,
        used_bytes: 0,
        available_bytes: free,
    }
}

fn budget(total_mb: u64, root_free_mb: u64) -> ResourceBudget {
    let total = total_mb * 1024 * 1024;
    ResourceBudget {
        memory: Some(MemoryBudget {
            total_bytes: total,
            used_bytes: 0,
            available_bytes: total,
            swap_total_bytes: 0,
            swap_used_bytes: 0,
        }),
        disks: vec![disk("/boot", 1), disk("/", root_free_mb * 1024 * 1024)],
        ports: None,
        cpu_count: 1,
    }
}

#[test]
fn compatibility_checks_docker_kernel_memory_and_disk() {
    let find = |slug: &str| app_templates().into_iter().find(|t| t.slug == slug).expect("template");
    let mysql = evaluate_compatibility(find("mysql"), &host(false, false, true), &budget(4096, 4096));
    assert_eq!(mysql.compatibility, CompatibilityStatus::NeedsDocker as i32);
    assert_eq!(mysql.compatibility_reason, "本机未启用 Docker");

    let f2b = evaluate_compatibility(find("fail2ban"), &host(true, true, false), &budget(4096, 4096));
    assert_eq!(f2b.compatibility, CompatibilityStatus::KernelUnsupported as i32);

    let pg = evaluate_compatibility(find("postgres-tiny"), &host(true, false, true), &budget(128, 4096));
    assert_eq!(pg.compatibility, CompatibilityStatus::ResourceShort as i32);
    assert_eq!(pg.compatibility_reason, "本机仅 128 MB RAM,该应用建议 ≥ 256 MB");

    let caddy = evaluate_compatibility(find("caddy"), &host(true, false, true), &budget(4096, 10));
    assert_eq!(caddy.compatibility_reason, "/ 可用 10 MB,该应用建议 ≥ 60 MB");

    let sqlite = evaluate_compatibility(find("sqlite"), &host(true, false, true), &budget(4096, 4096));
    assert_eq!(sqlite.compatibility, CompatibilityStatus::Compatible as i32);
}

#[test]
fn app_names_are_sanitized() {
    assert_eq!(sanitize_app_name(" My App! ").expect("name"), "my-app");
    assert!(sanitize_app_name("!!!").is_err());
}

#[test]
fn generated_compose_uses_rustpanel_names() {
    let template = app_templates()
        .into_iter()
        .find(|template| template.slug == "redis")
        .expect("redis template");
    let version = resolve_template_version(&template, "").expect("version");
    let compose = compose_file(&template, &version, "redis").expect("compose");

    assert_eq!(compose.service_name, "rustpanel-redis");
    assert_eq!(compose.service.container_name, "rustpanel-redis");
    assert_eq!(compose.service.command.as_deref(), Some("redis-server --appendonly yes"));
    assert_eq!(compose.volume_name, "rustpanel-redis-data");
}
