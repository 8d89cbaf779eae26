use rustpanel_core::appstore::{app_templates, resolve_template_version, InstallMethod, InstalledApp};
use rustpanel_core::appstore_plan::{
    apt_failure, apt_marker, apt_runs, apt_summary, apt_update_summary, binary_plan, compose_default_name,
    compose_updated, deploy_app_name, deploy_state, find_template, install_route, installed_record, marked_updated,
    release_version, requested_binary_version, InstallAction,
};
use rustpanel_core::status::Code;

#[test]
fn install_route_follows_the_template_method() {
    assert_eq!(install_route(1, InstallAction::Deploy).unwrap(), InstallMethod::DockerCompose);
    assert_eq!(install_route(2, InstallAction::Update).unwrap(), InstallMethod::NativePackage);
    assert_eq!(install_route(3, InstallAction::Uninstall).unwrap(), InstallMethod::BinaryDownload);
    let err = install_route(0, InstallAction::Deploy).unwrap_err();
    assert_eq!(err.code, Code::Unimplemented);
    assert_eq!(err.message, "install method Unspecified 暂未实现执行路径");
    assert_eq!(install_route(9, InstallAction::Uninstall).unwrap_err().message, "install method Unspecified 暂未实现卸载路径");
}

#[test]
fn templates_are_found_by_slug() {
    let templates = app_templates();
    let redis = find_template(&templates, "redis", "app template not found").expect("redis");
    assert_eq!(redis.slug, "redis");
    let missing = find_template(&templates, "nope", "source template not found").unwrap_err();
    assert_eq!(missing.code, Code::NotFound);
    assert_eq!(missing.message, "source template not found");
}

#[test]
fn deploy_names_default_and_are_sanitized() {
    let default = compose_default_name("redis", "7");
    assert_eq!(default, "redis-7");
    assert_eq!(deploy_app_name("  ", &default).unwrap(), "redis-7");
    assert_eq!(deploy_app_name("My App", &default).unwrap(), "my-app");
    assert_eq!(deploy_app_name("", "").unwrap_err().message, "app name is required");
}

#[test]
fn binary_versions_and_plans() {
    assert_eq!(requested_binary_version(""), None);
    assert_eq!(requested_binary_version(" latest "), None);
    assert_eq!(requested_binary_version(" v0.10.0 ").as_deref(), Some("0.10.0"));
    assert_eq!(requested_binary_version("0.10.0").as_deref(), Some("0.10.0"));
    assert_eq!(release_version("vv1.2"), "1.2");

    assert_eq!(binary_plan("rpxy", InstallAction::Deploy).unwrap().install_to, "/usr/local/bin/rpxy");
    assert_eq!(
        binary_plan("redis", InstallAction::Deploy).unwrap_err().message,
        "BinaryDownload 模板 redis 暂无安装计划(只在 Phase G 5 个包里实现)"
    );
    assert_eq!(binary_plan("redis", InstallAction::Update).unwrap_err().message, "BinaryDownload 模板 redis 暂无安装计划");
    assert_eq!(deploy_state(true), "planned");
    assert_eq!(deploy_state(false), "installed");
}

#[test]
fn records_are_made_and_updated() {
    let app = installed_record("redis".into(), "redis".into(), "7".into(), "redis:7".into(), "/x".into(), "installed", 10);
    assert_eq!((app.installed_at_seconds, app.updated_at_seconds), (10, 10));
    let template = app_templates().into_iter().find(|t| t.slug == "redis").expect("redis");
    let version = resolve_template_version(&template, "").expect("version");
    let image = version.image.clone();
    let updated = compose_updated(app, version, 20);
    assert_eq!(updated.state, "updated");
    assert_eq!(updated.image, image);
    assert_eq!(updated.installed_at_seconds, 10);
    assert_eq!(updated.updated_at_seconds, 20);

    let plain = InstalledApp {
        app_name: "n".into(),
        slug: "nginx-mainline".into(),
        version: "system".into(),
        image: String::new(),
        compose_path: apt_marker("nginx"),
        state: "installed".into(),
        installed_at_seconds: 1,
        updated_at_seconds: 1,
    };
    assert_eq!(plain.compose_path, "apt:nginx");
    let bumped = marked_updated(plain, Some("1.2".into()), 5);
    assert_eq!((bumped.version.as_str(), bumped.state.as_str(), bumped.updated_at_seconds), ("1.2", "updated", 5));
}

#[test]
fn apt_plans_and_commands() {
    let summary = apt_summary("nginx", true);
    assert!(summary.starts_with("apt 包: nginx\n安装命令: apt-get install -y nginx\n前置: "));
    assert!(summary.ends_with("`systemctl status nginx` 查看运行状况。"));
    assert!(!apt_summary("sqlite3", false).contains("前置"));
    assert!(apt_update_summary("redis-server").starts_with("apt 升级: apt-get install --only-upgrade -y redis-server\n"));

    let runs = apt_runs(InstallAction::Deploy, "sqlite3");
    assert_eq!(runs, vec![vec!["update".to_owned()], vec!["install".into(), "-y".into(), "--no-install-recommends".into(), "sqlite3".into()]]);
    assert_eq!(apt_runs(InstallAction::Uninstall, "x"), vec![vec!["remove".to_owned(), "-y".into(), "x".into()]]);
    let failure = apt_failure(&runs[1], "E: Unable to locate package");
    assert_eq!(failure.code, Code::Unavailable);
    assert_eq!(failure.message, "apt-get install -y --no-install-recommends sqlite3 失败: E: Unable to locate package");
}
