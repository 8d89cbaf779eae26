use rustpanel_core::runtime::{
    parse_module_set, RuntimeModules, MODULE_AUDIT, MODULE_CORE, MODULE_DOCKER, MODULE_FILES,
    MODULE_STATIC_SITES,
};

#[test]
fn enabled_list_limits_optional_modules() {
    let modules = RuntimeModules::new(
        Some(parse_module_set("files,static-sites")),
        Vec::new(),
        "micro".to_owned(),
    );

    assert!(modules.is_enabled(MODULE_CORE));
    assert!(modules.is_enabled(MODULE_FILES));
    assert!(modules.is_enabled(MODULE_STATIC_SITES));
    assert!(!modules.is_enabled(MODULE_DOCKER));
}

#[test]
fn disabled_list_overrides_enabled_list() {
    let modules = RuntimeModules::new(
        Some(parse_module_set("docker,files")),
        parse_module_set("docker"),
        "custom".to_owned(),
    );

    assert!(modules.is_enabled(MODULE_FILES));
    assert!(!modules.is_enabled(MODULE_DOCKER));
    assert!(modules.is_enabled(MODULE_AUDIT));
}

#[test]
fn required_modules_cannot_be_disabled() {
    let modules = RuntimeModules::new(None, parse_module_set("core, AUDIT"), "full".to_owned());
    assert!(modules.is_enabled(MODULE_CORE));
    assert!(modules.is_enabled(MODULE_AUDIT));
    assert_eq!(modules.profile(), "full");
    assert!(modules.ensure_enabled(MODULE_CORE).is_ok());
}

#[test]
fn disabled_module_reports_unavailable() {
    let modules = RuntimeModules::new(None, parse_module_set("docker"), "full".to_owned());
    assert!(modules.ensure_enabled(MODULE_DOCKER).is_err());
    let statuses = modules.statuses();
    let docker = statuses.iter().find(|s| s.id == MODULE_DOCKER).expect("docker");
    assert!(!docker.enabled);
}

#[test]
fn environment_switches_build_the_module_state() {
    let modules = rustpanel_core::runtime::from_env(None, Some("docker, Static_Sites"), None, None);
    assert_eq!(modules.profile(), "custom");
    assert!(!modules.is_enabled("docker"));
    assert!(!modules.is_enabled("static-sites"));
    assert!(modules.is_enabled("files"));

    let profiled = rustpanel_core::runtime::from_env(None, None, Some("micro"), Some("other"));
    assert_eq!(profiled.profile(), "micro");
    let fallback = rustpanel_core::runtime::from_env(None, None, None, Some("other"));
    assert_eq!(fallback.profile(), "other");

    let refused = rustpanel_core::runtime::ensure_module_enabled(Some("files"), None, None, None, "docker").unwrap_err();
    assert_eq!(refused.message, "module docker is disabled");
    assert!(rustpanel_core::runtime::ensure_module_enabled(Some("files"), None, None, None, "audit").is_ok());
}
