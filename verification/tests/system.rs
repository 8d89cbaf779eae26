use rustpanel_core::runtime::{from_env, ModuleOverride};
use rustpanel_core::status::Code;
use rustpanel_core::system::{HostFacts, SystemServiceImpl};

fn facts() -> HostFacts {
    HostFacts {
        host_name: None,
        hostname_env: None,
        os_name: None,
        os_version: None,
        os_family: "linux".to_owned(),
        kernel_version: None,
        long_os_version: None,
        architecture: "x86_64".to_owned(),
    }
}

#[test]
fn system_health_check_returns_serving_status() {
    let reply = SystemServiceImpl.health_check("0.1.0");
    assert!(reply.serving);
    assert_eq!(reply.status.code, 0);
    assert_eq!(reply.version, "0.1.0");
}

#[test]
fn system_info_falls_back_when_the_host_does_not_say() {
    let info = SystemServiceImpl.get_system_info(facts());
    assert_eq!(info.hostname, "unknown");
    assert_eq!(info.operating_system, "linux");
    assert_eq!(info.kernel_version, "unknown");
    assert_eq!(info.architecture, "x86_64");

    let mut known = facts();
    known.hostname_env = Some("box".into());
    known.os_name = Some("Debian GNU/Linux".into());
    known.os_version = Some("12".into());
    known.long_os_version = Some("Linux 12 Debian".into());
    let info = SystemServiceImpl.get_system_info(known);
    assert_eq!(info.hostname, "box");
    assert_eq!(info.operating_system, "Debian GNU/Linux 12");
    assert_eq!(info.kernel_version, "Linux 12 Debian");
}

#[test]
fn module_list_and_switch() {
    let modules = from_env(Some("monitor"), None, None, Some("micro"));
    let reply = SystemServiceImpl.list_runtime_modules(&modules);
    assert_eq!(reply.profile, "micro");
    let monitor = reply.modules.iter().find(|m| m.id == "monitor").expect("monitor");
    assert!(monitor.enabled);
    let docker = reply.modules.iter().find(|m| m.id == "docker").expect("docker");
    assert!(!docker.enabled);
    assert_eq!(docker.reason, "disabled by micro profile");

    let over = SystemServiceImpl
        .set_module_enabled(ModuleOverride::default(), " docker ", true, &modules)
        .expect("switched");
    assert!(over.enabled.contains(&"docker".to_owned()));
    assert!(over.enabled.contains(&"monitor".to_owned()));
    let err = SystemServiceImpl.set_module_enabled(ModuleOverride::default(), " ", true, &modules).unwrap_err();
    assert_eq!(err.code, Code::InvalidArgument);
}
