//! The decisions of deploying, updating and removing store apps: which
//! install path a template takes, the names, versions and records each path
//! produces, and the package-manager commands it runs.

use vstd::prelude::*;

use crate::appstore::{
    install_plan_spec, phase_g_install_plan, sanitize_app_name, AppTemplate, AppVersion,
    BinaryInstallPlan, InstallMethod, InstalledApp,
};
use crate::status::{Code, Status};
use crate::text::{all_ws, chars_of, eq_str, is_blank, slug_spec, string_of, trim, trim_seq};

verus! {

/// What is asked of an installed or installable app.
#[derive(Clone, Copy, Debug, PartialEq, Eq, Structural)]
pub enum InstallAction {
    Deploy,
    Uninstall,
    Update,
}

/// The install method a template's code names; unknown codes read as
/// unspecified.
pub open spec fn method_of(code: i32) -> InstallMethod {
    if code == 1 {
        InstallMethod::DockerCompose
    } else if code == 2 {
        InstallMethod::NativePackage
    } else if code == 3 {
        InstallMethod::BinaryDownload
    } else {
        InstallMethod::Unspecified
    }
}

/// The path an action takes for a template's install method: compose,
/// package or binary; any other method has no such path yet.
pub fn install_route(code: i32, action: InstallAction) -> (r: Result<InstallMethod, Status>)
    ensures
        method_of(code) != InstallMethod::Unspecified ==> r == Ok::<InstallMethod, Status>(method_of(code)),
        method_of(code) == InstallMethod::Unspecified ==> (r matches Err(e) && e.code == Code::Unimplemented
            && e.message@ == "install method Unspecified 暂未实现"@ + match action {
                InstallAction::Deploy => "执行路径"@,
                InstallAction::Uninstall => "卸载路径"@,
                InstallAction::Update => "更新路径"@,
            }),
{
    if code == 1 {
        Ok(InstallMethod::DockerCompose)
    } else if code == 2 {
        Ok(InstallMethod::NativePackage)
    } else if code == 3 {
        Ok(InstallMethod::BinaryDownload)
    } else {
        let mut m = "install method Unspecified 暂未实现".to_string();
        match action {
            InstallAction::Deploy => m.append("执行路径"),
            InstallAction::Uninstall => m.append("卸载路径"),
            InstallAction::Update => m.append("更新路径"),
        }
        Err(Status::new(Code::Unimplemented, m.as_str()))
    }
}

/// The first template with `slug`; when there is none, a not-found status
/// with `missing`.
pub fn find_template<'a>(templates: &'a Vec<AppTemplate>, slug: &str, missing: &str) -> (r: Result<&'a AppTemplate, Status>)
    ensures
        r matches Ok(t) ==> exists|i: int| 0 <= i < templates@.len() && templates@[i] == *t
            && t.slug@ == slug@ && forall|j: int| 0 <= j < i ==> (#[trigger] templates@[j]).slug@ != slug@,
        r is Err ==> (forall|j: int| 0 <= j < templates@.len() ==> (#[trigger] templates@[j]).slug@ != slug@),
        r matches Err(e) ==> e.code == Code::NotFound && e.message@ == missing@,
{
    let mut i: usize = 0;
    while i < templates.len()
        invariant
            i <= templates@.len(),
            forall|j: int| 0 <= j < i ==> (#[trigger] templates@[j]).slug@ != slug@,
        decreases templates@.len() - i,
    {
        if eq_str(templates[i].slug.as_str(), slug) {
            return Ok(&templates[i]);
        }
        i += 1;
    }
    Err(Status::new(Code::NotFound, missing))
}

/// The name an app is deployed under: the requested name, or `default` when
/// none is requested, made fit for a directory (see [`sanitize_app_name`]).
pub fn deploy_app_name(requested: &str, default: &str) -> (r: Result<String, Status>)
    ensures
        ({
            let source = if all_ws(requested@) { default@ } else { requested@ };
            &&& slug_spec(source).len() == 0 ==> (r matches Err(e) && e.code == Code::InvalidArgument
                && e.message@ == "app name is required"@)
            &&& slug_spec(source).len() > 0 ==> (r matches Ok(s) && s@ == slug_spec(source))
        }),
{
    if is_blank(requested) {
        sanitize_app_name(default)
    } else {
        sanitize_app_name(requested)
    }
}

/// The default name of a compose deployment: `<slug>-<version>`.
pub fn compose_default_name(slug: &str, version: &str) -> (r: String)
    ensures
        r@ == slug@ + "-"@ + version@,
{
    let mut s = slug.to_string();
    s.append("-");
    s.append(version);
    s
}

/// The install plan of a binary template; a template without one is
/// refused (deploying says which packages have plans).
pub fn binary_plan(slug: &str, action: InstallAction) -> (r: Result<BinaryInstallPlan, Status>)
    ensures
        install_plan_spec(slug@) matches Some(p) ==> r == Ok::<BinaryInstallPlan, Status>(p),
        install_plan_spec(slug@) is None ==> (r matches Err(e) && e.code == Code::FailedPrecondition
            && e.message@ == "BinaryDownload 模板 "@ + slug@ + if action == InstallAction::Deploy {
                " 暂无安装计划(只在 Phase G 5 个包里实现)"@
            } else {
                " 暂无安装计划"@
            }),
{
    match phase_g_install_plan(slug) {
        Some(p) => Ok(p),
        None => {
            let mut m = "BinaryDownload 模板 ".to_string();
            m.append(slug);
            if action == InstallAction::Deploy {
                m.append(" 暂无安装计划(只在 Phase G 5 个包里实现)");
            } else {
                m.append(" 暂无安装计划");
            }
            Err(Status::failed_precondition(m.as_str()))
        },
    }
}

/// `s` without its leading `v`s.
pub open spec fn strip_v(s: Seq<char>) -> Seq<char>
    decreases s.len(),
{
    if s.len() > 0 && s[0] == 'v' { strip_v(s.drop_first()) } else { s }
}

/// A release tag as a bare version: without its leading `v`s.
pub fn release_version(tag: &str) -> (r: String)
    ensures
        r@ == strip_v(tag@),
{
    let v = chars_of(tag);
    let mut i: usize = 0;
    assert(v@.skip(0) =~= v@);
    while i < v.len() && v[i] == 'v'
        invariant
            i <= v@.len(),
            v@ == tag@,
            strip_v(v@.skip(i as int)) == strip_v(tag@),
        decreases v@.len() - i,
    {
        assert(v@.skip(i as int).drop_first() =~= v@.skip(i + 1));
        i += 1;
    }
    assert(strip_v(v@.skip(i as int)) == v@.skip(i as int));
    string_of(&v, i, v.len())
}

/// The version a binary request names by itself: the trimmed request
/// without its leading `v`s, unless it is blank or `latest` (then the
/// latest release must be looked up).
pub fn requested_binary_version(requested: &str) -> (r: Option<String>)
    ensures
        (trim_seq(requested@).len() == 0 || trim_seq(requested@) == "latest"@) ==> r is None,
        !(trim_seq(requested@).len() == 0 || trim_seq(requested@) == "latest"@) ==> (r matches Some(s)
            && s@ == strip_v(trim_seq(requested@))),
{
    let t = trim(requested);
    if t.as_str().is_empty() || eq_str(t.as_str(), "latest") {
        None
    } else {
        Some(release_version(t.as_str()))
    }
}

/// The state an app is recorded in: `planned` on a dry run, else
/// `installed`.
pub fn deploy_state(dry_run: bool) -> (r: &'static str)
    ensures
        r@ == if dry_run { "planned"@ } else { "installed"@ },
{
    if dry_run { "planned" } else { "installed" }
}

/// The record of a fresh deployment at `now`.
pub fn installed_record(
    app_name: String,
    slug: String,
    version: String,
    image: String,
    compose_path: String,
    state: &str,
    now: i64,
) -> (r: InstalledApp)
    ensures
        r.app_name == app_name && r.slug == slug && r.version == version && r.image == image
            && r.compose_path == compose_path,
        r.state@ == state@,
        r.installed_at_seconds == now && r.updated_at_seconds == now,
{
    InstalledApp {
        app_name,
        slug,
        version,
        image,
        compose_path,
        state: state.to_string(),
        installed_at_seconds: now,
        updated_at_seconds: now,
    }
}

/// A compose app moved to `version` at `now`: its version and image change
/// and it is marked updated.
pub fn compose_updated(app: InstalledApp, version: AppVersion, now: i64) -> (r: InstalledApp)
    ensures
        r.version == version.version && r.image == version.image,
        r.state@ == "updated"@,
        r.updated_at_seconds == now,
        r.app_name == app.app_name && r.slug == app.slug && r.compose_path == app.compose_path
            && r.installed_at_seconds == app.installed_at_seconds,
{
    let mut app = app;
    app.version = version.version;
    app.image = version.image;
    app.state = "updated".to_string();
    app.updated_at_seconds = now;
    app
}

/// An app marked updated at `now`, with `version` when one is given.
pub fn marked_updated(app: InstalledApp, version: Option<String>, now: i64) -> (r: InstalledApp)
    ensures
        r.version == match version {
            Some(v) => v,
            None => app.version,
        },
        r.state@ == "updated"@,
        r.updated_at_seconds == now,
        r.app_name == app.app_name && r.slug == app.slug && r.image == app.image
            && r.compose_path == app.compose_path && r.installed_at_seconds == app.installed_at_seconds,
{
    let mut app = app;
    match version {
        Some(v) => {
            app.version = v;
        },
        None => {},
    }
    app.state = "updated".to_string();
    app.updated_at_seconds = now;
    app
}

/// Where a package-installed app records its package: `apt:<package>`.
pub fn apt_marker(package: &str) -> (r: String)
    ensures
        r@ == "apt:"@ + package@,
{
    let mut s = "apt:".to_string();
    s.append(package);
    s
}

/// The plan text shown for a package install.
pub open spec fn apt_summary_spec(package: Seq<char>, has_pre_install: bool) -> Seq<char> {
    "apt 包: "@ + package + "\n安装命令: apt-get install -y "@ + package + (if has_pre_install {
        "\n前置: 已添加 nginx.org 官方 apt 源 + GPG key + pinning(预编译 deb,无本地编译)"@
    } else {
        Seq::<char>::empty()
    }) + "\n备注: 由 apt 控制启动 / 服务状态,RustPanel 不接管 systemd 单元。\n下一步: 若包提供服务(redis-server / postgresql / nginx),`systemctl status "@
        + package + "` 查看运行状况。"@
}

pub fn apt_summary(package: &str, has_pre_install: bool) -> (r: String)
    ensures
        r@ == apt_summary_spec(package@, has_pre_install),
{
    let mut s = "apt 包: ".to_string();
    s.append(package);
    s.append("\n安装命令: apt-get install -y ");
    s.append(package);
    if has_pre_install {
        s.append("\n前置: 已添加 nginx.org 官方 apt 源 + GPG key + pinning(预编译 deb,无本地编译)");
    }
    s.append("\n备注: 由 apt 控制启动 / 服务状态,RustPanel 不接管 systemd 单元。\n下一步: 若包提供服务(redis-server / postgresql / nginx),`systemctl status ");
    s.append(package);
    s.append("` 查看运行状况。");
    assert(s@ =~= apt_summary_spec(package@, has_pre_install));
    s
}

/// The plan text shown for a package upgrade.
pub fn apt_update_summary(package: &str) -> (r: String)
    ensures
        r@ == "apt 升级: apt-get install --only-upgrade -y "@ + package@
            + "\n备注: 系统包升级由 apt 源决定可获取版本,RustPanel 不强制锁定版本号。"@,
{
    let mut s = "apt 升级: apt-get install --only-upgrade -y ".to_string();
    s.append(package);
    s.append("\n备注: 系统包升级由 apt 源决定可获取版本,RustPanel 不强制锁定版本号。");
    s
}

/// The `apt-get` runs of an action on a package, in order: an install and
/// an upgrade refresh the package lists first; a removal keeps the
/// configuration (no purge).
pub fn apt_runs(action: InstallAction, package: &str) -> (r: Vec<Vec<String>>)
    ensures
        action == InstallAction::Deploy ==> r@.len() == 2 && r@[0]@.len() == 1 && r@[0]@[0]@ == "update"@
            && r@[1]@.len() == 4 && r@[1]@[0]@ == "install"@ && r@[1]@[1]@ == "-y"@
            && r@[1]@[2]@ == "--no-install-recommends"@ && r@[1]@[3]@ == package@,
        action == InstallAction::Uninstall ==> r@.len() == 1 && r@[0]@.len() == 3 && r@[0]@[0]@ == "remove"@
            && r@[0]@[1]@ == "-y"@ && r@[0]@[2]@ == package@,
        action == InstallAction::Update ==> r@.len() == 2 && r@[0]@.len() == 1 && r@[0]@[0]@ == "update"@
            && r@[1]@.len() == 4 && r@[1]@[0]@ == "install"@ && r@[1]@[1]@ == "--only-upgrade"@
            && r@[1]@[2]@ == "-y"@ && r@[1]@[3]@ == package@,
{
    match action {
        InstallAction::Deploy => vec![
            vec!["update".to_string()],
            vec!["install".to_string(), "-y".to_string(), "--no-install-recommends".to_string(), package.to_string()],
        ],
        InstallAction::Uninstall => vec![vec!["remove".to_string(), "-y".to_string(), package.to_string()]],
        InstallAction::Update => vec![
            vec!["update".to_string()],
            vec!["install".to_string(), "--only-upgrade".to_string(), "-y".to_string(), package.to_string()],
        ],
    }
}

/// The error of a failed `apt-get` run: its arguments joined by spaces and
/// what it printed on standard error.
pub fn apt_failure(args: &Vec<String>, stderr: &str) -> (r: Status)
    ensures
        r.code == Code::Unavailable,
        r.message@ == "apt-get "@ + crate::text::join(crate::text::views(args@), " "@) + " 失败: "@ + stderr@,
{
    let mut m = "apt-get ".to_string();
    let joined = crate::text::join_strings(args, " ");
    m.append(joined.as_str());
    m.append(" 失败: ");
    m.append(stderr);
    Status::new(Code::Unavailable, m.as_str())
}

} // verus!
