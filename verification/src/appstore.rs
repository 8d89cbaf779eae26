//! App store planning: the template catalogue and its compatibility with the
//! host, apt package names, binary install plans, rpxy and static-web-server
//! site fragments, and the names that installs are kept under.

use vstd::prelude::*;

use crate::capability::{Capabilities, DiskBudget, ResourceBudget};
use crate::status::{Code, Status};
use crate::text::{
    all_ws, chars_of, dec, eq_str, is_blank, last_index_of, lemma_last_index_of, occurs_at,
    occurs_at_exec, push_char, push_u64, rfind_char, slug_spec, slug_text, string_of, trim,
    trim_seq, views, seq_lt, str_lt, lemma_seq_lt_irreflexive, lemma_seq_lt_transitive,
};
use vstd::multiset::Multiset;

verus! {

pub const DEFAULT_APPSTORE_ROOT: &'static str = "/tmp/rustpanel/appstore";
pub const RPXY_FRAGMENT_DIR: &'static str = "/etc/rpxy/sites.d";
pub const SWS_CONFIG_DIR: &'static str = "/etc/sws";
pub const SYSTEMD_UNIT_DIR: &'static str = "/etc/systemd/system";
/// Where the certificates issued for a domain are kept, one directory per
/// domain.
pub const ACME_CERT_ROOT: &'static str = "/etc/letsencrypt/live";

pub const NGINX_MAINLINE_PREINSTALL: &'static str = "set -euo pipefail\nexport DEBIAN_FRONTEND=noninteractive\napt-get update\napt-get install -y curl gnupg2 ca-certificates lsb-release debian-archive-keyring\ninstall -d -m 0755 /usr/share/keyrings\ncurl -fsSL https://nginx.org/keys/nginx_signing.key | gpg --dearmor -o /usr/share/keyrings/nginx-archive-keyring.gpg\nDISTRO=$(lsb_release -is | tr '[:upper:]' '[:lower:]')\nCODENAME=$(lsb_release -cs)\necho \"deb [signed-by=/usr/share/keyrings/nginx-archive-keyring.gpg] http://nginx.org/packages/mainline/${DISTRO} ${CODENAME} nginx\" > /etc/apt/sources.list.d/nginx.list\ncat > /etc/apt/preferences.d/99nginx <<'PIN'\nPackage: *\nPin: origin nginx.org\nPin: release o=nginx\nPin-Priority: 900\nPIN\n";

pub const SWS_TEMPLATE_UNIT: &'static str = "[Unit]\nDescription=static-web-server (RustPanel) instance %i\nDocumentation=https://static-web-server.net/\nAfter=network-online.target\nWants=network-online.target\n\n[Service]\nType=simple\nExecStart=/usr/local/bin/static-web-server --config-file /etc/sws/%i.toml\nRestart=on-failure\nRestartSec=3s\n\n[Install]\nWantedBy=multi-user.target\n";

pub const RPXY_SERVICE: &'static str = "[Unit]\nDescription=rpxy reverse proxy (RustPanel managed)\nDocumentation=https://github.com/junkurihara/rust-rpxy\nAfter=network-online.target\nWants=network-online.target\n\n[Service]\nType=simple\nExecStart=/usr/local/bin/rpxy --config /etc/rpxy/config.toml\nRestart=on-failure\nRestartSec=3s\n\n[Install]\nWantedBy=multi-user.target\n";

pub const RPXY_CONFIG: &'static str = "# RustPanel 默认 rpxy 配置骨架。\n# 站点条目由 sites 模块在用户增删站点时自动写入,这里只放全局段。\nlisten_port = 8080\nlisten_port_tls = 8443\n\n[apps]\n# 例:\n# [apps.\"example\"]\n# server_name = \"example.com\"\n# reverse_proxy = [{ location = \"/\", upstream = [{ location = \"127.0.0.1:3000\" }] }]\n# tls = { https_redirection = true, acme = true }\n";

pub const SWS_SERVICE: &'static str = "[Unit]\nDescription=static-web-server (RustPanel managed)\nDocumentation=https://github.com/static-web-server/static-web-server\nAfter=network-online.target\nWants=network-online.target\n\n[Service]\nType=simple\nExecStart=/usr/local/bin/static-web-server --config-file /etc/static-web-server/config.toml\nRestart=on-failure\nRestartSec=3s\n\n[Install]\nWantedBy=multi-user.target\n";

pub const SWS_CONFIG: &'static str = "# RustPanel 默认 SWS 配置骨架。\n# 多站点建议每个站起独立 unit(static-web-server@<site>.service),\n# 这里是单实例模式的默认值。\n[general]\nhost = \"127.0.0.1\"\nport = 8081\nroot = \"/var/www/default\"\nlog-level = \"info\"\ncompression = true\ncache-control-headers = true\n";

pub const LEAF_SERVICE: &'static str = "[Unit]\nDescription=leaf multi-protocol proxy (RustPanel managed)\nDocumentation=https://github.com/eycorsican/leaf\nAfter=network-online.target\nWants=network-online.target\n\n[Service]\nType=simple\nExecStart=/usr/local/bin/leaf -c /etc/leaf/config.conf\nRestart=on-failure\nRestartSec=3s\n\n[Install]\nWantedBy=multi-user.target\n";

pub const LEAF_CONFIG: &'static str = "# RustPanel 默认 leaf 配置骨架(占位)。\n# 实际 inbounds / outbounds 由 RustPanel 在用户启用代理协议时生成,\n# 这里只是单元能起来不报错的最小可加载形态。\n[General]\nloglevel = \"info\"\n\n[Proxy]\nDirect = direct\n";

pub const VSMTP_SERVICE: &'static str = "[Unit]\nDescription=vSMTP filter MTA (RustPanel managed)\nDocumentation=https://github.com/viridIT/vSMTP\nAfter=network-online.target\nWants=network-online.target\n\n[Service]\nType=simple\nExecStart=/usr/local/bin/vsmtp --config /etc/vsmtp/vsmtp.toml\nRestart=on-failure\nRestartSec=3s\n\n[Install]\nWantedBy=multi-user.target\n";

pub const VSMTP_CONFIG: &'static str = "# RustPanel 默认 vSMTP 配置骨架。\n# alias 表与 rhai 规则由 RustPanel vSMTP Tab 在用户操作时生成。\n# 出站强制走 relay,**绝不直连 25**。\n[server]\ndomain = \"rustpanel.local\"\n\n[server.system]\ngroup_local = \"vsmtp\"\nuser_local = \"vsmtp\"\n\n[app]\ndirpath = \"/var/spool/vsmtp\"\n\n# relay 凭证由面板向导写入对应 secret 文件,不放在这里。\n";

pub const TUIC_SERVICE: &'static str = "[Unit]\nDescription=TUIC v5 QUIC proxy (RustPanel managed, experimental)\nDocumentation=https://github.com/EAimTY/tuic\nAfter=network-online.target\nWants=network-online.target\n\n[Service]\nType=simple\nExecStart=/usr/local/bin/tuic-server -c /etc/tuic/config.json\nRestart=on-failure\nRestartSec=3s\n\n[Install]\nWantedBy=multi-user.target\n";

pub const TUIC_CONFIG: &'static str = "{\n  \"_comment\": \"RustPanel 默认 TUIC v5 骨架;证书路径与监听端口由面板向导填入。\",\n  \"server\": \"[::]:443\",\n  \"users\": {},\n  \"certificate\": \"/etc/tuic/cert.pem\",\n  \"private_key\": \"/etc/tuic/key.pem\",\n  \"congestion_control\": \"bbr\",\n  \"alpn\": [\"h3\"],\n  \"udp_relay_ipv6\": true,\n  \"zero_rtt_handshake\": false,\n  \"auth_timeout\": \"3s\",\n  \"task_negotiation_timeout\": \"3s\",\n  \"max_idle_time\": \"10s\",\n  \"max_external_packet_size\": 1500,\n  \"gc_interval\": \"3s\",\n  \"gc_lifetime\": \"15s\",\n  \"log_level\": \"info\"\n}\n";


/// The app store service; it keeps no state of its own.
#[derive(Clone, Copy, Debug, Default)]
pub struct AppStoreServiceImpl;

/// The apt package that installs an app (`redis-tuned` is `redis-server`);
/// an app not listed is its own package name.
pub open spec fn apt_package_spec(slug: Seq<char>) -> Seq<char> {
    if slug == "redis-tuned"@ {
        "redis-server"@
    } else if slug == "postgres-tiny"@ {
        "postgresql"@
    } else if slug == "sqlite"@ {
        "sqlite3"@
    } else if slug == "wireguard"@ {
        "wireguard"@
    } else if slug == "nginx-mainline"@ {
        "nginx"@
    } else {
        slug
    }
}

pub fn slug_to_apt_package<'a>(slug: &'a str) -> (r: &'a str)
    ensures
        r@ == apt_package_spec(slug@),
{
    if eq_str(slug, "redis-tuned") {
        "redis-server"
    } else if eq_str(slug, "postgres-tiny") {
        "postgresql"
    } else if eq_str(slug, "sqlite") {
        "sqlite3"
    } else if eq_str(slug, "wireguard") {
        "wireguard"
    } else if eq_str(slug, "nginx-mainline") {
        "nginx"
    } else {
        slug
    }
}

/// The script to run before `apt-get install`: only nginx-mainline has one,
/// which adds the nginx.org repository, its key and an apt pin.
pub fn slug_to_apt_pre_install(slug: &str) -> (r: Option<&'static str>)
    ensures
        slug@ == "nginx-mainline"@ ==> r == Some(NGINX_MAINLINE_PREINSTALL),
        slug@ != "nginx-mainline"@ ==> r is None,
{
    if eq_str(slug, "nginx-mainline") {
        Some(NGINX_MAINLINE_PREINSTALL)
    } else {
        None
    }
}

/// What a site serves.
#[derive(Clone, Copy, Debug, PartialEq, Eq, Structural)]
pub enum SiteKind {
    Unspecified,
    Static,
    ReverseProxy,
    RustBinary,
}

/// The kind a site's number stands for; unknown numbers are `Unspecified`.
pub open spec fn site_kind_of(v: i32) -> SiteKind {
    if v == 1 { SiteKind::Static }
    else if v == 2 { SiteKind::ReverseProxy }
    else if v == 3 { SiteKind::RustBinary }
    else { SiteKind::Unspecified }
}

fn site_kind(v: i32) -> (r: SiteKind)
    ensures
        r == site_kind_of(v),
{
    if v == 1 { SiteKind::Static }
    else if v == 2 { SiteKind::ReverseProxy }
    else if v == 3 { SiteKind::RustBinary }
    else { SiteKind::Unspecified }
}

/// A site as the panel describes it.
#[derive(Clone, Debug)]
pub struct SiteItem {
    pub name: String,
    pub domains: Vec<String>,
    pub root: String,
    pub proxy_target: String,
    pub ssl_enabled: bool,
    pub config_path: String,
    pub engine: String,
    pub public_path: String,
    pub listen_addr: String,
    pub kind: i32,
    pub tls_strategy: i32,
    pub systemd_unit: String,
    pub internal_port: u32,
}

pub open spec fn cert_path_spec(domain: Seq<char>) -> Seq<char> {
    ACME_CERT_ROOT@ + "/"@ + domain + "/fullchain.pem"@
}

pub open spec fn key_path_spec(domain: Seq<char>) -> Seq<char> {
    ACME_CERT_ROOT@ + "/"@ + domain + "/privkey.pem"@
}

/// The certificate chain and key files issued for a domain.
pub fn acme_cert_paths(domain: &str) -> (r: (String, String))
    ensures
        r.0@ == cert_path_spec(domain@),
        r.1@ == key_path_spec(domain@),
{
    let mut cert = ACME_CERT_ROOT.to_string();
    cert.append("/");
    cert.append(domain);
    let mut key = cert.clone();
    cert.append("/fullchain.pem");
    key.append("/privkey.pem");
    (cert, key)
}

/// Where rpxy sends a site's requests: the trimmed proxy target of a reverse
/// proxy, the loopback port of a Rust binary; nothing for other sites.
pub open spec fn rpxy_upstream_spec(site: SiteItem) -> Option<Seq<char>> {
    match site_kind_of(site.kind) {
        SiteKind::ReverseProxy => if all_ws(site.proxy_target@) { None } else { Some(trim_seq(site.proxy_target@)) },
        SiteKind::RustBinary => if site.internal_port == 0 { None } else { Some("127.0.0.1:"@ + dec(site.internal_port as nat)) },
        _ => None,
    }
}

pub open spec fn rpxy_block_spec(name: Seq<char>, domain: Seq<char>, upstream: Seq<char>, ssl: bool) -> Seq<char> {
    "[apps.\""@ + name + "\"]\nserver_name = \""@ + domain + "\"\nreverse_proxy = [{ location = \"/\", upstream = [{ location = \""@
        + upstream + "\" }] }]\n"@ + if ssl {
            "tls = { https_redirection = true, tls_cert_path = \""@ + cert_path_spec(domain) + "\", tls_cert_key_path = \""@
                + key_path_spec(domain) + "\" }\n"@
        } else {
            Seq::empty()
        }
}

/// The rpxy `[apps."<name>"]` block of a site, for its first domain; with TLS
/// it points at the certificate files issued for that domain. Sites without
/// a domain, without an upstream, or that only serve files have none.
pub fn site_to_rpxy_app_block(site: &SiteItem) -> (r: Option<String>)
    ensures
        site.domains@.len() == 0 || all_ws(site.domains@[0]@) || rpxy_upstream_spec(*site) is None ==> r is None,
        site.domains@.len() > 0 && !all_ws(site.domains@[0]@) ==> match rpxy_upstream_spec(*site) {
            Some(u) => r matches Some(b) && b@ == rpxy_block_spec(site.name@, site.domains@[0]@, u, site.ssl_enabled),
            None => true,
        },
{
    let kind = site_kind(site.kind);
    if site.domains.len() == 0 {
        return None;
    }
    let domain = &site.domains[0];
    if is_blank(domain.as_str()) {
        return None;
    }
    let upstream = match kind {
        SiteKind::ReverseProxy => {
            if is_blank(site.proxy_target.as_str()) {
                return None;
            }
            trim(site.proxy_target.as_str())
        },
        SiteKind::RustBinary => {
            if site.internal_port == 0 {
                return None;
            }
            let mut u = "127.0.0.1:".to_string();
            push_u64(&mut u, site.internal_port as u64);
            u
        },
        _ => {
            return None;
        },
    };
    let mut block = "[apps.\"".to_string();
    block.append(site.name.as_str());
    block.append("\"]\nserver_name = \"");
    block.append(domain.as_str());
    block.append("\"\nreverse_proxy = [{ location = \"/\", upstream = [{ location = \"");
    block.append(upstream.as_str());
    block.append("\" }] }]\n");
    if site.ssl_enabled {
        let (cert, key) = acme_cert_paths(domain.as_str());
        block.append("tls = { https_redirection = true, tls_cert_path = \"");
        block.append(cert.as_str());
        block.append("\", tls_cert_key_path = \"");
        block.append(key.as_str());
        block.append("\" }\n");
    }
    assert(block@ =~= rpxy_block_spec(site.name@, site.domains@[0]@, upstream@, site.ssl_enabled));
    Some(block)
}

/// The root and port that static-web-server serves a static site with, once
/// the site has a root and a port that fits in 16 bits.
pub fn static_site_to_sws_args(site: &SiteItem) -> (r: Option<(String, u16)>)
    ensures
        site_kind_of(site.kind) == SiteKind::Static && !all_ws(site.root@) && 0 < site.internal_port <= 65535
            ==> (r matches Some(p) && p.0@ == trim_seq(site.root@) && p.1 == site.internal_port),
        !(site_kind_of(site.kind) == SiteKind::Static && !all_ws(site.root@) && 0 < site.internal_port <= 65535)
            ==> r is None,
{
    let kind = site_kind(site.kind);
    if kind != SiteKind::Static {
        return None;
    }
    if is_blank(site.root.as_str()) {
        return None;
    }
    if site.internal_port == 0 || site.internal_port > 65535 {
        return None;
    }
    let root = trim(site.root.as_str());
    Some((root, site.internal_port as u16))
}

pub open spec fn sws_config_spec(root: Seq<char>, port: u16) -> Seq<char> {
    "[general]\nhost = \"127.0.0.1\"\nport = "@ + dec(port as nat) + "\nroot = \""@ + root
        + "\"\nlog-level = \"info\"\ncompression = true\ncache-control-headers = true\n"@
}

/// The static-web-server configuration of one site: loopback only, the given
/// port and root, compression and cache headers on.
pub fn render_sws_site_config(root: &str, port: u16) -> (r: String)
    ensures
        r@ == sws_config_spec(root@, port),
{
    let mut s = "[general]\nhost = \"127.0.0.1\"\nport = ".to_string();
    push_u64(&mut s, port as u64);
    s.append("\nroot = \"");
    s.append(root);
    s.append("\"\nlog-level = \"info\"\ncompression = true\ncache-control-headers = true\n");
    assert(s@ =~= sws_config_spec(root@, port));
    s
}

/// `s` with each non-overlapping `needle`, left to right, replaced by `with`
/// (`str::replace` with a non-empty pattern).
pub open spec fn replace_sub(s: Seq<char>, needle: Seq<char>, with: Seq<char>) -> Seq<char>
    decreases s.len(),
{
    if needle.len() == 0 || s.len() < needle.len() {
        s
    } else if s.take(needle.len() as int) == needle {
        with + replace_sub(s.skip(needle.len() as int), needle, with)
    } else {
        seq![s[0]] + replace_sub(s.drop_first(), needle, with)
    }
}

/// The asset name for a version: every `{version}` replaced by it.
pub fn expand_asset_pattern(pattern: &str, version: &str) -> (r: String)
    ensures
        r@ == replace_sub(pattern@, "{version}"@, version@),
{
    let v = chars_of(pattern);
    let needle = chars_of("{version}");
    proof { reveal_strlit("{version}"); }
    let n = needle.len();
    let mut out = String::new();
    let mut i: usize = 0;
    assert(v@.skip(0) =~= v@);
    while i < v.len()
        invariant
            i <= v.len(),
            v@ == pattern@,
            needle@ == "{version}"@,
            n == 9,
            needle@.len() == 9,
            out@ + replace_sub(v@.skip(i as int), needle@, version@) == replace_sub(pattern@, needle@, version@),
        decreases v.len() - i,
    {
        let ghost rest = v@.skip(i as int);
        if v.len() - i >= n && occurs_at_exec(&v, &needle, i) {
            assert(rest.take(9) =~= v@.subrange(i as int, i + 9));
            assert(rest.take(9) =~= needle@);
            assert(rest.skip(9) =~= v@.skip(i + 9));
            out.append(version);
            i += n;
        } else {
            if v.len() - i >= n {
                assert(rest.take(9) =~= v@.subrange(i as int, i + 9));
            }
            assert(rest.drop_first() =~= v@.skip(i + 1));
            push_char(&mut out, v[i]);
            i += 1;
        }
    }
    assert(v@.skip(i as int).len() == 0);
    out
}

pub open spec fn download_url_spec(repo: Seq<char>, tag: Seq<char>, asset: Seq<char>) -> Seq<char> {
    "https://github.com/"@ + repo + "/releases/download/"@ + tag + "/"@ + asset
}

/// The GitHub release download URL of an asset.
pub fn asset_download_url(repo: &str, tag: &str, asset: &str) -> (r: String)
    ensures
        r@ == download_url_spec(repo@, tag@, asset@),
{
    let mut s = "https://github.com/".to_string();
    s.append(repo);
    s.append("/releases/download/");
    s.append(tag);
    s.append("/");
    s.append(asset);
    s
}

/// What installing one upstream binary takes: where to fetch it, where it
/// goes, and the systemd unit and configuration written beside it.
#[derive(Clone, Copy, Debug, PartialEq, Eq)]
pub struct BinaryInstallPlan {
    pub upstream_repo: &'static str,
    pub asset_pattern: &'static str,
    pub binary_path_in_archive: &'static str,
    pub install_to: &'static str,
    pub config_path: &'static str,
    pub systemd_unit: &'static str,
    pub config_template: &'static str,
    pub post_install_hint: &'static str,
}

/// The install plans of the five Rust-stack packages.
pub open spec fn install_plan_spec(slug: Seq<char>) -> Option<BinaryInstallPlan> {
    if slug == "rpxy"@ {
        Some(BinaryInstallPlan {
            upstream_repo: "junkurihara/rust-rpxy",
            asset_pattern: "rpxy-{version}-x86_64-unknown-linux-musl.tar.gz",
            binary_path_in_archive: "rpxy",
            install_to: "/usr/local/bin/rpxy",
            config_path: "/etc/rpxy/config.toml",
            systemd_unit: RPXY_SERVICE,
            config_template: RPXY_CONFIG,
            post_install_hint: "编辑 /etc/rpxy/config.toml 加入站点条目后 `systemctl restart rpxy`;DNS-01 ACME 走 RustPanel ssl 模块。",
        })
    } else if slug == "static-web-server"@ {
        Some(BinaryInstallPlan {
            upstream_repo: "static-web-server/static-web-server",
            asset_pattern: "static-web-server-v{version}-x86_64-unknown-linux-musl.tar.gz",
            binary_path_in_archive: "static-web-server-v{version}-x86_64-unknown-linux-musl/static-web-server",
            install_to: "/usr/local/bin/static-web-server",
            config_path: "/etc/static-web-server/config.toml",
            systemd_unit: SWS_SERVICE,
            config_template: SWS_CONFIG,
            post_install_hint: "把站点根目录挂到 /var/www/<site>,在 /etc/static-web-server/config.toml 指 root 后 `systemctl restart static-web-server`。",
        })
    } else if slug == "leaf"@ {
        Some(BinaryInstallPlan {
            upstream_repo: "eycorsican/leaf",
            asset_pattern: "leaf-{version}-x86_64-unknown-linux-gnu.gz",
            binary_path_in_archive: "",
            install_to: "/usr/local/bin/leaf",
            config_path: "/etc/leaf/config.conf",
            systemd_unit: LEAF_SERVICE,
            config_template: LEAF_CONFIG,
            post_install_hint: "在 /etc/leaf/config.conf 配置 inbounds(用 RustPanel security 模块分配的 NAT 端口),`systemctl restart leaf` 后用面板生成的订阅链接接入客户端。",
        })
    } else if slug == "vsmtp"@ {
        Some(BinaryInstallPlan {
            upstream_repo: "viridIT/vSMTP",
            asset_pattern: "vsmtp-{version}-x86_64-unknown-linux-musl.tar.gz",
            binary_path_in_archive: "vsmtp",
            install_to: "/usr/local/bin/vsmtp",
            config_path: "/etc/vsmtp/vsmtp.toml",
            systemd_unit: VSMTP_SERVICE,
            config_template: VSMTP_CONFIG,
            post_install_hint: "出站必须配 SMTP relay(Resend/SES/Postmark),不要直连 25;在面板 vSMTP Tab 维护 alias 映射后 `systemctl restart vsmtp`。",
        })
    } else if slug == "tuic"@ {
        Some(BinaryInstallPlan {
            upstream_repo: "EAimTY/tuic",
            asset_pattern: "tuic-server-{version}-x86_64-unknown-linux-musl",
            binary_path_in_archive: "",
            install_to: "/usr/local/bin/tuic-server",
            config_path: "/etc/tuic/config.json",
            systemd_unit: TUIC_SERVICE,
            config_template: TUIC_CONFIG,
            post_install_hint: "TUIC 是实验性 UDP 备用线;在 /etc/tuic/config.json 填证书与 NAT 端口后 `systemctl restart tuic`。",
        })
    } else {
        None
    }
}

pub fn phase_g_install_plan(slug: &str) -> (r: Option<BinaryInstallPlan>)
    ensures
        r == install_plan_spec(slug@),
{
    if eq_str(slug, "rpxy") {
        Some(BinaryInstallPlan {
            upstream_repo: "junkurihara/rust-rpxy",
            asset_pattern: "rpxy-{version}-x86_64-unknown-linux-musl.tar.gz",
            binary_path_in_archive: "rpxy",
            install_to: "/usr/local/bin/rpxy",
            config_path: "/etc/rpxy/config.toml",
            systemd_unit: RPXY_SERVICE,
            config_template: RPXY_CONFIG,
            post_install_hint: "编辑 /etc/rpxy/config.toml 加入站点条目后 `systemctl restart rpxy`;DNS-01 ACME 走 RustPanel ssl 模块。",
        })
    } else if eq_str(slug, "static-web-server") {
        Some(BinaryInstallPlan {
            upstream_repo: "static-web-server/static-web-server",
            asset_pattern: "static-web-server-v{version}-x86_64-unknown-linux-musl.tar.gz",
            binary_path_in_archive: "static-web-server-v{version}-x86_64-unknown-linux-musl/static-web-server",
            install_to: "/usr/local/bin/static-web-server",
            config_path: "/etc/static-web-server/config.toml",
            systemd_unit: SWS_SERVICE,
            config_template: SWS_CONFIG,
            post_install_hint: "把站点根目录挂到 /var/www/<site>,在 /etc/static-web-server/config.toml 指 root 后 `systemctl restart static-web-server`。",
        })
    } else if eq_str(slug, "leaf") {
        Some(BinaryInstallPlan {
            upstream_repo: "eycorsican/leaf",
            asset_pattern: "leaf-{version}-x86_64-unknown-linux-gnu.gz",
            binary_path_in_archive: "",
            install_to: "/usr/local/bin/leaf",
            config_path: "/etc/leaf/config.conf",
            systemd_unit: LEAF_SERVICE,
            config_template: LEAF_CONFIG,
            post_install_hint: "在 /etc/leaf/config.conf 配置 inbounds(用 RustPanel security 模块分配的 NAT 端口),`systemctl restart leaf` 后用面板生成的订阅链接接入客户端。",
        })
    } else if eq_str(slug, "vsmtp") {
        Some(BinaryInstallPlan {
            upstream_repo: "viridIT/vSMTP",
            asset_pattern: "vsmtp-{version}-x86_64-unknown-linux-musl.tar.gz",
            binary_path_in_archive: "vsmtp",
            install_to: "/usr/local/bin/vsmtp",
            config_path: "/etc/vsmtp/vsmtp.toml",
            systemd_unit: VSMTP_SERVICE,
            config_template: VSMTP_CONFIG,
            post_install_hint: "出站必须配 SMTP relay(Resend/SES/Postmark),不要直连 25;在面板 vSMTP Tab 维护 alias 映射后 `systemctl restart vsmtp`。",
        })
    } else if eq_str(slug, "tuic") {
        Some(BinaryInstallPlan {
            upstream_repo: "EAimTY/tuic",
            asset_pattern: "tuic-server-{version}-x86_64-unknown-linux-musl",
            binary_path_in_archive: "",
            install_to: "/usr/local/bin/tuic-server",
            config_path: "/etc/tuic/config.json",
            systemd_unit: TUIC_SERVICE,
            config_template: TUIC_CONFIG,
            post_install_hint: "TUIC 是实验性 UDP 备用线;在 /etc/tuic/config.json 填证书与 NAT 端口后 `systemctl restart tuic`。",
        })
    } else {
        None
    }
}

/// The last `/`-separated segment of a path.
pub open spec fn last_segment(s: Seq<char>) -> Seq<char> {
    match last_index_of(s, '/') {
        Some(k) => s.skip(k + 1int),
        None => s,
    }
}

pub open spec fn plan_summary_spec(plan: BinaryInstallPlan, version: Seq<char>, asset: Seq<char>) -> Seq<char> {
    "上游: "@ + plan.upstream_repo@ + "\n版本: "@ + version + "\nasset: "@ + asset + "\n二进制安装到: "@ + plan.install_to@
        + "\nsystemd unit: "@ + SYSTEMD_UNIT_DIR@ + "/"@ + last_segment(plan.install_to@) + ".service"@ + "\n配置: "@
        + plan.config_path@ + "\n下一步: "@ + plan.post_install_hint@
}

/// A plain-text summary of what installing the plan does.
pub fn render_install_plan_summary(plan: &BinaryInstallPlan, version: &str, asset: &str) -> (r: String)
    ensures
        r@ == plan_summary_spec(*plan, version@, asset@),
{
    let v = chars_of(plan.install_to);
    proof {
        assert(v@.take(v@.len() as int) == v@);
        lemma_last_index_of(v@, '/');
    }
    let seg = match rfind_char(&v, '/', v.len()) {
        Some(k) => string_of(&v, k + 1, v.len()),
        None => string_of(&v, 0, v.len()),
    };
    proof {
        assert(v@.take(v@.len() as int) == v@);
        lemma_last_index_of(v@, '/');
        assert(v@.subrange(0, v@.len() as int) == v@);
    }
    let mut s = "上游: ".to_string();
    s.append(plan.upstream_repo);
    s.append("\n版本: ");
    s.append(version);
    s.append("\nasset: ");
    s.append(asset);
    s.append("\n二进制安装到: ");
    s.append(plan.install_to);
    s.append("\nsystemd unit: ");
    s.append(SYSTEMD_UNIT_DIR);
    s.append("/");
    s.append(seg.as_str());
    s.append(".service");
    s.append("\n配置: ");
    s.append(plan.config_path);
    s.append("\n下一步: ");
    s.append(plan.post_install_hint);
    assert(s@ =~= plan_summary_spec(*plan, version@, asset@));
    s
}

/// An app name fit for a directory and a compose project: see
/// [`slug_spec`]; nothing left of it is refused.
pub fn sanitize_app_name(name: &str) -> (r: Result<String, Status>)
    ensures
        slug_spec(name@).len() == 0 ==> (r matches Err(e) && e.code == Code::InvalidArgument
            && e.message@ == "app name is required"@),
        slug_spec(name@).len() > 0 ==> (r matches Ok(s) && s@ == slug_spec(name@)),
{
    let sanitized = slug_text(name);
    if sanitized.as_str().is_empty() {
        Err(Status::invalid_argument("app name is required"))
    } else {
        Ok(sanitized)
    }
}

/// An installed app as clients see it.
#[derive(Clone, Debug)]
pub struct InstalledApp {
    pub app_name: String,
    pub slug: String,
    pub version: String,
    pub image: String,
    pub compose_path: String,
    pub state: String,
    pub installed_at_seconds: i64,
    pub updated_at_seconds: i64,
}

/// An installed app as its metadata file keeps it.
#[derive(Clone, Debug)]
pub struct StoredInstalledApp {
    pub app_name: String,
    pub slug: String,
    pub version: String,
    pub image: String,
    pub compose_path: String,
    pub state: String,
    pub installed_at_seconds: i64,
    pub updated_at_seconds: i64,
}

impl StoredInstalledApp {
    pub fn from_proto(app: InstalledApp) -> (r: Self)
        ensures
            r.app_name == app.app_name && r.slug == app.slug && r.version == app.version && r.image
                == app.image && r.compose_path == app.compose_path && r.state == app.state
                && r.installed_at_seconds == app.installed_at_seconds && r.updated_at_seconds
                == app.updated_at_seconds,
    {
        StoredInstalledApp {
            app_name: app.app_name,
            slug: app.slug,
            version: app.version,
            image: app.image,
            compose_path: app.compose_path,
            state: app.state,
            installed_at_seconds: app.installed_at_seconds,
            updated_at_seconds: app.updated_at_seconds,
        }
    }

    pub fn into_proto(self) -> (r: InstalledApp)
        ensures
            r.app_name == self.app_name && r.slug == self.slug && r.version == self.version && r.image
                == self.image && r.compose_path == self.compose_path && r.state == self.state
                && r.installed_at_seconds == self.installed_at_seconds && r.updated_at_seconds
                == self.updated_at_seconds,
    {
        InstalledApp {
            app_name: self.app_name,
            slug: self.slug,
            version: self.version,
            image: self.image,
            compose_path: self.compose_path,
            state: self.state,
            installed_at_seconds: self.installed_at_seconds,
            updated_at_seconds: self.updated_at_seconds,
        }
    }
}


/// The section of the store an app is listed under.
#[derive(Clone, Copy, Debug, PartialEq, Eq, Structural)]
pub enum AppCategory {
    Unspecified,
    WebServer,
    Database,
    Runtime,
    Tool,
    Vpn,
}

pub open spec fn category_code(c: AppCategory) -> i32 {
    match c {
        AppCategory::Unspecified => 0,
        AppCategory::WebServer => 1,
        AppCategory::Database => 2,
        AppCategory::Runtime => 3,
        AppCategory::Tool => 4,
        AppCategory::Vpn => 5,
    }
}

pub fn category_value(c: AppCategory) -> (r: i32)
    ensures
        r == category_code(c),
{
    match c {
        AppCategory::Unspecified => 0,
        AppCategory::WebServer => 1,
        AppCategory::Database => 2,
        AppCategory::Runtime => 3,
        AppCategory::Tool => 4,
        AppCategory::Vpn => 5,
    }
}

/// How an app gets onto the host.
#[derive(Clone, Copy, Debug, PartialEq, Eq, Structural)]
pub enum InstallMethod {
    Unspecified,
    DockerCompose,
    NativePackage,
    BinaryDownload,
}

pub open spec fn install_code(m: InstallMethod) -> i32 {
    match m {
        InstallMethod::Unspecified => 0,
        InstallMethod::DockerCompose => 1,
        InstallMethod::NativePackage => 2,
        InstallMethod::BinaryDownload => 3,
    }
}

pub fn install_value(m: InstallMethod) -> (r: i32)
    ensures
        r == install_code(m),
{
    match m {
        InstallMethod::Unspecified => 0,
        InstallMethod::DockerCompose => 1,
        InstallMethod::NativePackage => 2,
        InstallMethod::BinaryDownload => 3,
    }
}

/// Whether an app can run on this host, and if not, why.
#[derive(Clone, Copy, Debug, PartialEq, Eq, Structural)]
pub enum CompatibilityStatus {
    Unspecified,
    Compatible,
    NeedsDocker,
    KernelUnsupported,
    ResourceShort,
}

pub open spec fn compat_code(s: CompatibilityStatus) -> i32 {
    match s {
        CompatibilityStatus::Unspecified => 0,
        CompatibilityStatus::Compatible => 1,
        CompatibilityStatus::NeedsDocker => 2,
        CompatibilityStatus::KernelUnsupported => 3,
        CompatibilityStatus::ResourceShort => 4,
    }
}

/// One installable version of an app.
#[derive(Debug)]
pub struct AppVersion {
    pub version: String,
    pub image: String,
    pub recommended: bool,
}

impl View for AppVersion {
    type V = (Seq<char>, Seq<char>, bool);

    open spec fn view(&self) -> (Seq<char>, Seq<char>, bool) {
        (self.version@, self.image@, self.recommended)
    }
}

impl AppVersion {
    pub fn duplicate(&self) -> (r: AppVersion)
        ensures
            r@ == self@,
    {
        AppVersion { version: self.version.clone(), image: self.image.clone(), recommended: self.recommended }
    }
}

pub open spec fn version_views(v: Seq<AppVersion>) -> Seq<(Seq<char>, Seq<char>, bool)> {
    v.map_values(|x: AppVersion| x@)
}

/// An app of the store, with what it needs of the host.
#[derive(Debug)]
pub struct AppTemplate {
    pub slug: String,
    pub name: String,
    pub description: String,
    pub image: String,
    pub default_ports: Vec<String>,
    pub versions: Vec<AppVersion>,
    pub default_version: String,
    pub runtime_kind: String,
    pub category: i32,
    pub install_method: i32,
    pub min_ram_mb: u32,
    pub min_disk_mb: u32,
    pub compatibility: i32,
    pub compatibility_reason: String,
    pub expected_runtime_ram_mb: u32,
    pub recommended: bool,
    pub homepage: String,
}

/// The content of an [`AppTemplate`].
pub struct TemplateView {
    pub slug: Seq<char>,
    pub name: Seq<char>,
    pub description: Seq<char>,
    pub image: Seq<char>,
    pub default_ports: Seq<Seq<char>>,
    pub versions: Seq<(Seq<char>, Seq<char>, bool)>,
    pub default_version: Seq<char>,
    pub runtime_kind: Seq<char>,
    pub category: i32,
    pub install_method: i32,
    pub min_ram_mb: u32,
    pub min_disk_mb: u32,
    pub compatibility: i32,
    pub compatibility_reason: Seq<char>,
    pub expected_runtime_ram_mb: u32,
    pub recommended: bool,
    pub homepage: Seq<char>,
}

impl View for AppTemplate {
    type V = TemplateView;

    open spec fn view(&self) -> TemplateView {
        TemplateView {
            slug: self.slug@,
            name: self.name@,
            description: self.description@,
            image: self.image@,
            default_ports: views(self.default_ports@),
            versions: version_views(self.versions@),
            default_version: self.default_version@,
            runtime_kind: self.runtime_kind@,
            category: self.category,
            install_method: self.install_method,
            min_ram_mb: self.min_ram_mb,
            min_disk_mb: self.min_disk_mb,
            compatibility: self.compatibility,
            compatibility_reason: self.compatibility_reason@,
            expected_runtime_ram_mb: self.expected_runtime_ram_mb,
            recommended: self.recommended,
            homepage: self.homepage@,
        }
    }
}

pub open spec fn template_views(v: Seq<AppTemplate>) -> Seq<TemplateView> {
    v.map_values(|t: AppTemplate| t@)
}

/// A package installed from the host's own package manager.
pub open spec fn native_view(slug: Seq<char>, name: Seq<char>, description: Seq<char>, category: AppCategory, min_ram_mb: u32, min_disk_mb: u32, expected_runtime_ram_mb: u32, recommended: bool) -> TemplateView {
    TemplateView {
        slug,
        name,
        description,
        image: Seq::empty(),
        default_ports: Seq::empty(),
        versions: Seq::empty(),
        default_version: Seq::empty(),
        runtime_kind: "native"@,
        category: category_code(category),
        install_method: install_code(InstallMethod::NativePackage),
        min_ram_mb,
        min_disk_mb,
        compatibility: compat_code(CompatibilityStatus::Unspecified),
        compatibility_reason: Seq::empty(),
        expected_runtime_ram_mb,
        recommended,
        homepage: Seq::empty(),
    }
}

/// A container run from an image with docker compose.
pub open spec fn docker_view(slug: Seq<char>, name: Seq<char>, description: Seq<char>, image: Seq<char>, default_ports: Seq<Seq<char>>, versions: Seq<(Seq<char>, Seq<char>, bool)>, default_version: Seq<char>, runtime_kind: Seq<char>, category: AppCategory, min_ram_mb: u32, min_disk_mb: u32, expected_runtime_ram_mb: u32, homepage: Seq<char>) -> TemplateView {
    TemplateView {
        slug,
        name,
        description,
        image,
        default_ports,
        versions,
        default_version,
        runtime_kind,
        category: category_code(category),
        install_method: install_code(InstallMethod::DockerCompose),
        min_ram_mb,
        min_disk_mb,
        compatibility: compat_code(CompatibilityStatus::Unspecified),
        compatibility_reason: Seq::empty(),
        expected_runtime_ram_mb,
        recommended: false,
        homepage,
    }
}

pub open spec fn with_install_view(t: TemplateView, m: InstallMethod) -> TemplateView {
    TemplateView { install_method: install_code(m), ..t }
}

pub open spec fn with_versions_view(t: TemplateView, versions: Seq<(Seq<char>, Seq<char>, bool)>, default_version: Seq<char>) -> TemplateView {
    TemplateView { versions, default_version, ..t }
}

pub open spec fn with_homepage_view(t: TemplateView, homepage: Seq<char>) -> TemplateView {
    TemplateView { homepage, ..t }
}

pub open spec fn native_versions_spec(values: Seq<(&str, bool)>) -> Seq<(Seq<char>, Seq<char>, bool)> {
    values.map_values(|p: (&str, bool)| (p.0@, Seq::<char>::empty(), p.1))
}

pub open spec fn app_versions_spec(values: Seq<(&str, &str, bool)>) -> Seq<(Seq<char>, Seq<char>, bool)> {
    values.map_values(|p: (&str, &str, bool)| (p.0@, p.1@, p.2))
}

fn native_template(slug: &str, name: &str, description: &str, category: AppCategory, min_ram_mb: u32, min_disk_mb: u32, expected_runtime_ram_mb: u32, recommended: bool) -> (r: AppTemplate)
    ensures
        r@ == native_view(slug@, name@, description@, category, min_ram_mb, min_disk_mb, expected_runtime_ram_mb, recommended),
{
    let r = AppTemplate {
        slug: slug.to_string(),
        name: name.to_string(),
        description: description.to_string(),
        image: String::new(),
        default_ports: Vec::new(),
        versions: Vec::new(),
        default_version: String::new(),
        runtime_kind: "native".to_string(),
        category: category_value(category),
        install_method: install_value(InstallMethod::NativePackage),
        min_ram_mb,
        min_disk_mb,
        compatibility: 0,
        compatibility_reason: String::new(),
        expected_runtime_ram_mb,
        recommended,
        homepage: String::new(),
    };
    assert(r@.default_ports =~= Seq::<Seq<char>>::empty());
    assert(r@.versions =~= Seq::<(Seq<char>, Seq<char>, bool)>::empty());
    r
}

fn one_port(port: &str) -> (r: Vec<String>)
    ensures
        views(r@) == seq![port@],
{
    let mut v: Vec<String> = Vec::new();
    v.push(port.to_string());
    assert(views(v@) =~= seq![port@]);
    v
}

fn no_ports() -> (r: Vec<String>)
    ensures
        views(r@) == Seq::<Seq<char>>::empty(),
{
    let v: Vec<String> = Vec::new();
    assert(views(v@) =~= Seq::<Seq<char>>::empty());
    v
}

fn docker_template(slug: &str, name: &str, description: &str, image: &str, default_ports: Vec<String>, versions: Vec<AppVersion>, default_version: &str, runtime_kind: &str, category: AppCategory, min_ram_mb: u32, min_disk_mb: u32, expected_runtime_ram_mb: u32, homepage: &str) -> (r: AppTemplate)
    ensures
        r@ == docker_view(slug@, name@, description@, image@, views(default_ports@), version_views(versions@), default_version@, runtime_kind@, category, min_ram_mb, min_disk_mb, expected_runtime_ram_mb, homepage@),
{
    AppTemplate {
        slug: slug.to_string(),
        name: name.to_string(),
        description: description.to_string(),
        image: image.to_string(),
        default_ports,
        versions,
        default_version: default_version.to_string(),
        runtime_kind: runtime_kind.to_string(),
        category: category_value(category),
        install_method: install_value(InstallMethod::DockerCompose),
        min_ram_mb,
        min_disk_mb,
        compatibility: 0,
        compatibility_reason: String::new(),
        expected_runtime_ram_mb,
        recommended: false,
        homepage: homepage.to_string(),
    }
}

impl AppTemplate {
    pub fn with_install(self, method: InstallMethod) -> (r: AppTemplate)
        ensures
            r@ == with_install_view(self@, method),
    {
        let mut t = self;
        t.install_method = install_value(method);
        t
    }

    pub fn with_versions(self, versions: Vec<AppVersion>, default: &str) -> (r: AppTemplate)
        ensures
            r@ == with_versions_view(self@, version_views(versions@), default@),
    {
        let mut t = self;
        t.versions = versions;
        t.default_version = default.to_string();
        t
    }

    pub fn with_homepage(self, url: &str) -> (r: AppTemplate)
        ensures
            r@ == with_homepage_view(self@, url@),
    {
        let mut t = self;
        t.homepage = url.to_string();
        t
    }
}

/// Versions of a package without an image.
fn native_versions(values: Vec<(&str, bool)>) -> (r: Vec<AppVersion>)
    ensures
        version_views(r@) == native_versions_spec(values@),
{
    let mut out: Vec<AppVersion> = Vec::new();
    let mut i: usize = 0;
    while i < values.len()
        invariant
            i <= values@.len(),
            version_views(out@) == native_versions_spec(values@.take(i as int)),
        decreases values@.len() - i,
    {
        let p = values[i];
        let ghost old = version_views(out@);
        out.push(AppVersion { version: p.0.to_string(), image: String::new(), recommended: p.1 });
        assert(values@.take(i + 1) =~= values@.take(i as int).push(p));
        assert(version_views(out@) =~= old.push((p.0@, Seq::<char>::empty(), p.1)));
        assert(version_views(out@) =~= native_versions_spec(values@.take(i + 1)));
        i += 1;
    }
    assert(values@.take(i as int) == values@);
    out
}

/// Versions of a container, each with its image.
fn app_versions(values: Vec<(&str, &str, bool)>) -> (r: Vec<AppVersion>)
    ensures
        version_views(r@) == app_versions_spec(values@),
{
    let mut out: Vec<AppVersion> = Vec::new();
    let mut i: usize = 0;
    while i < values.len()
        invariant
            i <= values@.len(),
            version_views(out@) == app_versions_spec(values@.take(i as int)),
        decreases values@.len() - i,
    {
        let p = values[i];
        let ghost old = version_views(out@);
        out.push(AppVersion { version: p.0.to_string(), image: p.1.to_string(), recommended: p.2 });
        assert(values@.take(i + 1) =~= values@.take(i as int).push(p));
        assert(version_views(out@) =~= old.push((p.0@, p.1@, p.2)));
        assert(version_views(out@) =~= app_versions_spec(values@.take(i + 1)));
        i += 1;
    }
    assert(values@.take(i as int) == values@);
    out
}

/// Every app of the store, in the order they are written down.
/// The entries of the store, in the order they are written down.
pub open spec fn catalog_entry(k: int) -> TemplateView {
    if k == 0 {
        with_homepage_view(native_view("nginx-light"@, "Nginx (apt 发行版默认)"@, "通过 apt 安装 nginx-light(发行版默认源,Debian 12 / Ubuntu 24.04 大概率是 1.22 / 1.24,**没有 HTTP/3**)。常驻 RAM ~5MB。要 HTTP/3 请装 nginx-mainline。"@, AppCategory::WebServer, 10, 8, 5, false), "https://nginx.org/"@)
    } else if k == 1 {
        with_homepage_view(native_view("nginx-mainline"@, "Nginx mainline 1.27+(HTTP/3)"@, "从 nginx.org **官方 apt 源**装最新 mainline(deb 由 nginx 团队预编译,客户端零本地编译)。带 --with-http_v3_module,vhost 启用 SSL 时 RustPanel 自动 emit `listen ... quic reuseport;` 让 HTTP/3 真正生效。安装会自动加 nginx.org GPG key + 源 + apt pinning。常驻 RAM ~5MB。"@, AppCategory::WebServer, 10, 12, 5, true), "https://nginx.org/"@)
    } else if k == 2 {
        with_homepage_view(with_install_view(native_view("caddy"@, "Caddy"@, "Caddy v2 静态二进制,自带 ACME 自动签发 SSL。常驻 RAM ~30MB。"@, AppCategory::WebServer, 64, 60, 30, true), InstallMethod::BinaryDownload), "https://caddyserver.com/"@)
    } else if k == 3 {
        with_homepage_view(native_view("sqlite"@, "SQLite"@, "嵌入式数据库,无需常驻进程,RustPanel 默认推荐。"@, AppCategory::Database, 0, 5, 0, true), "https://www.sqlite.org/"@)
    } else if k == 4 {
        with_homepage_view(native_view("redis-tuned"@, "Redis (调优)"@, "apt 安装 redis-server,默认 maxmemory 30MB + LRU 驱逐。常驻 RAM ~10MB。"@, AppCategory::Database, 32, 10, 10, true), "https://redis.io/"@)
    } else if k == 5 {
        with_homepage_view(native_view("postgres-tiny"@, "PostgreSQL (低配版)"@, "apt 安装 postgresql-15,shared_buffers=8MB / max_connections=8。生产建议 ≥ 256MB RAM。"@, AppCategory::Database, 256, 120, 60, false), "https://www.postgresql.org/"@)
    } else if k == 6 {
        with_homepage_view(with_install_view(native_view("hugo"@, "Hugo"@, "Go 写的静态站点生成器,一次构建后零运行时占用。"@, AppCategory::Runtime, 16, 40, 0, true), InstallMethod::BinaryDownload), "https://gohugo.io/"@)
    } else if k == 7 {
        with_homepage_view(with_install_view(native_view("zola"@, "Zola"@, "Rust 写的静态站点生成器,单二进制,零运行时占用。"@, AppCategory::Runtime, 16, 40, 0, true), InstallMethod::BinaryDownload), "https://www.getzola.org/"@)
    } else if k == 8 {
        with_homepage_view(with_install_view(native_view("restic"@, "Restic 备份"@, "Go 写的加密增量备份工具,支持 SFTP/S3/Backblaze 等多种存储后端。"@, AppCategory::Tool, 16, 25, 0, true), InstallMethod::BinaryDownload), "https://restic.net/"@)
    } else if k == 9 {
        with_homepage_view(with_install_view(native_view("rclone"@, "rclone 云存储同步"@, "把文件同步到 S3 / OSS / 七牛 / 阿里云 / Backblaze 等 50+ 云存储。"@, AppCategory::Tool, 16, 45, 0, true), InstallMethod::BinaryDownload), "https://rclone.org/"@)
    } else if k == 10 {
        with_homepage_view(native_view("fail2ban"@, "Fail2ban"@, "扫描日志自动封禁恶意 IP。OpenVZ 上需 iptables 模块开放才能工作。"@, AppCategory::Tool, 32, 10, 8, true), "https://www.fail2ban.org/"@)
    } else if k == 11 {
        with_homepage_view(native_view("wireguard"@, "WireGuard"@, "现代加密 VPN。OpenVZ 通常需要 wireguard-go(用户态),不依赖内核模块。"@, AppCategory::Vpn, 16, 8, 5, false), "https://www.wireguard.com/"@)
    } else if k == 12 {
        with_homepage_view(native_view("certbot"@, "Certbot (Let's Encrypt)"@, "ACME 客户端。RustPanel 内置 ACME 客户端,certbot 仅作为兼容备选。"@, AppCategory::Tool, 32, 30, 0, false), "https://certbot.eff.org/"@)
    } else if k == 13 {
        with_homepage_view(with_versions_view(with_install_view(native_view("rpxy"@, "rpxy (Rust 反代)"@, "Rust 写的 HTTPS 反向代理,内置 ACME / 多站点 / h2/h3,常驻 RAM ~15MB。RustPanel 提供配置模板并与 sites / ssl 模块联动,二进制保持上游官方版本。\n\n官网: https://github.com/junkurihara/rust-rpxy"@, AppCategory::WebServer, 32, 15, 15, true), InstallMethod::BinaryDownload), native_versions_spec(seq![("latest", true)]), "latest"@), "https://github.com/junkurihara/rust-rpxy"@)
    } else if k == 14 {
        with_homepage_view(with_versions_view(with_install_view(native_view("static-web-server"@, "static-web-server (SWS)"@, "Rust 写的纯静态文件服务器,常驻 RAM ~5MB。可作 rpxy 上游或独立运行,与 static-sites 模块联动。\n\n官网: https://static-web-server.net/"@, AppCategory::WebServer, 16, 8, 5, true), InstallMethod::BinaryDownload), native_versions_spec(seq![("latest", true)]), "latest"@), "https://static-web-server.net/"@)
    } else if k == 15 {
        with_homepage_view(with_versions_view(with_install_view(native_view("leaf"@, "leaf (Rust 多协议代理)"@, "Rust 写的多协议代理,单实例同时暴露 SS / VLESS / Trojan / WireGuard / h2 / ws / tls。常驻 RAM ~25MB。默认 off,在面板软件商店主动启用。\n\n官网: https://github.com/eycorsican/leaf"@, AppCategory::Vpn, 64, 20, 25, false), InstallMethod::BinaryDownload), native_versions_spec(seq![("latest", true)]), "latest"@), "https://github.com/eycorsican/leaf"@)
    } else if k == 16 {
        with_homepage_view(with_versions_view(with_install_view(native_view("vsmtp"@, "vSMTP (Rust 邮件中转)"@, "Rust filter-MTA,做 alias 转发与回复改写;不收件、不存信。出站强制走 SMTP relay (Resend / SES / Postmark),绝不直连 25 端口。常驻 RAM ~35MB。社区维护,默认 off。\n\n官网: https://www.vsmtp.rs/"@, AppCategory::Tool, 96, 30, 35, false), InstallMethod::BinaryDownload), native_versions_spec(seq![("latest", true)]), "latest"@), "https://www.vsmtp.rs/"@)
    } else if k == 17 {
        with_homepage_view(with_versions_view(with_install_view(native_view("tuic"@, "TUIC v5 (实验性)"@, "基于 QUIC 的 UDP 代理,作为 leaf 的抗封锁备用线路。要求宿主对 UDP 友好。社区维护,标实验性,默认 off。\n\n官网: https://github.com/EAimTY/tuic"@, AppCategory::Vpn, 64, 15, 20, false), InstallMethod::BinaryDownload), native_versions_spec(seq![("latest", true)]), "latest"@), "https://github.com/EAimTY/tuic"@)
    } else if k == 18 {
        docker_view("mysql"@, "MySQL"@, "MySQL 8 容器,生产建议 ≥ 1GB RAM。"@, "mysql:8.4"@, seq!["3306:3306"@], app_versions_spec(seq![("8.4", "mysql:8.4", true), ("8.0", "mysql:8.0", false)]), "8.4"@, "database"@, AppCategory::Database, 1024, 800, 600, "https://www.mysql.com/"@)
    } else if k == 19 {
        docker_view("redis"@, "Redis (容器)"@, "Redis 7 Alpine 容器版本。轻量场景建议改用 redis-tuned。"@, "redis:7-alpine"@, seq!["6379:6379"@], app_versions_spec(seq![("7", "redis:7-alpine", true), ("6", "redis:6-alpine", false)]), "7"@, "cache"@, AppCategory::Database, 128, 50, 30, "https://redis.io/"@)
    } else if k == 20 {
        docker_view("postgres"@, "PostgreSQL (容器)"@, "PostgreSQL 16 Alpine 容器。轻量场景建议改用 postgres-tiny。"@, "postgres:16-alpine"@, seq!["5432:5432"@], app_versions_spec(seq![("16", "postgres:16-alpine", true), ("15", "postgres:15-alpine", false)]), "16"@, "database"@, AppCategory::Database, 512, 400, 80, "https://www.postgresql.org/"@)
    } else if k == 21 {
        docker_view("nginx"@, "Nginx (容器)"@, "Nginx 1.27 Alpine 容器。轻量场景建议改用 nginx-light。"@, "nginx:1.27-alpine"@, seq!["8080:80"@], app_versions_spec(seq![("1.27", "nginx:1.27-alpine", true), ("1.26", "nginx:1.26-alpine", false)]), "1.27"@, "web"@, AppCategory::WebServer, 64, 60, 25, "https://nginx.org/"@)
    } else if k == 22 {
        docker_view("php"@, "PHP-FPM (容器)"@, "PHP 8 FPM 容器。多版本并存可借此实现。"@, "php:8.3-fpm-alpine"@, Seq::empty(), app_versions_spec(seq![("8.3", "php:8.3-fpm-alpine", true), ("8.2", "php:8.2-fpm-alpine", false)]), "8.3"@, "runtime"@, AppCategory::Runtime, 128, 200, 40, "https://www.php.net/"@)
    } else {
        with_homepage_view(native_view("nginx-light"@, "Nginx (apt 发行版默认)"@, "通过 apt 安装 nginx-light(发行版默认源,Debian 12 / Ubuntu 24.04 大概率是 1.22 / 1.24,**没有 HTTP/3**)。常驻 RAM ~5MB。要 HTTP/3 请装 nginx-mainline。"@, AppCategory::WebServer, 10, 8, 5, false), "https://nginx.org/"@)
    }
}

/// Every app of the store, in the order they are written down.
pub open spec fn catalog() -> Seq<TemplateView> {
    Seq::new(23, |k: int| catalog_entry(k))
}

proof fn lemma_catalog(s: Seq<TemplateView>)
    requires
        s.len() == 23,
        s[0] == catalog_entry(0),
        s[1] == catalog_entry(1),
        s[2] == catalog_entry(2),
        s[3] == catalog_entry(3),
        s[4] == catalog_entry(4),
        s[5] == catalog_entry(5),
        s[6] == catalog_entry(6),
        s[7] == catalog_entry(7),
        s[8] == catalog_entry(8),
        s[9] == catalog_entry(9),
        s[10] == catalog_entry(10),
        s[11] == catalog_entry(11),
        s[12] == catalog_entry(12),
        s[13] == catalog_entry(13),
        s[14] == catalog_entry(14),
        s[15] == catalog_entry(15),
        s[16] == catalog_entry(16),
        s[17] == catalog_entry(17),
        s[18] == catalog_entry(18),
        s[19] == catalog_entry(19),
        s[20] == catalog_entry(20),
        s[21] == catalog_entry(21),
        s[22] == catalog_entry(22),
    ensures
        s == catalog(),
{
    assert forall|k: int| 0 <= k < 23 implies #[trigger] s[k] == catalog()[k] by {
        if k == 0 {
        } else if k == 1 {
        } else if k == 2 {
        } else if k == 3 {
        } else if k == 4 {
        } else if k == 5 {
        } else if k == 6 {
        } else if k == 7 {
        } else if k == 8 {
        } else if k == 9 {
        } else if k == 10 {
        } else if k == 11 {
        } else if k == 12 {
        } else if k == 13 {
        } else if k == 14 {
        } else if k == 15 {
        } else if k == 16 {
        } else if k == 17 {
        } else if k == 18 {
        } else if k == 19 {
        } else if k == 20 {
        } else if k == 21 {
        } else if k == 22 {
        }
    }
    assert(s =~= catalog());
}

/// Store order: by category, recommended apps first, then by name.
pub open spec fn before_spec(a: TemplateView, b: TemplateView) -> bool {
    ||| a.category < b.category
    ||| a.category == b.category && a.recommended && !b.recommended
    ||| a.category == b.category && a.recommended == b.recommended && seq_lt(a.name, b.name)
}

pub open spec fn sorted_templates(s: Seq<TemplateView>) -> bool {
    forall|i: int, j: int| 0 <= i < j < s.len() ==> !before_spec(#[trigger] s[j], #[trigger] s[i])
}

pub proof fn lemma_before_irreflexive(a: TemplateView)
    ensures
        !before_spec(a, a),
{
    lemma_seq_lt_irreflexive(a.name);
}

pub proof fn lemma_before_transitive(a: TemplateView, b: TemplateView, c: TemplateView)
    requires
        before_spec(a, b),
        before_spec(b, c),
    ensures
        before_spec(a, c),
{
    if a.category == b.category && b.category == c.category && a.recommended == b.recommended
        && b.recommended == c.recommended {
        lemma_seq_lt_transitive(a.name, b.name, c.name);
    }
}

/// Inserting `x` before the first element it goes before keeps a sorted
/// sequence sorted.
proof fn lemma_insert_sorted(s: Seq<TemplateView>, p: int, x: TemplateView)
    requires
        sorted_templates(s),
        0 <= p <= s.len(),
        forall|j: int| 0 <= j < p ==> !before_spec(x, #[trigger] s[j]),
        p < s.len() ==> before_spec(x, s[p]),
    ensures
        sorted_templates(s.insert(p, x)),
{
    let n = s.insert(p, x);
    assert forall|i: int, j: int| 0 <= i < j < n.len() implies !before_spec(#[trigger] n[j], #[trigger] n[i]) by {
        if i < p && j < p {
            assert(n[i] == s[i] && n[j] == s[j]);
        } else if i < p && j == p {
            assert(n[i] == s[i] && n[j] == x);
        } else if i < p {
            assert(n[i] == s[i] && n[j] == s[j - 1]);
        } else if i == p {
            assert(n[i] == x && n[j] == s[j - 1]);
            if before_spec(s[j - 1], x) {
                lemma_before_transitive(s[j - 1], x, s[p]);
                if j - 1 == p {
                    lemma_before_irreflexive(s[p]);
                } else {
                    assert(!before_spec(s[j - 1], s[p]));
                }
            }
        } else {
            assert(n[i] == s[i - 1] && n[j] == s[j - 1]);
        }
    }
}

fn template_before(a: &AppTemplate, b: &AppTemplate) -> (r: bool)
    ensures
        r == before_spec(a@, b@),
{
    if a.category != b.category {
        a.category < b.category
    } else if a.recommended != b.recommended {
        a.recommended
    } else {
        str_lt(a.name.as_str(), b.name.as_str())
    }
}

/// The templates in store order, each kept once.
fn sort_templates(v: Vec<AppTemplate>) -> (r: Vec<AppTemplate>)
    ensures
        template_views(r@).to_multiset() == template_views(v@).to_multiset(),
        sorted_templates(template_views(r@)),
{
    broadcast use vstd::multiset::group_multiset_axioms;

    let ghost orig = template_views(v@);
    let mut rest = v;
    let mut out: Vec<AppTemplate> = Vec::new();
    proof {
        assert(template_views(out@) =~= Seq::<TemplateView>::empty());
        assert(Seq::<TemplateView>::empty().to_multiset() =~= Multiset::<TemplateView>::empty()) by {
            vstd::seq_lib::to_multiset_len(Seq::<TemplateView>::empty());
        }
        assert(template_views(out@).to_multiset().add(template_views(rest@).to_multiset()) =~= orig.to_multiset());
    }
    while rest.len() > 0
        invariant
            template_views(out@).to_multiset().add(template_views(rest@).to_multiset()) == orig.to_multiset(),
            sorted_templates(template_views(out@)),
        decreases rest.len(),
    {
        let ghost rest0 = rest@;
        let ghost out0 = template_views(out@);
        let t = rest.pop().unwrap();
        proof {
            assert(rest0 == rest@.push(t));
            assert(template_views(rest0) =~= template_views(rest@).push(t@));
            vstd::seq_lib::to_multiset_build(template_views(rest@), t@);
        }
        let mut p: usize = 0;
        while p < out.len() && !template_before(&t, &out[p])
            invariant
                p <= out.len(),
                out0 == template_views(out@),
                forall|j: int| 0 <= j < p ==> !before_spec(t@, #[trigger] out0[j]),
            decreases out.len() - p,
        {
            p += 1;
        }
        proof {
            lemma_insert_sorted(out0, p as int, t@);
        }
        let ghost tv = t@;
        out.insert(p, t);
        proof {
            assert(template_views(out@) =~= out0.insert(p as int, tv));
            vstd::seq_lib::to_multiset_insert(out0, p as int, tv);
            assert(template_views(out@).to_multiset().add(template_views(rest@).to_multiset()) =~= orig.to_multiset());
        }
    }
    proof {
        assert(template_views(rest@) =~= Seq::<TemplateView>::empty());
        vstd::seq_lib::to_multiset_len(template_views(rest@));
        assert(template_views(rest@).to_multiset() =~= Multiset::<TemplateView>::empty());
        assert(template_views(out@).to_multiset() =~= orig.to_multiset());
    }
    out
}

/// Every app of the store, sorted by category, recommended apps first, then
/// by name.
#[verifier::rlimit(100)]
#[verifier::spinoff_prover]
pub fn app_templates() -> (r: Vec<AppTemplate>)
    ensures
        template_views(r@).to_multiset() == catalog().to_multiset(),
        sorted_templates(template_views(r@)),
{
    let mut templates: Vec<AppTemplate> = Vec::new();
    templates.push(native_template("nginx-light", "Nginx (apt 发行版默认)", "通过 apt 安装 nginx-light(发行版默认源,Debian 12 / Ubuntu 24.04 大概率是 1.22 / 1.24,**没有 HTTP/3**)。常驻 RAM ~5MB。要 HTTP/3 请装 nginx-mainline。", AppCategory::WebServer, 10, 8, 5, false)
            .with_homepage("https://nginx.org/"));
    templates.push(native_template("nginx-mainline", "Nginx mainline 1.27+(HTTP/3)", "从 nginx.org **官方 apt 源**装最新 mainline(deb 由 nginx 团队预编译,客户端零本地编译)。带 --with-http_v3_module,vhost 启用 SSL 时 RustPanel 自动 emit `listen ... quic reuseport;` 让 HTTP/3 真正生效。安装会自动加 nginx.org GPG key + 源 + apt pinning。常驻 RAM ~5MB。", AppCategory::WebServer, 10, 12, 5, true)
            .with_homepage("https://nginx.org/"));
    templates.push(native_template("caddy", "Caddy", "Caddy v2 静态二进制,自带 ACME 自动签发 SSL。常驻 RAM ~30MB。", AppCategory::WebServer, 64, 60, 30, true)
            .with_install(InstallMethod::BinaryDownload)
            .with_homepage("https://caddyserver.com/"));
    templates.push(native_template("sqlite", "SQLite", "嵌入式数据库,无需常驻进程,RustPanel 默认推荐。", AppCategory::Database, 0, 5, 0, true)
            .with_homepage("https://www.sqlite.org/"));
    templates.push(native_template("redis-tuned", "Redis (调优)", "apt 安装 redis-server,默认 maxmemory 30MB + LRU 驱逐。常驻 RAM ~10MB。", AppCategory::Database, 32, 10, 10, true)
            .with_homepage("https://redis.io/"));
    templates.push(native_template("postgres-tiny", "PostgreSQL (低配版)", "apt 安装 postgresql-15,shared_buffers=8MB / max_connections=8。生产建议 ≥ 256MB RAM。", AppCategory::Database, 256, 120, 60, false)
            .with_homepage("https://www.postgresql.org/"));
    templates.push(native_template("hugo", "Hugo", "Go 写的静态站点生成器,一次构建后零运行时占用。", AppCategory::Runtime, 16, 40, 0, true)
            .with_install(InstallMethod::BinaryDownload)
            .with_homepage("https://gohugo.io/"));
    templates.push(native_template("zola", "Zola", "Rust 写的静态站点生成器,单二进制,零运行时占用。", AppCategory::Runtime, 16, 40, 0, true)
            .with_install(InstallMethod::BinaryDownload)
            .with_homepage("https://www.getzola.org/"));
    templates.push(native_template("restic", "Restic 备份", "Go 写的加密增量备份工具,支持 SFTP/S3/Backblaze 等多种存储后端。", AppCategory::Tool, 16, 25, 0, true)
            .with_install(InstallMethod::BinaryDownload)
            .with_homepage("https://restic.net/"));
    templates.push(native_template("rclone", "rclone 云存储同步", "把文件同步到 S3 / OSS / 七牛 / 阿里云 / Backblaze 等 50+ 云存储。", AppCategory::Tool, 16, 45, 0, true)
            .with_install(InstallMethod::BinaryDownload)
            .with_homepage("https://rclone.org/"));
    templates.push(native_template("fail2ban", "Fail2ban", "扫描日志自动封禁恶意 IP。OpenVZ 上需 iptables 模块开放才能工作。", AppCategory::Tool, 32, 10, 8, true)
            .with_homepage("https://www.fail2ban.org/"));
    templates.push(native_template("wireguard", "WireGuard", "现代加密 VPN。OpenVZ 通常需要 wireguard-go(用户态),不依赖内核模块。", AppCategory::Vpn, 16, 8, 5, false)
            .with_homepage("https://www.wireguard.com/"));
    templates.push(native_template("certbot", "Certbot (Let's Encrypt)", "ACME 客户端。RustPanel 内置 ACME 客户端,certbot 仅作为兼容备选。", AppCategory::Tool, 32, 30, 0, false)
            .with_homepage("https://certbot.eff.org/"));
    let vs1 = vec![("latest", true)];
    proof {
        assert(vs1@ =~= seq![("latest", true)]);
    }
    templates.push(native_template("rpxy", "rpxy (Rust 反代)", "Rust 写的 HTTPS 反向代理,内置 ACME / 多站点 / h2/h3,常驻 RAM ~15MB。RustPanel 提供配置模板并与 sites / ssl 模块联动,二进制保持上游官方版本。\n\n官网: https://github.com/junkurihara/rust-rpxy", AppCategory::WebServer, 32, 15, 15, true)
            .with_install(InstallMethod::BinaryDownload)
            .with_versions(native_versions(vs1), "latest")
            .with_homepage("https://github.com/junkurihara/rust-rpxy"));
    let vs2 = vec![("latest", true)];
    proof {
        assert(vs2@ =~= seq![("latest", true)]);
    }
    templates.push(native_template("static-web-server", "static-web-server (SWS)", "Rust 写的纯静态文件服务器,常驻 RAM ~5MB。可作 rpxy 上游或独立运行,与 static-sites 模块联动。\n\n官网: https://static-web-server.net/", AppCategory::WebServer, 16, 8, 5, true)
            .with_install(InstallMethod::BinaryDownload)
            .with_versions(native_versions(vs2), "latest")
            .with_homepage("https://static-web-server.net/"));
    let vs3 = vec![("latest", true)];
    proof {
        assert(vs3@ =~= seq![("latest", true)]);
    }
    templates.push(native_template("leaf", "leaf (Rust 多协议代理)", "Rust 写的多协议代理,单实例同时暴露 SS / VLESS / Trojan / WireGuard / h2 / ws / tls。常驻 RAM ~25MB。默认 off,在面板软件商店主动启用。\n\n官网: https://github.com/eycorsican/leaf", AppCategory::Vpn, 64, 20, 25, false)
            .with_install(InstallMethod::BinaryDownload)
            .with_versions(native_versions(vs3), "latest")
            .with_homepage("https://github.com/eycorsican/leaf"));
    let vs4 = vec![("latest", true)];
    proof {
        assert(vs4@ =~= seq![("latest", true)]);
    }
    templates.push(native_template("vsmtp", "vSMTP (Rust 邮件中转)", "Rust filter-MTA,做 alias 转发与回复改写;不收件、不存信。出站强制走 SMTP relay (Resend / SES / Postmark),绝不直连 25 端口。常驻 RAM ~35MB。社区维护,默认 off。\n\n官网: https://www.vsmtp.rs/", AppCategory::Tool, 96, 30, 35, false)
            .with_install(InstallMethod::BinaryDownload)
            .with_versions(native_versions(vs4), "latest")
            .with_homepage("https://www.vsmtp.rs/"));
    let vs5 = vec![("latest", true)];
    proof {
        assert(vs5@ =~= seq![("latest", true)]);
    }
    templates.push(native_template("tuic", "TUIC v5 (实验性)", "基于 QUIC 的 UDP 代理,作为 leaf 的抗封锁备用线路。要求宿主对 UDP 友好。社区维护,标实验性,默认 off。\n\n官网: https://github.com/EAimTY/tuic", AppCategory::Vpn, 64, 15, 20, false)
            .with_install(InstallMethod::BinaryDownload)
            .with_versions(native_versions(vs5), "latest")
            .with_homepage("https://github.com/EAimTY/tuic"));
    let vs6 = vec![("8.4", "mysql:8.4", true), ("8.0", "mysql:8.0", false)];
    proof {
        assert(vs6@ =~= seq![("8.4", "mysql:8.4", true), ("8.0", "mysql:8.0", false)]);
    }
    templates.push(docker_template(
                "mysql",
                "MySQL",
                "MySQL 8 容器,生产建议 ≥ 1GB RAM。",
                "mysql:8.4",
                one_port("3306:3306"),
                app_versions(vs6),
                "8.4",
                "database",
                AppCategory::Database,
                1024,
                800,
                600,
                "https://www.mysql.com/",
            ));
    let vs7 = vec![("7", "redis:7-alpine", true), ("6", "redis:6-alpine", false)];
    proof {
        assert(vs7@ =~= seq![("7", "redis:7-alpine", true), ("6", "redis:6-alpine", false)]);
    }
    templates.push(docker_template(
                "redis",
                "Redis (容器)",
                "Redis 7 Alpine 容器版本。轻量场景建议改用 redis-tuned。",
                "redis:7-alpine",
                one_port("6379:6379"),
                app_versions(vs7),
                "7",
                "cache",
                AppCategory::Database,
                128,
                50,
                30,
                "https://redis.io/",
            ));
    let vs8 = vec![("16", "postgres:16-alpine", true), ("15", "postgres:15-alpine", false)];
    proof {
        assert(vs8@ =~= seq![("16", "postgres:16-alpine", true), ("15", "postgres:15-alpine", false)]);
    }
    templates.push(docker_template(
                "postgres",
                "PostgreSQL (容器)",
                "PostgreSQL 16 Alpine 容器。轻量场景建议改用 postgres-tiny。",
                "postgres:16-alpine",
                one_port("5432:5432"),
                app_versions(vs8),
                "16",
                "database",
                AppCategory::Database,
                512,
                400,
                80,
                "https://www.postgresql.org/",
            ));
    let vs9 = vec![("1.27", "nginx:1.27-alpine", true), ("1.26", "nginx:1.26-alpine", false)];
    proof {
        assert(vs9@ =~= seq![("1.27", "nginx:1.27-alpine", true), ("1.26", "nginx:1.26-alpine", false)]);
    }
    templates.push(docker_template(
                "nginx",
                "Nginx (容器)",
                "Nginx 1.27 Alpine 容器。轻量场景建议改用 nginx-light。",
                "nginx:1.27-alpine",
                one_port("8080:80"),
                app_versions(vs9),
                "1.27",
                "web",
                AppCategory::WebServer,
                64,
                60,
                25,
                "https://nginx.org/",
            ));
    let vs10 = vec![("8.3", "php:8.3-fpm-alpine", true), ("8.2", "php:8.2-fpm-alpine", false)];
    proof {
        assert(vs10@ =~= seq![("8.3", "php:8.3-fpm-alpine", true), ("8.2", "php:8.2-fpm-alpine", false)]);
    }
    templates.push(docker_template(
                "php",
                "PHP-FPM (容器)",
                "PHP 8 FPM 容器。多版本并存可借此实现。",
                "php:8.3-fpm-alpine",
                no_ports(),
                app_versions(vs10),
                "8.3",
                "runtime",
                AppCategory::Runtime,
                128,
                200,
                40,
                "https://www.php.net/",
            ));
    proof {
        lemma_catalog(template_views(templates@));
    }
    sort_templates(templates)
}


/// Whole mebibytes, truncated to 32 bits as the store reports them.
pub open spec fn mib(bytes: u64) -> u32 {
    (bytes / 1024 / 1024) as u32
}

/// Index of the first disk mounted at `/`.
pub open spec fn find_root_disk(disks: Seq<DiskBudget>) -> Option<int>
    decreases disks.len(),
{
    if disks.len() == 0 {
        None
    } else {
        match find_root_disk(disks.drop_last()) {
            Some(i) => Some(i),
            None => if disks.last().mount_point@ == "/"@ { Some(disks.len() - 1) } else { None },
        }
    }
}

/// The disk whose free space counts: the root file system, else the first.
pub open spec fn chosen_disk(disks: Seq<DiskBudget>) -> Option<int> {
    match find_root_disk(disks) {
        Some(i) => Some(i),
        None => if disks.len() > 0 { Some(0) } else { None },
    }
}

pub open spec fn ram_short(t: TemplateView, budget: ResourceBudget) -> bool {
    t.min_ram_mb > 0 && match budget.memory {
        Some(m) => mib(m.total_bytes) < t.min_ram_mb,
        None => false,
    }
}

pub open spec fn disk_short(t: TemplateView, budget: ResourceBudget) -> bool {
    t.min_disk_mb > 0 && match chosen_disk(budget.disks@) {
        Some(i) => mib(budget.disks@[i].available_bytes) < t.min_disk_mb,
        None => false,
    }
}

/// The verdict on a template for this host and its reason, checked in
/// order: docker needed but absent; fail2ban on OpenVZ without iptables;
/// wireguard on OpenVZ; too little memory; too little disk; else
/// compatible, with the reason left as it was.
pub open spec fn compat_outcome(t: TemplateView, caps: Capabilities, budget: ResourceBudget) -> (CompatibilityStatus, Seq<char>) {
    if t.install_method == install_code(InstallMethod::DockerCompose) && !caps.can_run_docker {
        (CompatibilityStatus::NeedsDocker, if caps.docker_block_reason@.len() == 0 { "本机未启用 Docker"@ } else { caps.docker_block_reason@ })
    } else if t.slug == "fail2ban"@ && caps.is_openvz && !caps.has_iptables {
        (CompatibilityStatus::KernelUnsupported, "OpenVZ 上 iptables 不可写,fail2ban 无法工作"@)
    } else if t.slug == "wireguard"@ && caps.is_openvz {
        (CompatibilityStatus::KernelUnsupported, "OpenVZ 内核通常无 wireguard 模块,可改装 wireguard-go(用户态)"@)
    } else if ram_short(t, budget) {
        (CompatibilityStatus::ResourceShort, "本机仅 "@ + dec(mib(budget.memory->0.total_bytes) as nat) + " MB RAM,该应用建议 ≥ "@
            + dec(t.min_ram_mb as nat) + " MB"@)
    } else if disk_short(t, budget) {
        let d = budget.disks@[chosen_disk(budget.disks@)->0];
        (CompatibilityStatus::ResourceShort, d.mount_point@ + " 可用 "@ + dec(mib(d.available_bytes) as nat) + " MB,该应用建议 ≥ "@
            + dec(t.min_disk_mb as nat) + " MB"@)
    } else {
        (CompatibilityStatus::Compatible, t.compatibility_reason)
    }
}

fn compat_value(s: CompatibilityStatus) -> (r: i32)
    ensures
        r == compat_code(s),
{
    match s {
        CompatibilityStatus::Unspecified => 0,
        CompatibilityStatus::Compatible => 1,
        CompatibilityStatus::NeedsDocker => 2,
        CompatibilityStatus::KernelUnsupported => 3,
        CompatibilityStatus::ResourceShort => 4,
    }
}

fn find_root_disk_exec(disks: &Vec<DiskBudget>) -> (r: Option<usize>)
    ensures
        match r {
            Some(i) => find_root_disk(disks@) == Some(i as int) && i < disks@.len(),
            None => find_root_disk(disks@) is None,
        },
{
    let mut i: usize = 0;
    while i < disks.len()
        invariant
            i <= disks@.len(),
            find_root_disk(disks@.take(i as int)) is None,
        decreases disks@.len() - i,
    {
        assert(disks@.take(i + 1).drop_last() == disks@.take(i as int));
        if eq_str(disks[i].mount_point.as_str(), "/") {
            proof { lemma_find_root_disk_prefix(disks@, i + 1, i as int); }
            return Some(i);
        }
        i += 1;
    }
    assert(disks@.take(i as int) == disks@);
    None
}

proof fn lemma_find_root_disk_prefix(disks: Seq<DiskBudget>, k: int, j: int)
    requires
        0 <= k <= disks.len(),
        find_root_disk(disks.take(k)) == Some(j),
    ensures
        find_root_disk(disks) == Some(j),
    decreases disks.len() - k,
{
    if k < disks.len() {
        assert(disks.take(k + 1).drop_last() == disks.take(k));
        lemma_find_root_disk_prefix(disks, k + 1, j);
    } else {
        assert(disks.take(k) == disks);
    }
}

fn mib_of(bytes: u64) -> (r: u32)
    ensures
        r == mib(bytes),
{
    (bytes / 1024 / 1024) as u32
}

/// The template with its compatibility verdict and reason for this host
/// (see [`compat_outcome`]); everything else is kept.
pub fn evaluate_compatibility(template: AppTemplate, capabilities: &Capabilities, budget: &ResourceBudget) -> (r: AppTemplate)
    ensures
        r@ == (TemplateView {
            compatibility: compat_code(compat_outcome(template@, *capabilities, *budget).0),
            compatibility_reason: compat_outcome(template@, *capabilities, *budget).1,
            ..template@
        }),
{
    let mut template = template;
    let ghost t0 = template@;
    proof {
        reveal_strlit("/");
    }
    if template.install_method == 1 && !capabilities.can_run_docker {
        template.compatibility = compat_value(CompatibilityStatus::NeedsDocker);
        template.compatibility_reason = if capabilities.docker_block_reason.as_str().is_empty() {
            "本机未启用 Docker".to_string()
        } else {
            capabilities.docker_block_reason.clone()
        };
        return template;
    }
    if eq_str(template.slug.as_str(), "fail2ban") && capabilities.is_openvz && !capabilities.has_iptables {
        template.compatibility = compat_value(CompatibilityStatus::KernelUnsupported);
        template.compatibility_reason = "OpenVZ 上 iptables 不可写,fail2ban 无法工作".to_string();
        return template;
    }
    if eq_str(template.slug.as_str(), "wireguard") && capabilities.is_openvz {
        template.compatibility = compat_value(CompatibilityStatus::KernelUnsupported);
        template.compatibility_reason = "OpenVZ 内核通常无 wireguard 模块,可改装 wireguard-go(用户态)".to_string();
        return template;
    }
    if template.min_ram_mb > 0 {
        match &budget.memory {
            Some(memory) => {
                let total_mb = mib_of(memory.total_bytes);
                if total_mb < template.min_ram_mb {
                    let mut reason = "本机仅 ".to_string();
                    push_u64(&mut reason, total_mb as u64);
                    reason.append(" MB RAM,该应用建议 ≥ ");
                    push_u64(&mut reason, template.min_ram_mb as u64);
                    reason.append(" MB");
                    template.compatibility = compat_value(CompatibilityStatus::ResourceShort);
                    template.compatibility_reason = reason;
                    return template;
                }
            },
            None => {},
        }
    }
    assert(!ram_short(t0, *budget));
    if template.min_disk_mb > 0 {
        let chosen = match find_root_disk_exec(&budget.disks) {
            Some(i) => Some(i),
            None => if budget.disks.len() > 0 { Some(0) } else { None },
        };
        assert(match chosen {
            Some(i) => chosen_disk(budget.disks@) == Some(i as int) && i < budget.disks@.len(),
            None => chosen_disk(budget.disks@) is None,
        });
        match chosen {
            Some(i) => {
                let root = &budget.disks[i];
                let avail_mb = mib_of(root.available_bytes);
                if avail_mb < template.min_disk_mb {
                    let mut reason = root.mount_point.clone();
                    reason.append(" 可用 ");
                    push_u64(&mut reason, avail_mb as u64);
                    reason.append(" MB,该应用建议 ≥ ");
                    push_u64(&mut reason, template.min_disk_mb as u64);
                    reason.append(" MB");
                    template.compatibility = compat_value(CompatibilityStatus::ResourceShort);
                    template.compatibility_reason = reason;
                    return template;
                }
            },
            None => {},
        }
    }
    assert(!disk_short(t0, *budget));
    template.compatibility = compat_value(CompatibilityStatus::Compatible);
    template
}

/// Index of the first version with the given name.
pub open spec fn find_version(vs: Seq<(Seq<char>, Seq<char>, bool)>, wanted: Seq<char>) -> Option<int>
    decreases vs.len(),
{
    if vs.len() == 0 {
        None
    } else {
        match find_version(vs.drop_last(), wanted) {
            Some(i) => Some(i),
            None => if vs.last().0 == wanted { Some(vs.len() - 1) } else { None },
        }
    }
}

proof fn lemma_find_version_prefix(vs: Seq<(Seq<char>, Seq<char>, bool)>, wanted: Seq<char>, k: int, j: int)
    requires
        0 <= k <= vs.len(),
        find_version(vs.take(k), wanted) == Some(j),
    ensures
        find_version(vs, wanted) == Some(j),
    decreases vs.len() - k,
{
    if k < vs.len() {
        assert(vs.take(k + 1).drop_last() == vs.take(k));
        lemma_find_version_prefix(vs, wanted, k + 1, j);
    } else {
        assert(vs.take(k) == vs);
    }
}

/// The version asked for: the trimmed request, or the default when blank.
pub open spec fn wanted_version(t: TemplateView, requested: Seq<char>) -> Seq<char> {
    if all_ws(requested) { t.default_version } else { trim_seq(requested) }
}

/// The template's version named by the request (the default version when
/// the request is blank); a name it does not offer is refused.
pub fn resolve_template_version(template: &AppTemplate, requested: &str) -> (r: Result<AppVersion, Status>)
    ensures
        match find_version(template@.versions, wanted_version(template@, requested@)) {
            Some(i) => r matches Ok(v) && v@ == template@.versions[i],
            None => r matches Err(e) && e.code == Code::InvalidArgument && e.message@ == "unsupported app version"@,
        },
{
    let wanted = if is_blank(requested) { template.default_version.clone() } else { trim(requested) };
    let ghost vs = template@.versions;
    let mut i: usize = 0;
    while i < template.versions.len()
        invariant
            i <= vs.len(),
            vs == version_views(template.versions@),
            wanted@ == wanted_version(template@, requested@),
            find_version(vs.take(i as int), wanted@) is None,
        decreases vs.len() - i,
    {
        assert(vs.take(i + 1).drop_last() == vs.take(i as int));
        assert(vs.take(i + 1).last() == vs[i as int]);
        if eq_str(template.versions[i].version.as_str(), wanted.as_str()) {
            proof { lemma_find_version_prefix(vs, wanted@, i + 1, i as int); }
            return Ok(template.versions[i].duplicate());
        }
        i += 1;
    }
    assert(vs.take(i as int) == vs);
    Err(Status::invalid_argument("unsupported app version"))
}


/// One service of a generated compose file.
#[derive(Clone, Debug)]
pub struct ComposeService {
    pub image: String,
    pub container_name: String,
    pub restart: String,
    pub ports: Vec<String>,
    /// The variables in key order.
    pub environment: Vec<(String, String)>,
    pub volumes: Vec<String>,
    pub command: Option<String>,
}

/// A generated compose file: one service and its one named volume.
#[derive(Clone, Debug)]
pub struct ComposeFile {
    pub service_name: String,
    pub service: ComposeService,
    pub volume_name: String,
}

/// The container environment of a template given its generated password:
/// MySQL and PostgreSQL get a root password and a `rustpanel` database,
/// Redis nothing; other templates have no compose file.
pub open spec fn compose_env_spec(slug: Seq<char>, password: Seq<char>) -> Option<Seq<(Seq<char>, Seq<char>)>> {
    if slug == "mysql"@ {
        Some(seq![("MYSQL_DATABASE"@, "rustpanel"@), ("MYSQL_ROOT_PASSWORD"@, password)])
    } else if slug == "postgres"@ {
        Some(seq![("POSTGRES_DB"@, "rustpanel"@), ("POSTGRES_PASSWORD"@, password)])
    } else if slug == "redis"@ {
        Some(Seq::empty())
    } else {
        None
    }
}

pub open spec fn pair_views(v: Seq<(String, String)>) -> Seq<(Seq<char>, Seq<char>)> {
    v.map_values(|p: (String, String)| (p.0@, p.1@))
}

fn env_pair(k: &str, v: String) -> (r: (String, String))
    ensures
        r.0@ == k@ && r.1@ == v@,
{
    (k.to_string(), v)
}

/// The compose file of a template version for an app: service and
/// container `rustpanel-<app>`, restarted unless stopped, the template's
/// ports, a data volume `rustpanel-<app>-data`, the environment of
/// [`compose_env_spec`] with a fresh random password, and for Redis an
/// append-only server command.
pub fn compose_file(template: &AppTemplate, version: &AppVersion, app_name: &str) -> (r: Result<ComposeFile, Status>)
    ensures
        compose_env_spec(template.slug@, Seq::empty()) is None ==> (r matches Err(e) && e.code == Code::InvalidArgument
            && e.message@ == "unsupported app template"@),
        compose_env_spec(template.slug@, Seq::empty()) is Some ==> (r matches Ok(c) && {
            &&& c.service_name@ == "rustpanel-"@ + app_name@
            &&& c.service.container_name@ == "rustpanel-"@ + app_name@
            &&& c.service.image@ == version.image@
            &&& c.service.restart@ == "unless-stopped"@
            &&& views(c.service.ports@) == views(template.default_ports@)
            &&& views(c.service.volumes@) == seq!["rustpanel-"@ + app_name@ + "-data:/data"@]
            &&& c.volume_name@ == "rustpanel-"@ + app_name@ + "-data"@
            &&& (exists|password: Seq<char>| password.len() == 32
                && compose_env_spec(template.slug@, password) == Some(pair_views(c.service.environment@)))
            &&& (template.slug@ == "redis"@ ==> (c.service.command matches Some(cmd) && cmd@ == "redis-server --appendonly yes"@))
            &&& (template.slug@ != "redis"@ ==> c.service.command is None)
        }),
{
    let password = crate::crypto::new_uuid_simple();
    let ghost pw = password@;
    let mut environment: Vec<(String, String)> = Vec::new();
    if eq_str(template.slug.as_str(), "mysql") {
        environment.push(env_pair("MYSQL_DATABASE", "rustpanel".to_string()));
        environment.push(env_pair("MYSQL_ROOT_PASSWORD", password));
        assert(pair_views(environment@) =~= seq![("MYSQL_DATABASE"@, "rustpanel"@), ("MYSQL_ROOT_PASSWORD"@, pw)]);
    } else if eq_str(template.slug.as_str(), "postgres") {
        environment.push(env_pair("POSTGRES_DB", "rustpanel".to_string()));
        environment.push(env_pair("POSTGRES_PASSWORD", password));
        assert(pair_views(environment@) =~= seq![("POSTGRES_DB"@, "rustpanel"@), ("POSTGRES_PASSWORD"@, pw)]);
    } else if eq_str(template.slug.as_str(), "redis") {
        assert(pair_views(environment@) =~= Seq::<(Seq<char>, Seq<char>)>::empty());
    } else {
        return Err(Status::invalid_argument("unsupported app template"));
    }
    let mut service_name = "rustpanel-".to_string();
    service_name.append(app_name);
    let mut volume_name = service_name.clone();
    volume_name.append("-data");
    let mut volume = volume_name.clone();
    volume.append(":/data");
    let ghost volume_view = volume@;
    let mut volumes: Vec<String> = Vec::new();
    volumes.push(volume);
    proof {
        reveal_strlit("-data");
        reveal_strlit(":/data");
        reveal_strlit("-data:/data");
        assert("-data"@ + ":/data"@ =~= "-data:/data"@);
        assert(volume_view =~= "rustpanel-"@ + app_name@ + "-data:/data"@);
    }
    assert(views(volumes@) =~= seq!["rustpanel-"@ + app_name@ + "-data:/data"@]);
    let mut ports: Vec<String> = Vec::new();
    let mut i: usize = 0;
    while i < template.default_ports.len()
        invariant
            i <= template.default_ports@.len(),
            views(ports@) == views(template.default_ports@).take(i as int),
        decreases template.default_ports@.len() - i,
    {
        let ghost before = ports@;
        ports.push(template.default_ports[i].clone());
        assert(views(ports@) =~= views(before).push(template.default_ports@[i as int]@));
        assert(views(ports@) =~= views(template.default_ports@).take(i + 1));
        i += 1;
    }
    assert(views(template.default_ports@).take(i as int) == views(template.default_ports@));
    let command = if eq_str(template.slug.as_str(), "redis") {
        Some("redis-server --appendonly yes".to_string())
    } else {
        None
    };
    let service = ComposeService {
        image: version.image.clone(),
        container_name: service_name.clone(),
        restart: "unless-stopped".to_string(),
        ports,
        environment,
        volumes,
        command,
    };
    Ok(ComposeFile { service_name, service, volume_name })
}

} // verus!
