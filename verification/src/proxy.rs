//! Userspace proxy instances: the defaults an instance is completed with,
//! the checks it must pass before it is stored, and what starting one takes;
//! the proxy kinds offered and the prerequisites of a kernel VPN.

use vstd::prelude::*;

use crate::status::{Code, Status};
use crate::capability::{parse_hex, parse_hex_exec};
use crate::text::{
    all_ws, dec, eq_str, is_blank, pieces, push_str, push_u64, split_char, split_words, starts_with, starts_with_seq,
    views, words,
};

verus! {

pub const DEFAULT_PROXY_ROOT: &'static str = "/tmp/rustpanel/proxy";
pub const DEFAULT_SS_METHOD: &'static str = "2022-blake3-aes-128-gcm";
pub const SHADOWSOCKS_TEMPLATE: &'static str = "shadowsocks-rust";

/// The run state of an instance.
#[derive(Clone, Copy, Debug, PartialEq, Eq, Structural)]
pub enum ProxyState {
    Unspecified,
    Stopped,
    Running,
    Failed,
}

/// A proxy instance as clients send and receive it.
#[derive(Clone, Debug)]
pub struct ProxyInstance {
    pub id: String,
    pub name: String,
    pub template_id: String,
    pub listen_host: String,
    pub listen_port: u32,
    pub method: String,
    pub password: String,
    pub state: i32,
    pub pid: i32,
    pub log_path: String,
    pub last_message: String,
    pub updated_at_seconds: u64,
}

impl Default for ProxyInstance {
    fn default() -> (r: Self)
        ensures
            r.id@.len() == 0 && r.name@.len() == 0 && r.template_id@.len() == 0 && r.listen_host@.len() == 0
                && r.listen_port == 0 && r.method@.len() == 0 && r.password@.len() == 0 && r.state == 0
                && r.pid == 0 && r.log_path@.len() == 0 && r.last_message@.len() == 0
                && r.updated_at_seconds == 0,
    {
        ProxyInstance {
            id: String::new(),
            name: String::new(),
            template_id: String::new(),
            listen_host: String::new(),
            listen_port: 0,
            method: String::new(),
            password: String::new(),
            state: 0,
            pid: 0,
            log_path: String::new(),
            last_message: String::new(),
            updated_at_seconds: 0,
        }
    }
}

/// Why an instance is refused, if it is, checked in order: a name; the
/// shadowsocks-rust template (a blank template means that one); a port in
/// 1..=65535; a password.
pub open spec fn instance_error(i: ProxyInstance) -> Option<Seq<char>> {
    if all_ws(i.name@) {
        Some("proxy name is required"@)
    } else if !all_ws(i.template_id@) && i.template_id@ != SHADOWSOCKS_TEMPLATE@ {
        Some("only shadowsocks-rust proxy template is supported"@)
    } else if i.listen_port == 0 || i.listen_port > 65535 {
        Some("listen_port must be between 1 and 65535"@)
    } else if all_ws(i.password@) {
        Some("proxy password is required"@)
    } else {
        None
    }
}

/// Completes and checks an instance, with logs under `root`: a blank id
/// becomes a random UUID, a blank template shadowsocks-rust, a blank host
/// `0.0.0.0`, a blank method the default cipher, an unspecified state
/// stopped, a blank log path `<root>/logs/<id>.log`; the update time is the
/// clock's.
pub fn normalize_instance_under(instance: &mut ProxyInstance, root: &str) -> (r: Result<(), Status>)
    ensures
        match instance_error(*old(instance)) {
            Some(m) => r matches Err(e) && e.code == Code::InvalidArgument && e.message@ == m,
            None => r is Ok,
        },
        r is Ok ==> {
            let o = *old(instance);
            let f = *final(instance);
            &&& all_ws(o.id@) ==> f.id@.len() == 36
            &&& !all_ws(o.id@) ==> f.id == o.id
            &&& f.template_id@ == SHADOWSOCKS_TEMPLATE@
            &&& f.listen_host@ == if all_ws(o.listen_host@) { "0.0.0.0"@ } else { o.listen_host@ }
            &&& f.method@ == if all_ws(o.method@) { DEFAULT_SS_METHOD@ } else { o.method@ }
            &&& f.state == if o.state == 0 { 1 } else { o.state }
            &&& f.log_path@ == if all_ws(o.log_path@) { root@ + "/logs/"@ + f.id@ + ".log"@ } else { o.log_path@ }
            &&& f.name == o.name && f.listen_port == o.listen_port && f.password == o.password
            &&& f.pid == o.pid && f.last_message == o.last_message
        },
{
    if is_blank(instance.name.as_str()) {
        return Err(Status::invalid_argument("proxy name is required"));
    }
    if is_blank(instance.id.as_str()) {
        instance.id = crate::crypto::new_uuid();
    }
    if is_blank(instance.template_id.as_str()) {
        instance.template_id = SHADOWSOCKS_TEMPLATE.to_string();
    }
    if !eq_str(instance.template_id.as_str(), SHADOWSOCKS_TEMPLATE) {
        return Err(Status::invalid_argument("only shadowsocks-rust proxy template is supported"));
    }
    if is_blank(instance.listen_host.as_str()) {
        instance.listen_host = "0.0.0.0".to_string();
    }
    if instance.listen_port == 0 || instance.listen_port > 65535 {
        return Err(Status::invalid_argument("listen_port must be between 1 and 65535"));
    }
    if is_blank(instance.method.as_str()) {
        instance.method = DEFAULT_SS_METHOD.to_string();
    }
    if is_blank(instance.password.as_str()) {
        return Err(Status::invalid_argument("proxy password is required"));
    }
    if instance.state == 0 {
        instance.state = 1;
    }
    if is_blank(instance.log_path.as_str()) {
        let mut p = root.to_string();
        p.append("/logs/");
        p.append(instance.id.as_str());
        p.append(".log");
        instance.log_path = p;
    }
    instance.updated_at_seconds = match crate::crypto::unix_now() {
        Some(t) => t,
        None => 0,
    };
    Ok(())
}

/// [`normalize_instance_under`] with logs under the default proxy root.
pub fn normalize_instance(instance: &mut ProxyInstance) -> (r: Result<(), Status>)
    ensures
        match instance_error(*old(instance)) {
            Some(m) => r matches Err(e) && e.code == Code::InvalidArgument && e.message@ == m,
            None => r is Ok,
        },
        r is Ok ==> {
            let o = *old(instance);
            let f = *final(instance);
            &&& all_ws(o.id@) ==> f.id@.len() == 36
            &&& !all_ws(o.id@) ==> f.id == o.id
            &&& f.template_id@ == SHADOWSOCKS_TEMPLATE@
            &&& f.listen_host@ == if all_ws(o.listen_host@) { "0.0.0.0"@ } else { o.listen_host@ }
            &&& f.method@ == if all_ws(o.method@) { DEFAULT_SS_METHOD@ } else { o.method@ }
            &&& f.state == if o.state == 0 { 1 } else { o.state }
            &&& f.log_path@ == if all_ws(o.log_path@) { DEFAULT_PROXY_ROOT@ + "/logs/"@ + f.id@ + ".log"@ } else { o.log_path@ }
            &&& f.name == o.name && f.listen_port == o.listen_port && f.password == o.password
            &&& f.pid == o.pid && f.last_message == o.last_message
        },
{
    normalize_instance_under(instance, DEFAULT_PROXY_ROOT)
}

/// The state an instance shows given its process, if one is registered:
/// with a process it runs under that pid; recorded as running without one,
/// it is stopped with no pid; otherwise it is left as it is.
pub fn overlay_runtime_state(instance: &mut ProxyInstance, live_pid: Option<i32>)
    ensures
        match live_pid {
            Some(pid) => final(instance).pid == pid && final(instance).state == 2,
            None => if old(instance).state == 2 {
                final(instance).state == 1 && final(instance).pid == 0
            } else {
                final(instance).state == old(instance).state && final(instance).pid == old(instance).pid
            },
        },
        final(instance).id == old(instance).id && final(instance).name == old(instance).name
            && final(instance).log_path == old(instance).log_path,
{
    match live_pid {
        Some(pid) => {
            instance.pid = pid;
            instance.state = 2;
        },
        None => {
            if instance.state == 2 {
                instance.state = 1;
                instance.pid = 0;
            }
        },
    }
}


/// A proxy kind that instances can be made from.
#[derive(Clone, Debug)]
pub struct ProxyTemplate {
    pub id: String,
    pub name: String,
    pub runtime: String,
    pub description: String,
    pub default_port: u32,
}

/// The one proxy kind offered: shadowsocks-rust on port 8388.
pub fn proxy_templates() -> (r: Vec<ProxyTemplate>)
    ensures
        r@.len() == 1,
        r@[0].id@ == SHADOWSOCKS_TEMPLATE@ && r@[0].name@ == SHADOWSOCKS_TEMPLATE@,
        r@[0].runtime@ == "userspace-proxy"@,
        r@[0].description@ == "Low-memory userspace proxy for NAT/OpenVZ micro servers"@,
        r@[0].default_port == 8388,
{
    vec![ProxyTemplate {
        id: SHADOWSOCKS_TEMPLATE.to_string(),
        name: SHADOWSOCKS_TEMPLATE.to_string(),
        runtime: "userspace-proxy".to_string(),
        description: "Low-memory userspace proxy for NAT/OpenVZ micro servers".to_string(),
        default_port: 8388,
    }]
}

/// One prerequisite of a kernel VPN and whether the host has it.
#[derive(Clone, Debug)]
pub struct VpnCapability {
    pub id: String,
    pub name: String,
    pub available: bool,
    pub reason: String,
}

/// The VPN prerequisites and what they add up to.
#[derive(Clone, Debug)]
pub struct VpnReport {
    pub capabilities: Vec<VpnCapability>,
    pub vpn_recommended: bool,
    pub summary: String,
}

fn capability(id: &str, name: &str, available: bool, yes: &str, no: &str) -> (r: VpnCapability)
    ensures
        r.id@ == id@ && r.name@ == name@ && r.available == available,
        r.reason@ == if available { yes@ } else { no@ },
{
    VpnCapability {
        id: id.to_string(),
        name: name.to_string(),
        available,
        reason: if available { yes.to_string() } else { no.to_string() },
    }
}

/// The TUN device, `CAP_NET_ADMIN` and the `ip` tool, given whether the
/// host has each; a kernel VPN is recommended only when it has all three.
pub fn vpn_report(tun_device: bool, cap_net_admin: bool, ip_tool: bool) -> (r: VpnReport)
    ensures
        r.capabilities@.len() == 3,
        r.capabilities@[0].id@ == "tun"@ && r.capabilities@[0].name@ == "/dev/net/tun"@
            && r.capabilities@[0].available == tun_device
            && r.capabilities@[0].reason@ == if tun_device { "TUN device exists"@ } else { "TUN device is missing; common on restricted OpenVZ"@ },
        r.capabilities@[1].id@ == "cap-net-admin"@ && r.capabilities@[1].name@ == "CAP_NET_ADMIN"@
            && r.capabilities@[1].available == cap_net_admin
            && r.capabilities@[1].reason@ == if cap_net_admin { "process has CAP_NET_ADMIN"@ } else { "process lacks CAP_NET_ADMIN"@ },
        r.capabilities@[2].id@ == "ip-tool"@ && r.capabilities@[2].name@ == "iproute2"@
            && r.capabilities@[2].available == ip_tool
            && r.capabilities@[2].reason@ == if ip_tool { "ip command is available"@ } else { "ip command is missing"@ },
        r.vpn_recommended == (tun_device && cap_net_admin && ip_tool),
        r.summary@ == if tun_device && cap_net_admin && ip_tool {
            "VPN prerequisites look available"@
        } else {
            "OpenVZ/NAT environment should prefer userspace proxy unless all VPN checks pass"@
        },
{
    let capabilities = vec![
        capability("tun", "/dev/net/tun", tun_device, "TUN device exists", "TUN device is missing; common on restricted OpenVZ"),
        capability("cap-net-admin", "CAP_NET_ADMIN", cap_net_admin, "process has CAP_NET_ADMIN", "process lacks CAP_NET_ADMIN"),
        capability("ip-tool", "iproute2", ip_tool, "ip command is available", "ip command is missing"),
    ];
    let vpn_recommended = tun_device && cap_net_admin && ip_tool;
    let summary = if vpn_recommended {
        "VPN prerequisites look available".to_string()
    } else {
        "OpenVZ/NAT environment should prefer userspace proxy unless all VPN checks pass".to_string()
    };
    VpnReport { capabilities, vpn_recommended, summary }
}

/// The effective-capability mask of `/proc/self/status`: the second field
/// of the first line (split at line feeds) starting with `CapEff:`, read as hexadecimal.
pub open spec fn cap_eff_spec(status: Seq<char>) -> Option<nat> {
    let ls = pieces(status, '\n');
    let k = first_line_with(ls, "CapEff:"@) as int;
    if k < ls.len() && words(ls[k]).len() >= 2 {
        parse_hex(words(ls[k])[1], u64::MAX as nat)
    } else {
        None
    }
}

/// The index of the first line starting with `prefix` (the count of lines
/// when none does).
pub open spec fn first_line_with(ls: Seq<Seq<char>>, prefix: Seq<char>) -> nat
    decreases ls.len(),
{
    if ls.len() == 0 {
        0
    } else if starts_with_seq(ls[0], prefix) {
        0
    } else {
        1 + first_line_with(ls.drop_first(), prefix)
    }
}

/// Whether the process may administer the network: bit 12 of its
/// effective capabilities, false when the status text does not say.
pub fn has_cap_net_admin(status: &str) -> (r: bool)
    ensures
        r == match cap_eff_spec(status@) {
            Some(caps) => (caps as u64) & 0x1000u64 != 0,
            None => false,
        },
{
    let ls = split_char(status, '\n');
    let ghost lv = views(ls@);
    let mut k: usize = 0;
    assert(lv.skip(0) =~= lv);
    while k < ls.len() && !starts_with(ls[k].as_str(), "CapEff:")
        invariant
            k <= ls@.len(),
            lv == views(ls@),
            lv == pieces(status@, '\n'),
            first_line_with(lv, "CapEff:"@) == k + first_line_with(lv.skip(k as int), "CapEff:"@),
        decreases ls@.len() - k,
    {
        assert(lv.skip(k as int)[0] == ls@[k as int]@);
        assert(lv.skip(k as int).drop_first() =~= lv.skip(k + 1));
        k += 1;
    }
    if k < ls.len() {
        assert(lv.skip(k as int)[0] == ls@[k as int]@);
    } else {
        assert(lv.skip(k as int).len() == 0);
    }
    assert(first_line_with(lv, "CapEff:"@) == k);
    if k >= ls.len() {
        return false;
    }
    let fields = split_words(ls[k].as_str());
    if fields.len() < 2 {
        return false;
    }
    match parse_hex_exec(fields[1].as_str(), u64::MAX) {
        Some(caps) => caps & 0x1000u64 != 0,
        None => false,
    }
}

/// Where the shadowsocks server binary is: the configured path, else
/// `ssserver` in the configured binary directory, else in `/usr/local/bin`.
pub fn ssserver_binary(server_bin: Option<&str>, bin_dir: Option<&str>) -> (r: String)
    ensures
        r@ == match server_bin {
            Some(p) => p@,
            None => match bin_dir {
                Some(d) => d@ + "/ssserver"@,
                None => "/usr/local/bin/ssserver"@,
            },
        },
{
    match server_bin {
        Some(p) => p.to_string(),
        None => match bin_dir {
            Some(d) => {
                let mut s = d.to_string();
                s.append("/ssserver");
                s
            },
            None => "/usr/local/bin/ssserver".to_string(),
        },
    }
}

/// Whether a normalized instance may be started: not while it runs, and
/// only with the server binary installed.
pub fn start_check(already_running: bool, binary: &str, binary_exists: bool) -> (r: Result<(), Status>)
    ensures
        already_running ==> (r matches Err(e) && e.code == Code::AlreadyExists
            && e.message@ == "proxy is already running"@),
        !already_running && !binary_exists ==> (r matches Err(e) && e.code == Code::FailedPrecondition
            && e.message@ == "shadowsocks-rust ssserver not found at "@ + binary@
                + "; install micro proxy runtime first"@),
        !already_running && binary_exists ==> r is Ok,
{
    if already_running {
        return Err(Status::new(Code::AlreadyExists, "proxy is already running"));
    }
    if !binary_exists {
        let mut m = "shadowsocks-rust ssserver not found at ".to_string();
        m.append(binary);
        m.append("; install micro proxy runtime first");
        return Err(Status::failed_precondition(m.as_str()));
    }
    Ok(())
}

/// The server's arguments: `-s <host>:<port> -m <method> -k <password>`.
pub fn ssserver_args(instance: &ProxyInstance) -> (r: Vec<String>)
    ensures
        r@.len() == 6,
        r@[0]@ == "-s"@ && r@[1]@ == instance.listen_host@ + ":"@ + dec(instance.listen_port as nat),
        r@[2]@ == "-m"@ && r@[3]@ == instance.method@,
        r@[4]@ == "-k"@ && r@[5]@ == instance.password@,
{
    let mut listen = instance.listen_host.clone();
    listen.append(":");
    push_u64(&mut listen, instance.listen_port as u64);
    vec![
        "-s".to_string(),
        listen,
        "-m".to_string(),
        instance.method.clone(),
        "-k".to_string(),
        instance.password.clone(),
    ]
}

/// The instance once its server started with `pid` at `now`.
pub fn mark_started(instance: ProxyInstance, pid: i32, now: u64) -> (r: ProxyInstance)
    ensures
        r.state == 2 && r.pid == pid && r.updated_at_seconds == now,
        r.id == instance.id && r.name == instance.name && r.template_id == instance.template_id
            && r.listen_host == instance.listen_host && r.listen_port == instance.listen_port
            && r.method == instance.method && r.password == instance.password
            && r.log_path == instance.log_path && r.last_message == instance.last_message,
{
    let mut instance = instance;
    instance.state = 2;
    instance.pid = pid;
    instance.updated_at_seconds = now;
    instance
}

/// The state a server leaves behind when it exits: stopped after a clean
/// exit, failed otherwise.
pub fn exit_state(success: bool) -> (r: i32)
    ensures
        r == if success { 1i32 } else { 3i32 },
{
    if success { 1 } else { 3 }
}

/// The byte at which the log tail starts: the last `max_bytes` of the file,
/// with the request clamped to 1..=256 KiB.
pub fn log_tail_start(len: usize, max_bytes: u64) -> (r: usize)
    ensures
        ({
            let m: int = if max_bytes < 1 { 1 } else if max_bytes > 262144 { 262144 } else { max_bytes as int };
            r == if len > m { len - m } else { 0 }
        }),
{
    let m: u64 = if max_bytes < 1 { 1 } else if max_bytes > 262144 { 262144 } else { max_bytes };
    let m = m as usize;
    if len > m { len - m } else { 0 }
}

} // verus!
