//! Host capabilities and budgets: whether docker can run and why not, which
//! ACME challenge suits the host, kernel facts read from `/proc` text,
//! memory, disk and NAT-port budgets, the port reservation table, and which
//! IPv6 addresses are public.

use vstd::prelude::*;

use crate::ipv6::{format_ipv6, ipv6_segments, ipv6_text, parse_ipv6};
use crate::status::{Code, Status};
use crate::text::{
    chars_of, contains, has_sub, parse_unsigned, parse_unsigned_exec, pieces, split_char,
    split_words, starts_with, starts_with_seq, trim, trim_seq, views, words, eq_str, seq_lt, str_lt,
    lemma_seq_lt_irreflexive, lemma_seq_lt_total, lemma_seq_lt_transitive, all_ws, is_blank, dec,
    push_u64, unsigned_body, index_of, lemma_index_of, find_char_from, string_of, trim_end_char,
    lemma_trim_end_char_take, push_char,
};

verus! {

/// What the panel knows of its host.
#[derive(Clone, Debug)]
pub struct Capabilities {
    pub is_openvz: bool,
    pub is_container: bool,
    pub kernel_version: String,
    pub has_overlay2: bool,
    pub has_fuse: bool,
    pub has_iptables: bool,
    pub has_nf_nat: bool,
    pub has_swap: bool,
    pub has_bbr: bool,
    pub has_cgroups_v2: bool,
    pub has_user_namespaces: bool,
    pub docker_running: bool,
    pub can_run_docker: bool,
    pub docker_block_reason: String,
    pub probed_at_seconds: u64,
    pub recommended_acme_challenge: String,
    pub acme_challenge_reason: String,
}

/// The host's memory and swap.
#[derive(Clone, Copy, Debug)]
pub struct MemoryBudget {
    pub total_bytes: u64,
    pub used_bytes: u64,
    pub available_bytes: u64,
    pub swap_total_bytes: u64,
    pub swap_used_bytes: u64,
}

/// One mounted file system and its space.
#[derive(Clone, Debug)]
pub struct DiskBudget {
    pub mount_point: String,
    pub filesystem: String,
    pub total_bytes: u64,
    pub used_bytes: u64,
    pub available_bytes: u64,
}

/// The NAT port allowance: how many ports the host may forward, how many
/// are reserved and how many sockets listen.
#[derive(Clone, Copy, Debug)]
pub struct PortBudget {
    pub total: u32,
    pub reserved: u32,
    pub listening: u32,
}

/// The host's memory, disks, ports and processors (the load averages, as
/// floating-point figures, are added where the budget is reported).
#[derive(Clone, Debug)]
pub struct ResourceBudget {
    pub memory: Option<MemoryBudget>,
    pub disks: Vec<DiskBudget>,
    pub ports: Option<PortBudget>,
    pub cpu_count: u32,
}

/// Whether docker can run, and the reason when it cannot: OpenVZ without
/// overlayfs; no overlay2 and no running daemon; OpenVZ with user
/// namespaces off. Otherwise a running daemon or overlay2 suffices.
pub open spec fn docker_verdict_spec(is_openvz: bool, has_overlay2: bool, docker_running: bool, has_user_namespaces: bool) -> (bool, Seq<char>) {
    if is_openvz && !has_overlay2 {
        (false, "OpenVZ 内核未提供 overlayfs,Docker 无法启动"@)
    } else if !has_overlay2 && !docker_running {
        (false, "缺少 overlay2 文件系统支持"@)
    } else if !has_user_namespaces && is_openvz {
        (false, "OpenVZ 上 user_namespaces 已禁用"@)
    } else {
        (docker_running || has_overlay2, Seq::empty())
    }
}

pub fn docker_verdict(is_openvz: bool, has_overlay2: bool, docker_running: bool, has_user_namespaces: bool) -> (r: (bool, String))
    ensures
        (r.0, r.1@) == docker_verdict_spec(is_openvz, has_overlay2, docker_running, has_user_namespaces),
{
    let mut reason = String::new();
    let mut can_run = docker_running || has_overlay2;
    if is_openvz && !has_overlay2 {
        can_run = false;
        reason = "OpenVZ 内核未提供 overlayfs,Docker 无法启动".to_string();
    } else if !has_overlay2 && !docker_running {
        can_run = false;
        reason = "缺少 overlay2 文件系统支持".to_string();
    } else if !has_user_namespaces && is_openvz {
        can_run = false;
        reason = "OpenVZ 上 user_namespaces 已禁用".to_string();
    }
    (can_run, reason)
}

/// The recommended ACME challenge and why: DNS-01 on OpenVZ and in
/// containers, where port 80 is unlikely to reach the host; HTTP-01
/// elsewhere.
pub fn acme_recommendation(is_openvz: bool, is_container: bool) -> (r: (String, String))
    ensures
        is_openvz ==> r.0@ == "dns01"@ && r.1@ == "OpenVZ NAT VPS · 公网 80 通常没在转发表里,HTTP-01 走不通,DNS-01 更稳。"@,
        !is_openvz && is_container ==> r.0@ == "dns01"@ && r.1@ == "容器环境 · 入站 80 不一定暴露,先走 DNS-01 保稳。"@,
        !is_openvz && !is_container ==> r.0@ == "http01"@ && r.1@ == "公网 IP 主机 · HTTP-01 一键完成,不用碰 DNS。"@,
{
    if is_openvz {
        ("dns01".to_string(), "OpenVZ NAT VPS · 公网 80 通常没在转发表里,HTTP-01 走不通,DNS-01 更稳。".to_string())
    } else if is_container {
        ("dns01".to_string(), "容器环境 · 入站 80 不一定暴露,先走 DNS-01 保稳。".to_string())
    } else {
        ("http01".to_string(), "公网 IP 主机 · HTTP-01 一键完成,不用碰 DNS。".to_string())
    }
}

/// User namespaces are on when `/proc/sys/user/max_user_namespaces` holds a
/// positive number.
pub fn user_namespaces_enabled(max_user_namespaces: &str) -> (r: bool)
    ensures
        r == match parse_unsigned(trim_seq(max_user_namespaces@), u64::MAX as nat) {
            Some(n) => n > 0,
            None => false,
        },
{
    let t = trim(max_user_namespaces);
    match parse_unsigned_exec(t.as_str(), u64::MAX) {
        Some(n) => n > 0,
        None => false,
    }
}

/// A `/proc/filesystems` text lists overlayfs.
pub fn lists_overlay(filesystems: &str) -> (r: bool)
    ensures
        r == has_sub(filesystems@, "overlay"@),
{
    contains(filesystems, "overlay")
}

/// The number of listening TCP sockets in `/proc/net/tcp`-style texts: the
/// lines after the header whose fourth field is `0A`.
pub open spec fn listen_count(lines: Seq<Seq<char>>) -> nat
    decreases lines.len(),
{
    if lines.len() == 0 {
        0
    } else {
        listen_count(lines.drop_last()) + if words(lines.last()).len() > 3 && words(lines.last())[3] == "0A"@ { 1nat } else { 0nat }
    }
}

/// Counts the listening sockets of one table (its first line is the header),
/// saturating at `u32::MAX`.
pub fn count_listening(table: &str) -> (r: u32)
    ensures
        r == if listen_count(pieces(table@, '\n').skip(1)) <= u32::MAX as nat { listen_count(pieces(table@, '\n').skip(1)) } else { u32::MAX as nat },
{
    let lines = split_char(table, '\n');
    let ghost ls = views(lines@).skip(1);
    let mut total: u32 = 0;
    let mut i: usize = 1;
    while i < lines.len()
        invariant
            1 <= i <= lines@.len() || (i == 1 && lines@.len() == 0),
            lines@.len() >= 1,
            ls == views(lines@).skip(1),
            ls == pieces(table@, '\n').skip(1),
            total == if listen_count(ls.take(i - 1)) <= u32::MAX as nat { listen_count(ls.take(i - 1)) } else { u32::MAX as nat },
        decreases lines@.len() - i,
    {
        let fields = split_words(lines[i].as_str());
        proof {
            assert(ls.take(i as int).drop_last() == ls.take(i - 1));
            assert(ls.take(i as int).last() == lines@[i as int]@);
        }
        let hit = fields.len() > 3 && eq_str(fields[3].as_str(), "0A");
        proof {
            if fields.len() > 3 {
                assert(views(fields@)[3] == fields@[3]@);
            }
        }
        if hit && total < u32::MAX {
            total += 1;
        }
        i += 1;
    }
    proof {
        assert(ls.take(lines@.len() - 1) == ls);
    }
    total
}

/// A public IPv6 address: not unspecified, loopback or multicast, not
/// link-local (`fe80::/10`), site-local (`fec0::/10`) or unique-local
/// (`fc00::/7`), not IPv4-compatible (`::/96`) nor IPv4-mapped
/// (`::ffff:0:0/96`).
pub open spec fn global_ipv6_spec(s: Seq<u16>) -> bool {
    let unspecified = forall|i: int| 0 <= i < 8 ==> s[i] == 0;
    let loopback = s[0] == 0 && s[1] == 0 && s[2] == 0 && s[3] == 0 && s[4] == 0 && s[5] == 0 && s[6] == 0 && s[7] == 1;
    let multicast = s[0] & 0xff00 == 0xff00;
    &&& !unspecified
    &&& !loopback
    &&& !multicast
    &&& s[0] & 0xffc0 != 0xfe80
    &&& s[0] & 0xffc0 != 0xfec0
    &&& s[0] & 0xfe00 != 0xfc00
    &&& !(s[0] == 0 && s[1] == 0 && s[2] == 0 && s[3] == 0 && s[4] == 0 && s[5] == 0)
    &&& !(s[0] == 0 && s[1] == 0 && s[2] == 0 && s[3] == 0 && s[4] == 0 && s[5] == 0xffff)
}

pub fn is_real_global_ipv6(segs: [u16; 8]) -> (r: bool)
    ensures
        r == global_ipv6_spec(segs@),
{
    let unspecified = segs[0] == 0 && segs[1] == 0 && segs[2] == 0 && segs[3] == 0 && segs[4] == 0 && segs[5] == 0
        && segs[6] == 0 && segs[7] == 0;
    let loopback = segs[0] == 0 && segs[1] == 0 && segs[2] == 0 && segs[3] == 0 && segs[4] == 0 && segs[5] == 0
        && segs[6] == 0 && segs[7] == 1;
    let multicast = segs[0] & 0xff00 == 0xff00;
    proof {
        let s = segs@;
        assert(unspecified == forall|i: int| 0 <= i < 8 ==> s[i] == 0) by {
            if !unspecified {
                assert(!(s[0] == 0 && s[1] == 0 && s[2] == 0 && s[3] == 0 && s[4] == 0 && s[5] == 0 && s[6] == 0 && s[7] == 0));
            }
        }
    }
    if unspecified || loopback || multicast {
        return false;
    }
    if segs[0] & 0xffc0 == 0xfe80 {
        return false;
    }
    if segs[0] & 0xffc0 == 0xfec0 {
        return false;
    }
    if segs[0] & 0xfe00 == 0xfc00 {
        return false;
    }
    if segs[0] == 0 && segs[1] == 0 && segs[2] == 0 && segs[3] == 0 && segs[4] == 0 && segs[5] == 0 {
        return false;
    }
    if segs[0] == 0 && segs[1] == 0 && segs[2] == 0 && segs[3] == 0 && segs[4] == 0 && segs[5] == 0xffff {
        return false;
    }
    true
}


/// What is read from the host to probe it: the kernel release, which
/// marker files exist, and the texts of the `/proc` files consulted (empty
/// where a file cannot be read; the init process's cgroup file as `None`).
#[derive(Clone, Debug)]
pub struct ProbeFacts {
    pub kernel_version: String,
    pub has_user_beancounters: bool,
    pub has_proc_vz: bool,
    pub has_dockerenv: bool,
    pub init_cgroup: Option<String>,
    pub filesystems: String,
    pub modules: String,
    pub has_usr_sbin_iptables: bool,
    pub has_sbin_iptables: bool,
    pub swaps: String,
    pub congestion_control: String,
    pub has_cgroup_controllers: bool,
    pub max_user_namespaces: String,
    pub has_docker_socket: bool,
    pub probed_at_seconds: u64,
}

/// Some line of `s` starts with `p`.
pub open spec fn has_line_starting(s: Seq<char>, p: Seq<char>) -> bool {
    exists|i: int| 0 <= i < pieces(s, '\n').len() && starts_with_seq(#[trigger] pieces(s, '\n')[i], p)
}

/// `s` has more than one line: a line break before its last character.
pub open spec fn several_lines(s: Seq<char>) -> bool {
    exists|i: int| 0 <= i < s.len() - 1 && s[i] == '\n'
}

/// The host is a container: docker's marker file exists, or the init
/// process's cgroup names docker or lxc.
pub open spec fn in_container(facts: ProbeFacts) -> bool {
    facts.has_dockerenv || match facts.init_cgroup {
        Some(c) => has_sub(c@, "docker"@) || has_sub(c@, "lxc"@),
        None => false,
    }
}

pub open spec fn namespaces_spec(max_user_namespaces: Seq<char>) -> bool {
    match parse_unsigned(trim_seq(max_user_namespaces), u64::MAX as nat) {
        Some(n) => n > 0,
        None => false,
    }
}

/// Whether some line of `s` starts with `p`.
pub fn any_line_starts_with(s: &str, p: &str) -> (r: bool)
    ensures
        r == has_line_starting(s@, p@),
{
    let lines = split_char(s, '\n');
    let mut i: usize = 0;
    while i < lines.len()
        invariant
            i <= lines@.len(),
            views(lines@) == pieces(s@, '\n'),
            forall|j: int| 0 <= j < i ==> !starts_with_seq(#[trigger] pieces(s@, '\n')[j], p@),
        decreases lines@.len() - i,
    {
        assert(views(lines@)[i as int] == lines@[i as int]@);
        if starts_with(lines[i].as_str(), p) {
            return true;
        }
        i += 1;
    }
    false
}

/// Whether `s` has more than one line.
pub fn has_several_lines(s: &str) -> (r: bool)
    ensures
        r == several_lines(s@),
{
    let v = chars_of(s);
    let mut i: usize = 0;
    while v.len() > 0 && i < v.len() - 1
        invariant
            v@ == s@,
            i <= v@.len(),
            forall|j: int| 0 <= j < i ==> v@[j] != '\n',
        decreases v@.len() - i,
    {
        if v[i] == '\n' {
            return true;
        }
        i += 1;
    }
    false
}

/// The capabilities that the facts show: OpenVZ when its marker files
/// exist; overlay2, FUSE and BBR when their names occur in the file-system
/// and congestion-control lists; NAT when a loaded module's line starts
/// with `nf_nat`; swap when the swap table has a row besides its header;
/// iptables when either binary exists; user namespaces when their limit is
/// positive; docker's verdict and the ACME recommendation as
/// [`docker_verdict_spec`] and [`acme_recommendation`] decide.
pub fn capabilities_from_probe(facts: &ProbeFacts) -> (r: Capabilities)
    ensures
        r.is_openvz == (facts.has_user_beancounters || facts.has_proc_vz),
        r.is_container == in_container(*facts),
        r.kernel_version@ == facts.kernel_version@,
        r.has_overlay2 == has_sub(facts.filesystems@, "overlay"@),
        r.has_fuse == has_sub(facts.filesystems@, "fuse"@),
        r.has_iptables == (facts.has_usr_sbin_iptables || facts.has_sbin_iptables),
        r.has_nf_nat == has_line_starting(facts.modules@, "nf_nat"@),
        r.has_swap == several_lines(facts.swaps@),
        r.has_bbr == has_sub(facts.congestion_control@, "bbr"@),
        r.has_cgroups_v2 == facts.has_cgroup_controllers,
        r.has_user_namespaces == namespaces_spec(facts.max_user_namespaces@),
        r.docker_running == facts.has_docker_socket,
        (r.can_run_docker, r.docker_block_reason@) == docker_verdict_spec(r.is_openvz, r.has_overlay2,
            r.docker_running, r.has_user_namespaces),
        r.probed_at_seconds == facts.probed_at_seconds,
        r.is_openvz ==> r.recommended_acme_challenge@ == "dns01"@,
        !r.is_openvz && r.is_container ==> r.recommended_acme_challenge@ == "dns01"@,
        !r.is_openvz && !r.is_container ==> r.recommended_acme_challenge@ == "http01"@,
        r.is_openvz ==> r.acme_challenge_reason@ == "OpenVZ NAT VPS · 公网 80 通常没在转发表里,HTTP-01 走不通,DNS-01 更稳。"@,
        !r.is_openvz && r.is_container ==> r.acme_challenge_reason@ == "容器环境 · 入站 80 不一定暴露,先走 DNS-01 保稳。"@,
        !r.is_openvz && !r.is_container ==> r.acme_challenge_reason@ == "公网 IP 主机 · HTTP-01 一键完成,不用碰 DNS。"@,
{
    let is_openvz = facts.has_user_beancounters || facts.has_proc_vz;
    let is_container = facts.has_dockerenv || match &facts.init_cgroup {
        Some(c) => contains(c.as_str(), "docker") || contains(c.as_str(), "lxc"),
        None => false,
    };
    let has_overlay2 = lists_overlay(facts.filesystems.as_str());
    let has_fuse = contains(facts.filesystems.as_str(), "fuse");
    let has_nf_nat = any_line_starts_with(facts.modules.as_str(), "nf_nat");
    let has_iptables = facts.has_usr_sbin_iptables || facts.has_sbin_iptables;
    let has_swap = has_several_lines(facts.swaps.as_str());
    let has_bbr = contains(facts.congestion_control.as_str(), "bbr");
    let has_user_namespaces = user_namespaces_enabled(facts.max_user_namespaces.as_str());
    let docker_running = facts.has_docker_socket;
    let (can_run_docker, docker_block_reason) = docker_verdict(is_openvz, has_overlay2, docker_running,
        has_user_namespaces);
    let (recommended_acme_challenge, acme_challenge_reason) = acme_recommendation(is_openvz, is_container);
    Capabilities {
        is_openvz,
        is_container,
        kernel_version: facts.kernel_version.clone(),
        has_overlay2,
        has_fuse,
        has_iptables,
        has_nf_nat,
        has_swap,
        has_bbr,
        has_cgroups_v2: facts.has_cgroup_controllers,
        has_user_namespaces,
        docker_running,
        can_run_docker,
        docker_block_reason,
        probed_at_seconds: facts.probed_at_seconds,
        recommended_acme_challenge,
        acme_challenge_reason,
    }
}

/// A cached probe is reused while less than an hour old.
pub fn capabilities_fresh(probed_at_seconds: u64, now: u64) -> (r: bool)
    ensures
        r == (probed_at_seconds + 3600 > now),
{
    probed_at_seconds as u128 + 3600 > now as u128
}

/// The memory budget of the figures read: what is available is the total
/// less what is used, saturating at zero.
pub fn memory_budget(total_bytes: u64, used_bytes: u64, swap_total_bytes: u64, swap_used_bytes: u64) -> (r: MemoryBudget)
    ensures
        r.total_bytes == total_bytes,
        r.used_bytes == used_bytes,
        r.available_bytes == if total_bytes >= used_bytes { total_bytes - used_bytes } else { 0 },
        r.swap_total_bytes == swap_total_bytes,
        r.swap_used_bytes == swap_used_bytes,
{
    MemoryBudget {
        total_bytes,
        used_bytes,
        available_bytes: total_bytes.saturating_sub(used_bytes),
        swap_total_bytes,
        swap_used_bytes,
    }
}

/// The budget of one disk from its size and free space: what is used is
/// the size less the free space, saturating at zero.
pub fn disk_budget(mount_point: String, filesystem: String, total_bytes: u64, available_bytes: u64) -> (r: DiskBudget)
    ensures
        r.mount_point@ == mount_point@,
        r.filesystem@ == filesystem@,
        r.total_bytes == total_bytes,
        r.used_bytes == if total_bytes >= available_bytes { total_bytes - available_bytes } else { 0 },
        r.available_bytes == available_bytes,
{
    DiskBudget {
        mount_point,
        filesystem,
        total_bytes,
        used_bytes: total_bytes.saturating_sub(available_bytes),
        available_bytes,
    }
}

/// NAT ports assumed when no total is configured.
pub const DEFAULT_NAT_PORT_TOTAL: u32 = 20;

/// The port budget: the configured total when it reads as a `u32`, else
/// the default; the number of reservations (as the store reports it, in
/// 32 bits); the listening sockets.
pub fn port_budget(configured_total: Option<&str>, reserved: usize, listening: u32) -> (r: PortBudget)
    ensures
        r.total == match configured_total {
            Some(t) => match parse_unsigned(t@, u32::MAX as nat) {
                Some(n) => n as u32,
                None => DEFAULT_NAT_PORT_TOTAL,
            },
            None => DEFAULT_NAT_PORT_TOTAL,
        },
        r.reserved == reserved as u32,
        r.listening == listening,
{
    let total = match configured_total {
        Some(t) => match parse_unsigned_exec(t, u32::MAX as u64) {
            Some(n) => n as u32,
            None => DEFAULT_NAT_PORT_TOTAL,
        },
        None => DEFAULT_NAT_PORT_TOTAL,
    };
    PortBudget { total, reserved: reserved as u32, listening }
}


/// Disks are listed root first, then by mount point.
pub open spec fn mount_lt(a: Seq<char>, b: Seq<char>) -> bool {
    let ra = a == "/"@;
    let rb = b == "/"@;
    (ra && !rb) || (ra == rb && seq_lt(a, b))
}

pub proof fn lemma_mount_lt_order(a: Seq<char>, b: Seq<char>, c: Seq<char>)
    ensures
        !mount_lt(a, a),
        mount_lt(a, b) && mount_lt(b, c) ==> mount_lt(a, c),
        a == b || mount_lt(a, b) || mount_lt(b, a),
        !(mount_lt(a, b) && mount_lt(b, a)),
{
    lemma_seq_lt_irreflexive(a);
    lemma_seq_lt_total(a, b);
    if seq_lt(a, b) && seq_lt(b, c) {
        lemma_seq_lt_transitive(a, b, c);
    }
}

fn mount_before(a: &str, b: &str) -> (r: bool)
    ensures
        r == mount_lt(a@, b@),
{
    let ra = eq_str(a, "/");
    let rb = eq_str(b, "/");
    (ra && !rb) || (ra == rb && str_lt(a, b))
}

/// Each disk comes strictly before the next.
pub open spec fn disks_ordered(s: Seq<DiskBudget>) -> bool {
    forall|i: int, j: int| 0 <= i < j < s.len() ==> mount_lt(#[trigger] s[i].mount_point@, #[trigger] s[j].mount_point@)
}

/// `d` is the first disk of `input` mounted where it is.
pub open spec fn first_at_mount(input: Seq<DiskBudget>, d: DiskBudget) -> bool {
    exists|k: int| 0 <= k < input.len() && #[trigger] input[k] == d
        && forall|k2: int| 0 <= k2 < k ==> (#[trigger] input[k2]).mount_point@ != d.mount_point@
}

/// Every disk of `out` is the first of `seen` at its mount point.
pub open spec fn all_first(out: Seq<DiskBudget>, seen: Seq<DiskBudget>) -> bool {
    forall|i: int| 0 <= i < out.len() ==> first_at_mount(seen, #[trigger] out[i])
}

/// Every mount point of `seen` has a disk in `out`.
pub open spec fn covers(out: Seq<DiskBudget>, seen: Seq<DiskBudget>) -> bool {
    forall|k: int| 0 <= k < seen.len() ==> exists|i: int| 0 <= i < out.len()
        && (#[trigger] out[i]).mount_point@ == (#[trigger] seen[k]).mount_point@
}

proof fn lemma_first_extends(out: Seq<DiskBudget>, seen: Seq<DiskBudget>, d: DiskBudget)
    requires
        all_first(out, seen),
    ensures
        all_first(out, seen.push(d)),
{
    let s1 = seen.push(d);
    assert forall|i: int| 0 <= i < out.len() implies first_at_mount(s1, #[trigger] out[i]) by {
        assert(first_at_mount(seen, out[i]));
        let k = choose|k: int| 0 <= k < seen.len() && #[trigger] seen[k] == out[i]
            && forall|k2: int| 0 <= k2 < k ==> (#[trigger] seen[k2]).mount_point@ != out[i].mount_point@;
        assert(s1[k] == out[i]);
        assert forall|k2: int| 0 <= k2 < k implies (#[trigger] s1[k2]).mount_point@ != out[i].mount_point@ by {
            assert(s1[k2] == seen[k2]);
        }
    }
}

proof fn lemma_insert_ordered(before: Seq<DiskBudget>, pos: int, d: DiskBudget)
    requires
        disks_ordered(before),
        0 <= pos <= before.len(),
        forall|j: int| 0 <= j < pos ==> mount_lt((#[trigger] before[j]).mount_point@, d.mount_point@),
        pos < before.len() ==> mount_lt(d.mount_point@, before[pos].mount_point@),
    ensures
        disks_ordered(before.insert(pos, d)),
{
    let o = before.insert(pos, d);
    assert forall|i: int, j: int| 0 <= i < j < o.len() implies mount_lt(#[trigger] o[i].mount_point@, #[trigger] o[j].mount_point@) by {
        if j < pos {
            assert(o[i] == before[i]);
            assert(o[j] == before[j]);
        } else if j == pos {
            assert(o[i] == before[i]);
        } else if i < pos {
            assert(o[j] == before[j - 1]);
            assert(o[i] == before[i]);
            lemma_mount_lt_order(before[i].mount_point@, d.mount_point@, before[pos].mount_point@);
            if j - 1 > pos {
                lemma_mount_lt_order(before[i].mount_point@, before[pos].mount_point@, before[j - 1].mount_point@);
            }
        } else if i == pos {
            assert(o[j] == before[j - 1]);
            if j - 1 > pos {
                lemma_mount_lt_order(d.mount_point@, before[pos].mount_point@, before[j - 1].mount_point@);
            }
        } else {
            assert(o[i] == before[i - 1]);
            assert(o[j] == before[j - 1]);
        }
    }
}

proof fn lemma_new_first(before: Seq<DiskBudget>, seen: Seq<DiskBudget>, d: DiskBudget, pos: int)
    requires
        disks_ordered(before),
        covers(before, seen),
        0 <= pos <= before.len(),
        forall|j: int| 0 <= j < pos ==> mount_lt((#[trigger] before[j]).mount_point@, d.mount_point@),
        pos < before.len() ==> before[pos].mount_point@ != d.mount_point@ && !mount_lt(before[pos].mount_point@, d.mount_point@),
    ensures
        first_at_mount(seen.push(d), d),
{
    let s1 = seen.push(d);
    let n = seen.len() as int;
    assert forall|k2: int| 0 <= k2 < n implies (#[trigger] s1[k2]).mount_point@ != d.mount_point@ by {
        assert(s1[k2] == seen[k2]);
        if seen[k2].mount_point@ == d.mount_point@ {
            let i = choose|i: int| 0 <= i < before.len()
                && (#[trigger] before[i]).mount_point@ == (#[trigger] seen[k2]).mount_point@;
            lemma_mount_lt_order(before[i].mount_point@, d.mount_point@, d.mount_point@);
            if i > pos {
                assert(mount_lt(before[pos].mount_point@, before[i].mount_point@));
            }
        }
    }
    assert(s1[n] == d);
}

proof fn lemma_insert_keeps(before: Seq<DiskBudget>, seen: Seq<DiskBudget>, d: DiskBudget, pos: int)
    requires
        0 <= pos <= before.len(),
        all_first(before, seen.push(d)),
        covers(before, seen),
        first_at_mount(seen.push(d), d),
    ensures
        all_first(before.insert(pos, d), seen.push(d)),
        covers(before.insert(pos, d), seen.push(d)),
{
    let o = before.insert(pos, d);
    let s1 = seen.push(d);
    assert forall|i: int| 0 <= i < o.len() implies first_at_mount(s1, #[trigger] o[i]) by {
        if i < pos {
            assert(o[i] == before[i]);
        } else if i > pos {
            assert(o[i] == before[i - 1]);
        } else {
            assert(o[i] == d);
        }
    }
    assert forall|k: int| 0 <= k < s1.len() implies exists|i: int| 0 <= i < o.len()
        && (#[trigger] o[i]).mount_point@ == (#[trigger] s1[k]).mount_point@ by {
        if k == seen.len() {
            assert(o[pos] == d);
        } else {
            assert(s1[k] == seen[k]);
            let i = choose|i: int| 0 <= i < before.len()
                && (#[trigger] before[i]).mount_point@ == (#[trigger] seen[k]).mount_point@;
            if i < pos {
                assert(o[i] == before[i]);
            } else {
                assert(o[i + 1] == before[i]);
            }
        }
    }
}

proof fn lemma_skip_keeps(before: Seq<DiskBudget>, seen: Seq<DiskBudget>, d: DiskBudget, pos: int)
    requires
        0 <= pos < before.len(),
        before[pos].mount_point@ == d.mount_point@,
        covers(before, seen),
    ensures
        covers(before, seen.push(d)),
{
    let s1 = seen.push(d);
    assert forall|k: int| 0 <= k < s1.len() implies exists|i: int| 0 <= i < before.len()
        && (#[trigger] before[i]).mount_point@ == (#[trigger] s1[k]).mount_point@ by {
        if k == seen.len() {
            assert(before[pos].mount_point@ == s1[k].mount_point@);
        } else {
            assert(s1[k] == seen[k]);
        }
    }
}

fn place_disk(out: &mut Vec<DiskBudget>, d: DiskBudget, Ghost(seen): Ghost<Seq<DiskBudget>>)
    requires
        disks_ordered(old(out)@),
        all_first(old(out)@, seen),
        covers(old(out)@, seen),
    ensures
        disks_ordered(final(out)@),
        all_first(final(out)@, seen.push(d)),
        covers(final(out)@, seen.push(d)),
{
    let mut pos: usize = 0;
    while pos < out.len() && mount_before(out[pos].mount_point.as_str(), d.mount_point.as_str())
        invariant
            pos <= out@.len(),
            forall|j: int| 0 <= j < pos ==> mount_lt((#[trigger] out@[j]).mount_point@, d.mount_point@),
        decreases out@.len() - pos,
    {
        pos += 1;
    }
    let ghost before = out@;
    proof {
        lemma_first_extends(before, seen, d);
    }
    if pos < out.len() && eq_str(out[pos].mount_point.as_str(), d.mount_point.as_str()) {
        proof {
            lemma_skip_keeps(before, seen, d, pos as int);
        }
    } else {
        proof {
            if pos < before.len() {
                lemma_mount_lt_order(before[pos as int].mount_point@, d.mount_point@, d.mount_point@);
            }
            lemma_new_first(before, seen, d, pos as int);
            lemma_insert_ordered(before, pos as int, d);
            lemma_insert_keeps(before, seen, d, pos as int);
        }
        out.insert(pos, d);
        assert(out@ == before.insert(pos as int, d));
    }
}

/// The disks as the budget lists them: one per mount point (the first
/// listed there), the root file system first, the rest by mount point.
pub fn order_disks(disks: Vec<DiskBudget>) -> (r: Vec<DiskBudget>)
    ensures
        disks_ordered(r@),
        all_first(r@, disks@),
        covers(r@, disks@),
{
    let ghost input = disks@;
    let mut rest = disks;
    let mut out: Vec<DiskBudget> = Vec::new();
    let ghost mut n: int = 0;
    assert(input.skip(0) == input);
    assert(input.take(0) == Seq::<DiskBudget>::empty());
    while rest.len() > 0
        invariant
            0 <= n <= input.len(),
            rest@ == input.skip(n),
            disks_ordered(out@),
            all_first(out@, input.take(n)),
            covers(out@, input.take(n)),
        decreases rest.len(),
    {
        let d = rest.remove(0);
        assert(d == input[n]);
        assert(input.skip(n).remove(0) == input.skip(n + 1));
        assert(input.take(n + 1) == input.take(n).push(d));
        place_disk(&mut out, d, Ghost(input.take(n)));
        proof {
            n = n + 1;
        }
    }
    assert(input.take(n) == input);
    out
}


/// A port reserved for an owner.
#[derive(Clone, Debug)]
pub struct StoredReservation {
    pub port: u32,
    pub owner: String,
    pub description: String,
    pub protocol: String,
    pub reserved_at_seconds: u64,
}

pub open spec fn with_port(p: u32) -> spec_fn(StoredReservation) -> bool {
    |r: StoredReservation| r.port == p
}

pub open spec fn other_port(p: u32) -> spec_fn(StoredReservation) -> bool {
    |r: StoredReservation| r.port != p
}

/// The reservations are in port order.
pub open spec fn ports_sorted(s: Seq<StoredReservation>) -> bool {
    forall|i: int, j: int| 0 <= i <= j < s.len() ==> (#[trigger] s[i]).port <= (#[trigger] s[j]).port
}

/// `out` is `input` sorted by port, the reservations of one port keeping
/// their order (a stable sort by port).
pub open spec fn sorted_by_port(out: Seq<StoredReservation>, input: Seq<StoredReservation>) -> bool {
    &&& ports_sorted(out)
    &&& forall|p: u32| #[trigger] out.filter(with_port(p)) == input.filter(with_port(p))
}

/// The reserved ports.
pub open spec fn reserved_ports(s: Seq<StoredReservation>) -> Set<u32> {
    Set::new(|p: u32| exists|i: int| 0 <= i < s.len() && (#[trigger] s[i]).port == p)
}

pub open spec fn is_reserved(s: Seq<StoredReservation>, p: u32) -> bool {
    exists|i: int| 0 <= i < s.len() && (#[trigger] s[i]).port == p
}

proof fn lemma_filter_empty_when_absent(s: Seq<StoredReservation>, p: u32)
    requires
        forall|i: int| 0 <= i < s.len() ==> (#[trigger] s[i]).port != p,
    ensures
        s.filter(with_port(p)) == Seq::<StoredReservation>::empty(),
{
    assert(s.all(|x: StoredReservation| !with_port(p)(x)));
    s.lemma_all_neg_filter_empty(with_port(p));
}

proof fn lemma_reserved_iff_filter(s: Seq<StoredReservation>, p: u32)
    ensures
        is_reserved(s, p) <==> s.filter(with_port(p)).len() > 0,
{
    if is_reserved(s, p) {
        let i = choose|i: int| 0 <= i < s.len() && (#[trigger] s[i]).port == p;
        s.filter_lemma(with_port(p));
        assert(s.filter(with_port(p)).contains(s[i]));
    } else {
        lemma_filter_empty_when_absent(s, p);
    }
}

fn insert_by_port(out: &mut Vec<StoredReservation>, x: StoredReservation, Ghost(seen): Ghost<Seq<StoredReservation>>)
    requires
        sorted_by_port(old(out)@, seen),
    ensures
        sorted_by_port(final(out)@, seen.push(x)),
{
    let mut pos: usize = 0;
    while pos < out.len() && out[pos].port <= x.port
        invariant
            pos <= out@.len(),
            forall|j: int| 0 <= j < pos ==> (#[trigger] out@[j]).port <= x.port,
        decreases out@.len() - pos,
    {
        pos += 1;
    }
    let ghost before = out@;
    proof {
        let t = before.take(pos as int);
        let k = before.skip(pos as int);
        assert(before == t + k);
        assert forall|j: int| 0 <= j < k.len() implies (#[trigger] k[j]).port > x.port by {
            assert(k[j] == before[pos + j]);
            assert(before[pos as int].port <= before[pos + j].port);
        }
        assert(before.insert(pos as int, x) == t + seq![x] + k);
        assert forall|p: u32| #[trigger] (t + seq![x] + k).filter(with_port(p)) == seen.push(x).filter(with_port(p)) by {
            Seq::filter_distributes_over_add(t + seq![x], k, with_port(p));
            Seq::filter_distributes_over_add(t, seq![x], with_port(p));
            Seq::filter_distributes_over_add(t, k, with_port(p));
            seen.lemma_filter_push(x, with_port(p));
            assert(seq![x].filter(with_port(p)) == if x.port == p { seq![x] } else { Seq::<StoredReservation>::empty() }) by {
                Seq::<StoredReservation>::empty().lemma_filter_prepend(x, with_port(p));
                assert(seq![x] == seq![x] + Seq::<StoredReservation>::empty());
            }
            if x.port == p {
                lemma_filter_empty_when_absent(k, p);
            }
        }
        let o = t + seq![x] + k;
        assert forall|i: int, j: int| 0 <= i <= j < o.len() implies (#[trigger] o[i]).port <= (#[trigger] o[j]).port by {
            if i < pos {
                assert(o[i] == before[i]);
                if j < pos {
                    assert(o[j] == before[j]);
                } else if j > pos {
                    assert(o[j] == k[j - pos - 1]);
                }
            } else if i == pos {
                if j > pos {
                    assert(o[j] == k[j - pos - 1]);
                }
            } else {
                assert(o[i] == before[i - 1]);
                assert(o[j] == before[j - 1]);
            }
        }
    }
    out.insert(pos, x);
}

/// `items` sorted by port, stably.
pub fn sort_by_port(items: Vec<StoredReservation>) -> (r: Vec<StoredReservation>)
    ensures
        sorted_by_port(r@, items@),
{
    let ghost input = items@;
    let mut rest = items;
    let mut out: Vec<StoredReservation> = Vec::new();
    let ghost mut n: int = 0;
    assert(input.skip(0) == input);
    assert(input.take(0) == Seq::<StoredReservation>::empty());
    while rest.len() > 0
        invariant
            0 <= n <= input.len(),
            rest@ == input.skip(n),
            sorted_by_port(out@, input.take(n)),
        decreases rest.len(),
    {
        let x = rest.remove(0);
        assert(x == input[n]);
        assert(input.skip(n).remove(0) == input.skip(n + 1));
        assert(input.take(n + 1) == input.take(n).push(x));
        insert_by_port(&mut out, x, Ghost(input.take(n)));
        proof {
            n = n + 1;
        }
    }
    assert(input.take(n) == input);
    out
}

fn any_port(items: &Vec<StoredReservation>, port: u32) -> (r: bool)
    ensures
        r == is_reserved(items@, port),
{
    let mut i: usize = 0;
    while i < items.len()
        invariant
            i <= items@.len(),
            forall|j: int| 0 <= j < i ==> (#[trigger] items@[j]).port != port,
        decreases items@.len() - i,
    {
        if items[i].port == port {
            return true;
        }
        i += 1;
    }
    false
}

/// The reservation made by [`reserve_port`]: the protocol defaults to TCP.
pub open spec fn new_reservation(r: StoredReservation, port: u32, owner: Seq<char>, description: Seq<char>, protocol: Seq<char>, now: u64) -> bool {
    &&& r.port == port
    &&& r.owner@ == owner
    &&& r.description@ == description
    &&& r.protocol@ == (if protocol.len() == 0 { "tcp"@ } else { protocol })
    &&& r.reserved_at_seconds == now
}

/// Reserves `port` for `owner` at `now`. A port outside 1..=65535, a blank
/// owner and a port already reserved are refused, in that order, leaving
/// the reservations as they were; otherwise the new reservation joins them
/// and they are sorted by port.
pub fn reserve_port(items: &mut Vec<StoredReservation>, port: u32, owner: &str, description: &str, protocol: &str, now: u64) -> (r: Result<StoredReservation, Status>)
    ensures
        (port == 0 || port > 65535) ==> (r matches Err(e) && e.code == Code::InvalidArgument && e.message@ == "port must be 1-65535"@),
        !(port == 0 || port > 65535) && all_ws(owner@) ==> (r matches Err(e) && e.code == Code::InvalidArgument
            && e.message@ == "owner cannot be empty"@),
        !(port == 0 || port > 65535) && !all_ws(owner@) && is_reserved(old(items)@, port) ==> (r matches Err(e)
            && e.code == Code::AlreadyExists && e.message@ == "port "@ + dec(port as nat) + " already reserved"@),
        r is Err ==> final(items)@ == old(items)@,
        !(port == 0 || port > 65535) && !all_ws(owner@) && !is_reserved(old(items)@, port) ==> (r matches Ok(e)
            && new_reservation(e, port, owner@, description@, protocol@, now)
            && exists|stored: StoredReservation| new_reservation(stored, port, owner@, description@, protocol@, now)
                && sorted_by_port(final(items)@, #[trigger] old(items)@.push(stored))),
{
    if port == 0 || port > 65535 {
        return Err(Status::invalid_argument("port must be 1-65535"));
    }
    if is_blank(owner) {
        return Err(Status::invalid_argument("owner cannot be empty"));
    }
    if any_port(items, port) {
        let mut message = "port ".to_string();
        push_u64(&mut message, port as u64);
        message.append(" already reserved");
        return Err(Status::new(Code::AlreadyExists, message.as_str()));
    }
    let protocol = if chars_of(protocol).len() == 0 {
        "tcp".to_string()
    } else {
        protocol.to_string()
    };
    proof {
        reveal_strlit("tcp");
    }
    let entry = StoredReservation {
        port,
        owner: owner.to_string(),
        description: description.to_string(),
        protocol,
        reserved_at_seconds: now,
    };
    let result = StoredReservation {
        port,
        owner: owner.to_string(),
        description: description.to_string(),
        protocol: entry.protocol.clone(),
        reserved_at_seconds: now,
    };
    let mut all: Vec<StoredReservation> = Vec::new();
    std::mem::swap(&mut all, items);
    let ghost stored = entry;
    all.push(entry);
    *items = sort_by_port(all);
    assert(new_reservation(stored, port, owner@, description@, protocol@, now));
    Ok(result)
}

/// Releases `port`: its reservations are removed; when it had none, the
/// release is refused as not found.
pub fn release_port(items: &mut Vec<StoredReservation>, port: u32) -> (r: Result<(), Status>)
    ensures
        final(items)@ == old(items)@.filter(other_port(port)),
        is_reserved(old(items)@, port) ==> r is Ok,
        !is_reserved(old(items)@, port) ==> (r matches Err(e) && e.code == Code::NotFound
            && e.message@ == "port "@ + dec(port as nat) + " not reserved"@),
{
    let ghost orig = items@;
    let mut rest: Vec<StoredReservation> = Vec::new();
    std::mem::swap(&mut rest, items);
    let mut kept: Vec<StoredReservation> = Vec::new();
    let mut found = false;
    let ghost mut i: int = 0;
    assert(orig.skip(0) == orig);
    assert(orig.take(0) == Seq::<StoredReservation>::empty());
    while rest.len() > 0
        invariant
            0 <= i <= orig.len(),
            rest@ == orig.skip(i),
            kept@ == orig.take(i).filter(other_port(port)),
            found == is_reserved(orig.take(i), port),
        decreases rest.len(),
    {
        let x = rest.remove(0);
        proof {
            assert(x == orig[i]);
            assert(orig.take(i + 1) == orig.take(i).push(x));
            orig.take(i).lemma_filter_push(x, other_port(port));
            assert(orig.skip(i + 1) == orig.skip(i).remove(0));
            if is_reserved(orig.take(i), port) {
                let j = choose|j: int| 0 <= j < orig.take(i).len() && (#[trigger] orig.take(i)[j]).port == port;
                assert(orig.take(i + 1)[j] == orig.take(i)[j]);
            }
            if x.port == port {
                assert(orig.take(i + 1)[i] == x);
            }
            if is_reserved(orig.take(i + 1), port) && x.port != port {
                let j = choose|j: int| 0 <= j < orig.take(i + 1).len() && (#[trigger] orig.take(i + 1)[j]).port == port;
                assert(orig.take(i)[j] == orig.take(i + 1)[j]);
            }
        }
        if x.port == port {
            found = true;
        } else {
            kept.push(x);
        }
        proof {
            i = i + 1;
        }
    }
    assert(orig.take(i) == orig);
    *items = kept;
    if !found {
        let mut message = "port ".to_string();
        push_u64(&mut message, port as u64);
        message.append(" not reserved");
        return Err(Status::new(Code::NotFound, message.as_str()));
    }
    Ok(())
}

/// What the panel reserves for its own listening port.
pub open spec fn panel_reservation(r: StoredReservation, port: u16, now: u64) -> bool {
    &&& r.port == port as u32
    &&& r.owner@ == "panel"@
    &&& r.description@ == "RustPanel 面板自身监听端口"@
    &&& r.protocol@ == "tcp"@
    &&& r.reserved_at_seconds == now
}

/// Reserves the panel's own port at start-up unless it is 0 or already
/// reserved; returns whether the reservations changed.
pub fn seed_panel_port(items: &mut Vec<StoredReservation>, port: u16, now: u64) -> (changed: bool)
    ensures
        (port == 0 || is_reserved(old(items)@, port as u32)) ==> !changed && final(items)@ == old(items)@,
        !(port == 0 || is_reserved(old(items)@, port as u32)) ==> changed && exists|e: StoredReservation|
            panel_reservation(e, port, now) && sorted_by_port(final(items)@, #[trigger] old(items)@.push(e)),
{
    if port == 0 {
        return false;
    }
    if any_port(items, port as u32) {
        return false;
    }
    let entry = StoredReservation {
        port: port as u32,
        owner: "panel".to_string(),
        description: "RustPanel 面板自身监听端口".to_string(),
        protocol: "tcp".to_string(),
        reserved_at_seconds: now,
    };
    let ghost e = entry;
    let mut all: Vec<StoredReservation> = Vec::new();
    std::mem::swap(&mut all, items);
    all.push(entry);
    *items = sort_by_port(all);
    assert(panel_reservation(e, port, now));
    true
}


proof fn lemma_filter_other_then_with(s: Seq<StoredReservation>, p: u32, q: u32)
    ensures
        s.filter(other_port(p)).filter(with_port(q)) == if q == p {
            Seq::<StoredReservation>::empty()
        } else {
            s.filter(with_port(q))
        },
    decreases s.len(),
{
    if s.len() == 0 {
        assert(s.filter(other_port(p)) =~= Seq::<StoredReservation>::empty()) by {
            s.lemma_filter_len(other_port(p));
        }
        assert(Seq::<StoredReservation>::empty().filter(with_port(q)).len() == 0) by {
            Seq::<StoredReservation>::empty().lemma_filter_len(with_port(q));
        }
        assert(s.filter(with_port(q)).len() == 0) by {
            s.lemma_filter_len(with_port(q));
        }
    } else {
        let init = s.drop_last();
        let x = s.last();
        assert(s == init.push(x));
        lemma_filter_other_then_with(init, p, q);
        init.lemma_filter_push(x, other_port(p));
        init.lemma_filter_push(x, with_port(q));
        if x.port != p {
            init.filter(other_port(p)).lemma_filter_push(x, with_port(q));
        }
    }
}

proof fn lemma_filter_first(s: Seq<StoredReservation>, q: u32)
    requires
        s.len() > 0,
    ensures
        s.filter(with_port(q)) == (if s[0].port == q { seq![s[0]] } else { Seq::<StoredReservation>::empty() })
            + s.drop_first().filter(with_port(q)),
{
    assert(s == seq![s[0]] + s.drop_first());
    s.drop_first().lemma_filter_prepend(s[0], with_port(q));
}

proof fn lemma_sorted_by_filters(s: Seq<StoredReservation>, t: Seq<StoredReservation>)
    requires
        ports_sorted(s),
        ports_sorted(t),
        forall|q: u32| #[trigger] s.filter(with_port(q)) == t.filter(with_port(q)),
    ensures
        s == t,
    decreases s.len() + t.len(),
{
    if s.len() == 0 && t.len() == 0 {
        assert(s =~= t);
    } else if s.len() == 0 {
        lemma_filter_first(t, t[0].port);
        assert(s.filter(with_port(t[0].port)).len() == 0) by {
            s.lemma_filter_len(with_port(t[0].port));
        }
    } else if t.len() == 0 {
        lemma_filter_first(s, s[0].port);
        assert(t.filter(with_port(s[0].port)).len() == 0) by {
            t.lemma_filter_len(with_port(s[0].port));
        }
    } else {
        let m = s[0].port;
        let n = t[0].port;
        lemma_filter_first(s, m);
        lemma_filter_first(t, m);
        lemma_filter_first(s, n);
        lemma_filter_first(t, n);
        // Both start with their smallest port, and the ports agree.
        if n != m {
            lemma_reserved_iff_filter(t, m);
            lemma_reserved_iff_filter(s, n);
            let i = choose|i: int| 0 <= i < t.len() && (#[trigger] t[i]).port == m;
            let j = choose|j: int| 0 <= j < s.len() && (#[trigger] s[j]).port == n;
            assert(t[0].port <= t[i].port);
            assert(s[0].port <= s[j].port);
        }
        assert(n == m);
        assert(s.filter(with_port(m))[0] == s[0]);
        assert(t.filter(with_port(m))[0] == t[0]);
        let s1 = s.drop_first();
        let t1 = t.drop_first();
        assert forall|q: u32| #[trigger] s1.filter(with_port(q)) == t1.filter(with_port(q)) by {
            lemma_filter_first(s, q);
            lemma_filter_first(t, q);
            assert(s.filter(with_port(q)) == t.filter(with_port(q)));
            if q == m {
                assert(s1.filter(with_port(q)) =~= s.filter(with_port(q)).drop_first());
                assert(t1.filter(with_port(q)) =~= t.filter(with_port(q)).drop_first());
            } else {
                assert(s1.filter(with_port(q)) =~= s.filter(with_port(q)));
                assert(t1.filter(with_port(q)) =~= t.filter(with_port(q)));
            }
        }
        assert forall|i: int, j: int| 0 <= i <= j < s1.len() implies (#[trigger] s1[i]).port <= (#[trigger] s1[j]).port by {
            assert(s1[i] == s[i + 1]);
            assert(s1[j] == s[j + 1]);
        }
        assert forall|i: int, j: int| 0 <= i <= j < t1.len() implies (#[trigger] t1[i]).port <= (#[trigger] t1[j]).port by {
            assert(t1[i] == t[i + 1]);
            assert(t1[j] == t[j + 1]);
        }
        lemma_sorted_by_filters(s1, t1);
        assert(s == seq![s[0]] + s1);
        assert(t == seq![t[0]] + t1);
    }
}

proof fn lemma_filter_sorted(s: Seq<StoredReservation>, pred: spec_fn(StoredReservation) -> bool)
    requires
        ports_sorted(s),
    ensures
        ports_sorted(s.filter(pred)),
    decreases s.len(),
{
    if s.len() == 0 {
        s.lemma_filter_len(pred);
    } else {
        let init = s.drop_last();
        let x = s.last();
        assert(s == init.push(x));
        assert forall|i: int, j: int| 0 <= i <= j < init.len() implies (#[trigger] init[i]).port <= (#[trigger] init[j]).port by {
            assert(init[i] == s[i]);
            assert(init[j] == s[j]);
        }
        lemma_filter_sorted(init, pred);
        init.lemma_filter_push(x, pred);
        if pred(x) {
            let f = init.filter(pred);
            let g = f.push(x);
            assert forall|i: int, j: int| 0 <= i <= j < g.len() implies (#[trigger] g[i]).port <= (#[trigger] g[j]).port by {
                if j == f.len() {
                    if i < f.len() {
                        assert(f.contains(f[i]));
                        init.lemma_filter_contains_rev(pred, f[i]);
                        let k = choose|k: int| 0 <= k < init.len() && init[k] == f[i];
                        assert(s[k] == init[k]);
                        assert(s[k].port <= s[s.len() - 1].port);
                    }
                } else {
                    assert(g[i] == f[i]);
                    assert(g[j] == f[j]);
                }
            }
        }
    }
}

/// Reserving adds exactly the reserved port to the reserved ports.
pub proof fn law_reserve_adds_port(old_items: Seq<StoredReservation>, stored: StoredReservation, new_items: Seq<StoredReservation>)
    requires
        sorted_by_port(new_items, old_items.push(stored)),
    ensures
        reserved_ports(new_items) == reserved_ports(old_items).insert(stored.port),
{
    assert forall|q: u32| #[trigger] reserved_ports(new_items).contains(q) == reserved_ports(old_items).insert(stored.port).contains(q) by {
        lemma_reserved_iff_filter(new_items, q);
        lemma_reserved_iff_filter(old_items.push(stored), q);
        assert(new_items.filter(with_port(q)) == old_items.push(stored).filter(with_port(q)));
        if is_reserved(old_items.push(stored), q) {
            let i = choose|i: int| 0 <= i < old_items.push(stored).len() && (#[trigger] old_items.push(stored)[i]).port == q;
            if i < old_items.len() {
                assert(old_items[i] == old_items.push(stored)[i]);
            }
        }
        if is_reserved(old_items, q) {
            let i = choose|i: int| 0 <= i < old_items.len() && (#[trigger] old_items[i]).port == q;
            assert(old_items.push(stored)[i] == old_items[i]);
        }
        if q == stored.port {
            assert(old_items.push(stored)[old_items.len() as int] == stored);
        }
    }
    assert(reserved_ports(new_items) =~= reserved_ports(old_items).insert(stored.port));
}

/// Releasing removes exactly the released port from the reserved ports.
pub proof fn law_release_removes_port(old_items: Seq<StoredReservation>, port: u32)
    ensures
        reserved_ports(old_items.filter(other_port(port))) == reserved_ports(old_items).remove(port),
{
    let kept = old_items.filter(other_port(port));
    assert forall|q: u32| #[trigger] reserved_ports(kept).contains(q) == reserved_ports(old_items).remove(port).contains(q) by {
        lemma_filter_other_then_with(old_items, port, q);
        lemma_reserved_iff_filter(kept, q);
        lemma_reserved_iff_filter(old_items, q);
    }
    assert(reserved_ports(kept) =~= reserved_ports(old_items).remove(port));
}

/// Once the panel's port is seeded it is reserved, so seeding it again
/// changes nothing (see [`seed_panel_port`]).
pub proof fn law_seeded_port_stays_reserved(old_items: Seq<StoredReservation>, entry: StoredReservation, new_items: Seq<StoredReservation>, port: u16, now: u64)
    requires
        panel_reservation(entry, port, now),
        sorted_by_port(new_items, old_items.push(entry)),
    ensures
        is_reserved(new_items, port as u32),
{
    law_reserve_adds_port(old_items, entry, new_items);
    assert(reserved_ports(old_items).insert(entry.port).contains(port as u32));
    assert(reserved_ports(new_items).contains(port as u32));
}

/// Reserving a free port and then releasing it leaves reservations that
/// were in port order exactly as they were.
pub proof fn law_reserve_then_release_restores(old_items: Seq<StoredReservation>, stored: StoredReservation, new_items: Seq<StoredReservation>)
    requires
        ports_sorted(old_items),
        !is_reserved(old_items, stored.port),
        sorted_by_port(new_items, old_items.push(stored)),
    ensures
        new_items.filter(other_port(stored.port)) == old_items,
{
    let p = stored.port;
    let back = new_items.filter(other_port(p));
    assert forall|q: u32| #[trigger] back.filter(with_port(q)) == old_items.filter(with_port(q)) by {
        lemma_filter_other_then_with(new_items, p, q);
        old_items.lemma_filter_push(stored, with_port(q));
        if q == p {
            lemma_reserved_iff_filter(old_items, p);
            assert(old_items.filter(with_port(q)) =~= Seq::<StoredReservation>::empty());
        }
    }
    lemma_filter_sorted(new_items, other_port(p));
    lemma_sorted_by_filters(back, old_items);
}


/// The mask of segment `i` (of eight 16-bit segments) under a prefix of
/// `prefix` bits: whole, empty, or its top `prefix - 16 i` bits.
pub open spec fn segment_mask(prefix: u32, i: u32) -> u16 {
    if prefix >= 16 * (i + 1) {
        0xffff
    } else if prefix <= 16 * i {
        0
    } else {
        (0xffff_0000u32 >> ((prefix - 16 * i) as u32)) as u16
    }
}

fn masked_segment(seg: u16, prefix: u32, i: u32) -> (r: u16)
    requires
        prefix <= 128,
        i < 8,
    ensures
        r == seg & segment_mask(prefix, i),
{
    let mask: u16 = if prefix >= 16 * (i + 1) {
        0xffff
    } else if prefix <= 16 * i {
        0
    } else {
        (0xffff_0000u32 >> (prefix - 16 * i)) as u16
    };
    seg & mask
}

/// The address of the network that an address lies in under a prefix
/// length (taken as 128 when longer): its bits past the prefix cleared.
pub fn truncate_segments(segs: [u16; 8], prefix_length: u32) -> (r: [u16; 8])
    ensures
        forall|i: int| 0 <= i < 8 ==> #[trigger] r@[i] == segs@[i] & segment_mask(
            if prefix_length > 128 { 128 } else { prefix_length },
            i as u32,
        ),
{
    let p: u32 = if prefix_length > 128 { 128 } else { prefix_length };
    let r = [
        masked_segment(segs[0], p, 0),
        masked_segment(segs[1], p, 1),
        masked_segment(segs[2], p, 2),
        masked_segment(segs[3], p, 3),
        masked_segment(segs[4], p, 4),
        masked_segment(segs[5], p, 5),
        masked_segment(segs[6], p, 6),
        masked_segment(segs[7], p, 7),
    ];
    assert forall|i: int| 0 <= i < 8 implies #[trigger] r@[i] == segs@[i] & segment_mask(p, i as u32) by {
        if i == 0 {} else if i == 1 {} else if i == 2 {} else if i == 3 {} else if i == 4 {} else if i == 5 {} else if i == 6 {} else {}
    }
    r
}

/// The value of a hexadecimal digit, or -1.
pub open spec fn hex_digit_value(c: char) -> int {
    if 48 <= (c as u32) <= 57 {
        (c as u32) - 48
    } else if 97 <= (c as u32) <= 102 {
        (c as u32) - 87
    } else if 65 <= (c as u32) <= 70 {
        (c as u32) - 55
    } else {
        -1
    }
}

pub open spec fn all_hex(s: Seq<char>) -> bool {
    forall|i: int| 0 <= i < s.len() ==> hex_digit_value(#[trigger] s[i]) >= 0
}

pub open spec fn hex_value(s: Seq<char>) -> nat
    decreases s.len(),
{
    if s.len() == 0 {
        0
    } else {
        hex_value(s.drop_last()) * 16 + hex_digit_value(s.last()) as nat
    }
}

/// What `uN::from_str_radix(s, 16)` gives for a type whose largest value
/// is `max`: an optional `+`, then hexadecimal digits only.
pub open spec fn parse_hex(s: Seq<char>, max: nat) -> Option<nat> {
    let body = unsigned_body(s);
    if body.len() > 0 && all_hex(body) && hex_value(body) <= max {
        Some(hex_value(body))
    } else {
        None
    }
}

proof fn lemma_hex_value_prefix(s: Seq<char>, k: int)
    requires
        0 <= k <= s.len(),
        all_hex(s),
    ensures
        hex_value(s.take(k)) <= hex_value(s),
    decreases s.len() - k,
{
    if k < s.len() {
        let d = s.drop_last();
        assert(all_hex(d)) by {
            assert forall|i: int| 0 <= i < d.len() implies hex_digit_value(#[trigger] d[i]) >= 0 by {
                assert(d[i] == s[i]);
            }
        }
        lemma_hex_value_prefix(d, k);
        assert(d.take(k) == s.take(k));
        assert(hex_digit_value(s.last()) >= 0);
    } else {
        assert(s.take(k) == s);
    }
}

fn hex_digit_exec(c: char) -> (r: Option<u64>)
    ensures
        hex_digit_value(c) >= 0 ==> r == Some(hex_digit_value(c) as u64),
        hex_digit_value(c) < 0 ==> r is None,
{
    let u = c as u32;
    if 48 <= u && u <= 57 {
        Some((u - 48) as u64)
    } else if 97 <= u && u <= 102 {
        Some((u - 87) as u64)
    } else if 65 <= u && u <= 70 {
        Some((u - 55) as u64)
    } else {
        None
    }
}

/// Parses a hexadecimal number as `uN::from_str_radix(s, 16)` does.
pub fn parse_hex_exec(s: &str, max: u64) -> (r: Option<u64>)
    ensures
        match parse_hex(s@, max as nat) {
            Some(n) => r == Some(n as u64),
            None => r is None,
        },
{
    let v = chars_of(s);
    let mut i: usize = 0;
    if v.len() > 0 && v[0] == '+' {
        i = 1;
    }
    let ghost body = unsigned_body(s@);
    assert(body == v@.skip(i as int));
    if i >= v.len() {
        return None;
    }
    let start = i;
    let mut acc: u64 = 0;
    while i < v.len()
        invariant
            start <= i <= v.len(),
            start < v.len(),
            v@ == s@,
            body == unsigned_body(s@),
            body == v@.skip(start as int),
            all_hex(body.take(i - start)),
            acc as nat == hex_value(body.take(i - start)),
            acc <= max,
        decreases v.len() - i,
    {
        let ghost pre = body.take(i - start);
        let ghost next = body.take(i - start + 1);
        assert(next.drop_last() == pre);
        assert(next.last() == v@[i as int]);
        assert(body[i - start] == v@[i as int]);
        let d = match hex_digit_exec(v[i]) {
            Some(d) => d,
            None => {
                assert(!all_hex(body)) by {
                    assert(hex_digit_value(body[i - start]) < 0);
                }
                return None;
            },
        };
        let wide = (acc as u128) * 16 + (d as u128);
        assert(hex_value(next) == hex_value(pre) * 16 + d);
        assert(all_hex(next)) by {
            assert forall|k: int| 0 <= k < next.len() implies hex_digit_value(#[trigger] next[k]) >= 0 by {
                if k < next.len() - 1 {
                    assert(next[k] == pre[k]);
                }
            }
        }
        if wide > max as u128 {
            proof {
                if all_hex(body) {
                    lemma_hex_value_prefix(body, i - start + 1);
                }
            }
            return None;
        }
        acc = wide as u64;
        i += 1;
    }
    assert(body.take(i - start) == body);
    Some(acc)
}

/// The interface, address text and prefix length that a line of
/// `ip -6 -o addr show` gives: its second field without trailing colons,
/// and its fourth field split at the first `/`, whose right part must read
/// as a `u32`.
pub open spec fn ip_addr_line_spec(line: Seq<char>) -> Option<(Seq<char>, Seq<char>, nat)> {
    let w = words(line);
    let iface = if w.len() > 1 { trim_end_char(w[1], ':') } else { Seq::empty() };
    let cidr = if w.len() > 3 { w[3] } else { Seq::empty() };
    let k = index_of(cidr, '/');
    if k >= cidr.len() {
        None
    } else {
        match parse_unsigned(cidr.skip(k as int + 1), u32::MAX as nat) {
            Some(p) => Some((iface, cidr.take(k as int), p)),
            None => None,
        }
    }
}

pub fn ip_addr_line(line: &str) -> (r: Option<(String, String, u32)>)
    ensures
        match ip_addr_line_spec(line@) {
            Some((iface, addr, p)) => r matches Some(t) && t.0@ == iface && t.1@ == addr && t.2 == p,
            None => r is None,
        },
{
    let w = split_words(line);
    let iface = if w.len() > 1 {
        assert(views(w@)[1] == w@[1]@);
        trim_end_matching(w[1].as_str(), ':')
    } else {
        String::new()
    };
    if w.len() <= 3 {
        proof {
            lemma_index_of(Seq::<char>::empty(), '/');
        }
        return None;
    }
    assert(views(w@)[3] == w@[3]@);
    let cidr = chars_of(w[3].as_str());
    proof {
        lemma_index_of(cidr@, '/');
    }
    let k = find_char_from(&cidr, '/', 0);
    assert(cidr@.skip(0) == cidr@);
    if k >= cidr.len() {
        return None;
    }
    let prefix = string_of(&cidr, k + 1, cidr.len());
    assert(prefix@ == cidr@.skip(k + 1));
    match parse_unsigned_exec(prefix.as_str(), u32::MAX as u64) {
        Some(p) => {
            let addr = string_of(&cidr, 0, k);
            assert(addr@ == cidr@.take(k as int));
            Some((iface, addr, p as u32))
        },
        None => None,
    }
}

/// `s` without the copies of `c` at its end (`str::trim_end_matches`).
pub fn trim_end_matching(s: &str, c: char) -> (r: String)
    ensures
        r@ == trim_end_char(s@, c),
{
    let v = chars_of(s);
    let mut hi: usize = v.len();
    while hi > 0 && v[hi - 1] == c
        invariant
            hi <= v.len(),
            forall|j: int| hi <= j < v.len() ==> v@[j] == c,
        decreases hi,
    {
        hi -= 1;
    }
    proof {
        lemma_trim_end_char_take(v@, c, hi as int);
        if hi > 0 {
            assert(trim_end_char(v@.take(hi as int), c) == v@.take(hi as int));
        } else {
            assert(v@.take(0).len() == 0);
        }
    }
    string_of(&v, 0, hi)
}

/// Groups of four characters joined by `:`.
pub open spec fn grouped(s: Seq<char>) -> Seq<char>
    decreases s.len(),
{
    if s.len() <= 4 {
        s
    } else {
        grouped(s.take(s.len() - 4)) + ":"@ + s.skip(s.len() - 4)
    }
}

/// The address text, prefix length and interface of a line of
/// `/proc/net/if_inet6`: a 32-character first field in groups of four
/// joined by `:`, the third field read as hexadecimal (128 when absent, 80
/// when it does not read), the sixth field.
pub open spec fn if_inet6_line_spec(line: Seq<char>) -> Option<(Seq<char>, nat, Seq<char>)> {
    let w = words(line);
    let hex = if w.len() > 0 { w[0] } else { Seq::empty() };
    let prefix = match parse_hex(if w.len() > 2 { w[2] } else { "80"@ }, u32::MAX as nat) {
        Some(n) => n,
        None => 80,
    };
    let iface = if w.len() > 5 { w[5] } else { Seq::empty() };
    if hex.len() != 32 {
        None
    } else {
        Some((grouped(hex), prefix, iface))
    }
}

pub fn if_inet6_line(line: &str) -> (r: Option<(String, u32, String)>)
    ensures
        match if_inet6_line_spec(line@) {
            Some((addr, p, iface)) => r matches Some(t) && t.0@ == addr && t.1 == p && t.2@ == iface,
            None => r is None,
        },
{
    let w = split_words(line);
    if w.len() == 0 {
        return None;
    }
    assert(views(w@)[0] == w@[0]@);
    let hex = chars_of(w[0].as_str());
    if hex.len() != 32 {
        return None;
    }
    let mut text = String::new();
    let mut g: usize = 0;
    while g < 8
        invariant
            g <= 8,
            hex@.len() == 32,
            g > 0 ==> text@ == grouped(hex@.take(4 * g as int)),
            g == 0 ==> text@.len() == 0,
        decreases 8 - g,
    {
        let ghost before = text@;
        if g > 0 {
            push_char(&mut text, ':');
        }
        push_char(&mut text, hex[4 * g]);
        push_char(&mut text, hex[4 * g + 1]);
        push_char(&mut text, hex[4 * g + 2]);
        push_char(&mut text, hex[4 * g + 3]);
        proof {
            let t = hex@.take(4 * (g + 1) as int);
            assert(t.take(t.len() - 4) == hex@.take(4 * g as int));
            assert(t.skip(t.len() - 4) == hex@.subrange(4 * g as int, 4 * g + 4));
            reveal_strlit(":");
            if g > 0 {
                assert(text@ == before + ":"@ + hex@.subrange(4 * g as int, 4 * g + 4));
            } else {
                assert(text@ == hex@.subrange(0, 4));
                assert(t == hex@.subrange(0, 4));
            }
        }
        g += 1;
    }
    assert(hex@.take(32) == hex@);
    let prefix_text = if w.len() > 2 {
        assert(views(w@)[2] == w@[2]@);
        w[2].clone()
    } else {
        "80".to_string()
    };
    let prefix: u32 = match parse_hex_exec(prefix_text.as_str(), u32::MAX as u64) {
        Some(n) => n as u32,
        None => 80,
    };
    let iface = if w.len() > 5 {
        assert(views(w@)[5] == w@[5]@);
        w[5].clone()
    } else {
        String::new()
    };
    Some((text, prefix, iface))
}

/// Each text comes strictly before the next.
pub open spec fn texts_ordered(s: Seq<Seq<char>>) -> bool {
    forall|i: int, j: int| 0 <= i < j < s.len() ==> seq_lt(#[trigger] s[i], #[trigger] s[j])
}

fn place_text(out: &mut Vec<String>, x: String)
    requires
        texts_ordered(views(old(out)@)),
    ensures
        texts_ordered(views(final(out)@)),
        views(final(out)@).to_set() == views(old(out)@).to_set().insert(x@),
{
    let mut pos: usize = 0;
    while pos < out.len() && str_lt(out[pos].as_str(), x.as_str())
        invariant
            pos <= out@.len(),
            forall|j: int| 0 <= j < pos ==> seq_lt((#[trigger] out@[j])@, x@),
        decreases out@.len() - pos,
    {
        pos += 1;
    }
    let ghost before = views(out@);
    if pos < out.len() && eq_str(out[pos].as_str(), x.as_str()) {
        assert(before[pos as int] == x@);
        assert(before.to_set() =~= before.to_set().insert(x@));
    } else {
        proof {
            if pos < before.len() {
                lemma_seq_lt_total(before[pos as int], x@);
                assert(seq_lt(x@, before[pos as int]));
            }
        }
        let ghost xv = x@;
        out.insert(pos, x);
        proof {
            let o = views(out@);
            assert(o == before.insert(pos as int, xv));
            assert forall|i: int, j: int| 0 <= i < j < o.len() implies seq_lt(#[trigger] o[i], #[trigger] o[j]) by {
                if j < pos {
                    assert(o[i] == before[i] && o[j] == before[j]);
                } else if j == pos {
                    assert(o[i] == before[i]);
                    assert(before[i] == out@[i]@);
                } else if i < pos {
                    assert(o[i] == before[i] && o[j] == before[j - 1]);
                    assert(before[i] == out@[i]@);
                    lemma_seq_lt_transitive(before[i], xv, before[pos as int]);
                    if j - 1 > pos {
                        lemma_seq_lt_transitive(before[i], before[pos as int], before[j - 1]);
                    }
                } else if i == pos {
                    assert(o[j] == before[j - 1]);
                    if j - 1 > pos {
                        lemma_seq_lt_transitive(xv, before[pos as int], before[j - 1]);
                    }
                } else {
                    assert(o[i] == before[i - 1] && o[j] == before[j - 1]);
                }
            }
            assert(o.to_set() =~= before.to_set().insert(xv)) by {
                assert forall|t: Seq<char>| o.to_set().contains(t) <==> before.to_set().insert(xv).contains(t) by {
                    if o.contains(t) {
                        let i = choose|i: int| 0 <= i < o.len() && o[i] == t;
                        if i < pos {
                            assert(before[i] == t);
                        } else if i > pos {
                            assert(before[i - 1] == t);
                        }
                    }
                    if before.contains(t) {
                        let i = choose|i: int| 0 <= i < before.len() && before[i] == t;
                        if i < pos {
                            assert(o[i] == t);
                        } else {
                            assert(o[i + 1] == t);
                        }
                    }
                    if t == xv {
                        assert(o[pos as int] == xv);
                    }
                }
            }
        }
    }
}

/// The texts sorted and without repeats (`sort` then `dedup`).
pub fn sorted_unique(items: Vec<String>) -> (r: Vec<String>)
    ensures
        texts_ordered(views(r@)),
        views(r@).to_set() == views(items@).to_set(),
{
    let ghost input = views(items@);
    let mut rest = items;
    let mut out: Vec<String> = Vec::new();
    let ghost mut n: int = 0;
    assert(input.skip(0) == input);
    assert(views(out@).to_set() =~= input.take(0).to_set());
    while rest.len() > 0
        invariant
            0 <= n <= input.len(),
            views(rest@) == input.skip(n),
            texts_ordered(views(out@)),
            views(out@).to_set() == input.take(n).to_set(),
        decreases rest.len(),
    {
        let ghost r0 = rest@;
        let x = rest.remove(0);
        assert(views(r0).len() == r0.len());
        assert(views(r0)[0] == r0[0]@);
        assert(input.skip(n)[0] == input[n]);
        assert(x@ == input[n]);
        assert(views(rest@) =~= views(r0).drop_first());
        assert(views(r0).drop_first() =~= input.skip(n + 1));
        assert(input.take(n + 1) == input.take(n).push(x@));
        assert(input.take(n + 1).to_set() =~= input.take(n).to_set().insert(x@)) by {
            input.take(n).lemma_push_to_set_commute(x@);
        }
        place_text(&mut out, x);
        proof {
            n = n + 1;
        }
    }
    assert(input.take(n) == input);
    out
}


/// An address found on the host, with its segments where its text reads as
/// an IPv6 address.
#[derive(Clone, Debug)]
pub struct Ipv6Candidate {
    pub address: String,
    pub segments: Option<[u16; 8]>,
    pub prefix_length: u32,
    pub interface_name: String,
}

/// A public IPv6 address of the host.
#[derive(Clone, Debug)]
pub struct Ipv6Address {
    pub address: String,
    pub prefix_length: u32,
    pub interface_name: String,
    pub is_global: bool,
}

/// A candidate is kept when it reads as an address that is really public.
pub open spec fn kept_candidate(c: Ipv6Candidate) -> bool {
    c.segments matches Some(s) && global_ipv6_spec(s@)
}

pub open spec fn address_of(c: Ipv6Candidate) -> (Seq<char>, u32, Seq<char>) {
    (c.address@, c.prefix_length, c.interface_name@)
}

pub open spec fn listed(a: Ipv6Address) -> (Seq<char>, u32, Seq<char>) {
    (a.address@, a.prefix_length, a.interface_name@)
}

fn keep_global(candidates: &Vec<Ipv6Candidate>) -> (r: Vec<Ipv6Address>)
    ensures
        r@.map_values(|a: Ipv6Address| listed(a)) == candidates@.filter(|c: Ipv6Candidate| kept_candidate(c)).map_values(
            |c: Ipv6Candidate| address_of(c)),
        forall|i: int| 0 <= i < r@.len() ==> (#[trigger] r@[i]).is_global,
{
    let ghost pred = |c: Ipv6Candidate| kept_candidate(c);
    let ghost all = candidates@;
    let mut out: Vec<Ipv6Address> = Vec::new();
    let mut i: usize = 0;
    while i < candidates.len()
        invariant
            i <= all.len(),
            all == candidates@,
            pred == (|c: Ipv6Candidate| kept_candidate(c)),
            out@.map_values(|a: Ipv6Address| listed(a)) == all.take(i as int).filter(pred).map_values(|c: Ipv6Candidate| address_of(c)),
            forall|k: int| 0 <= k < out@.len() ==> (#[trigger] out@[k]).is_global,
        decreases all.len() - i,
    {
        let ghost before = out@;
        proof {
            assert(all.take(i + 1) == all.take(i as int).push(all[i as int]));
            all.take(i as int).lemma_filter_push(all[i as int], pred);
        }
        let c = &candidates[i];
        let keep = match c.segments {
            Some(segs) => is_real_global_ipv6(segs),
            None => false,
        };
        if keep {
            out.push(Ipv6Address {
                address: c.address.clone(),
                prefix_length: c.prefix_length,
                interface_name: c.interface_name.clone(),
                is_global: true,
            });
            assert(out@.map_values(|a: Ipv6Address| listed(a)) =~= before.map_values(|a: Ipv6Address| listed(a)).push(address_of(all[i as int])));
        } else {
            assert(out@ == before);
        }
        i += 1;
    }
    assert(all.take(i as int) == all);
    out
}

/// The host's public IPv6 addresses: those the `ip` tool lists that are
/// really public; when there are none, those of `/proc/net/if_inet6`.
pub fn ipv6_inventory(from_ip_tool: &Vec<Ipv6Candidate>, from_proc: &Vec<Ipv6Candidate>) -> (r: Vec<Ipv6Address>)
    ensures
        ({
            let first = from_ip_tool@.filter(|c: Ipv6Candidate| kept_candidate(c));
            let chosen = if first.len() > 0 { first } else { from_proc@.filter(|c: Ipv6Candidate| kept_candidate(c)) };
            r@.map_values(|a: Ipv6Address| listed(a)) == chosen.map_values(|c: Ipv6Candidate| address_of(c))
        }),
        forall|i: int| 0 <= i < r@.len() ==> (#[trigger] r@[i]).is_global,
{
    let first = keep_global(from_ip_tool);
    if first.len() > 0 {
        first
    } else {
        keep_global(from_proc)
    }
}

/// The prefix entry of an address: its network text, `/`, the prefix length.
pub fn prefix_entry(network: &str, prefix_length: u32) -> (r: String)
    ensures
        r@ == network@ + "/"@ + crate::text::dec(prefix_length as nat),
{
    let mut s = network.to_string();
    s.append("/");
    crate::text::push_u64(&mut s, prefix_length as u64);
    s
}


/// What a candidate carries: its address text, its segments where that text
/// reads as an IPv6 address, its prefix length and its interface.
pub type CandidateView = (Seq<char>, Option<Seq<u16>>, u32, Seq<char>);

pub open spec fn candidate_view(c: Ipv6Candidate) -> CandidateView {
    (
        c.address@,
        match c.segments {
            Some(s) => Some(s@),
            None => None,
        },
        c.prefix_length,
        c.interface_name@,
    )
}

/// The candidates kept as public addresses, as address, prefix length and
/// interface.
pub open spec fn kept_views(vs: Seq<CandidateView>) -> Seq<(Seq<char>, u32, Seq<char>)> {
    vs.filter(|v: CandidateView| v.1 matches Some(s) && global_ipv6_spec(s)).map_values(
        |v: CandidateView| (v.0, v.2, v.3),
    )
}

proof fn lemma_kept_views(cs: Seq<Ipv6Candidate>)
    ensures
        cs.filter(|c: Ipv6Candidate| kept_candidate(c)).map_values(|c: Ipv6Candidate| address_of(c)) == kept_views(
            cs.map_values(|c: Ipv6Candidate| candidate_view(c)),
        ),
    decreases cs.len(),
{
    let p = |c: Ipv6Candidate| kept_candidate(c);
    let q = |v: CandidateView| v.1 matches Some(s) && global_ipv6_spec(s);
    let vs = cs.map_values(|c: Ipv6Candidate| candidate_view(c));
    if cs.len() == 0 {
        reveal(Seq::filter);
        assert(vs.len() == 0);
        assert(cs.filter(p).len() == 0);
        assert(vs.filter(q).len() == 0);
        assert(cs.filter(p).map_values(|c: Ipv6Candidate| address_of(c)) =~= kept_views(vs));
    } else {
        let d = cs.drop_last();
        let x = cs.last();
        lemma_kept_views(d);
        d.lemma_filter_push(x, p);
        assert(d.push(x) =~= cs);
        let dv = d.map_values(|c: Ipv6Candidate| candidate_view(c));
        assert(dv.push(candidate_view(x)) =~= vs);
        dv.lemma_filter_push(candidate_view(x), q);
        assert(p(x) == q(candidate_view(x)));
        if p(x) {
            assert(cs.filter(p).map_values(|c: Ipv6Candidate| address_of(c)) =~= d.filter(p).map_values(
                |c: Ipv6Candidate| address_of(c),
            ).push(address_of(x)));
            assert(kept_views(vs) =~= kept_views(dv).push((candidate_view(x).0, candidate_view(x).2, candidate_view(x).3)));
        } else {
            assert(cs.filter(p) == d.filter(p));
            assert(vs.filter(q) == dv.filter(q));
        }
    }
}

/// The candidate that a line of `ip -6 -o addr show scope global` gives:
/// the address text as it stands.
pub open spec fn ip_tool_candidate(line: Seq<char>) -> Option<CandidateView> {
    match ip_addr_line_spec(line) {
        Some((iface, addr, p)) => Some((addr, ipv6_segments(addr), p as u32, iface)),
        None => None,
    }
}

/// The candidate that a line of `/proc/net/if_inet6` gives: the address in
/// its canonical text where its groups read.
pub open spec fn proc_candidate(line: Seq<char>) -> Option<CandidateView> {
    match if_inet6_line_spec(line) {
        Some((grouped_text, p, iface)) => match ipv6_segments(grouped_text) {
            Some(s) => Some((ipv6_text(s), Some(s), p as u32, iface)),
            None => Some((grouped_text, None, p as u32, iface)),
        },
        None => None,
    }
}

/// The candidates of the lines of either source, in order.
pub open spec fn candidates_of(lines: Seq<Seq<char>>, from_proc: bool) -> Seq<CandidateView>
    decreases lines.len(),
{
    if lines.len() == 0 {
        Seq::empty()
    } else {
        let rest = candidates_of(lines.drop_last(), from_proc);
        match if from_proc {
            proc_candidate(lines.last())
        } else {
            ip_tool_candidate(lines.last())
        } {
            Some(c) => rest.push(c),
            None => rest,
        }
    }
}

fn line_candidate(line: &str, from_proc: bool) -> (r: Option<Ipv6Candidate>)
    ensures
        match if from_proc {
            proc_candidate(line@)
        } else {
            ip_tool_candidate(line@)
        } {
            Some(v) => r matches Some(c) && candidate_view(c) == v,
            None => r is None,
        },
{
    if from_proc {
        match if_inet6_line(line) {
            Some((grouped_text, p, iface)) => match parse_ipv6(grouped_text.as_str()) {
                Some(s) => Some(
                    Ipv6Candidate {
                        address: format_ipv6(s),
                        segments: Some(s),
                        prefix_length: p,
                        interface_name: iface,
                    },
                ),
                None => Some(
                    Ipv6Candidate { address: grouped_text, segments: None, prefix_length: p, interface_name: iface },
                ),
            },
            None => None,
        }
    } else {
        match ip_addr_line(line) {
            Some((iface, addr, p)) => {
                let segments = parse_ipv6(addr.as_str());
                Some(Ipv6Candidate { address: addr, segments, prefix_length: p, interface_name: iface })
            },
            None => None,
        }
    }
}

/// The candidates of the lines of `ip -6 -o addr show scope global`
/// (`from_proc` false) or of `/proc/net/if_inet6` (`from_proc` true).
pub fn candidates_from_lines(lines: &Vec<String>, from_proc: bool) -> (r: Vec<Ipv6Candidate>)
    ensures
        r@.map_values(|c: Ipv6Candidate| candidate_view(c)) == candidates_of(views(lines@), from_proc),
{
    let ghost all = views(lines@);
    let mut out: Vec<Ipv6Candidate> = Vec::new();
    let mut i: usize = 0;
    while i < lines.len()
        invariant
            i <= lines@.len(),
            all == views(lines@),
            out@.map_values(|c: Ipv6Candidate| candidate_view(c)) == candidates_of(all.take(i as int), from_proc),
        decreases lines@.len() - i,
    {
        assert(all.take(i + 1).drop_last() == all.take(i as int));
        assert(all.take(i + 1).last() == lines@[i as int]@);
        let ghost before = out@;
        match line_candidate(lines[i].as_str(), from_proc) {
            Some(c) => {
                out.push(c);
                assert(out@.map_values(|c: Ipv6Candidate| candidate_view(c)) =~= before.map_values(
                    |c: Ipv6Candidate| candidate_view(c),
                ).push(candidate_view(out@.last())));
            },
            None => {},
        }
        i += 1;
    }
    assert(all.take(i as int) == all);
    out
}

/// The network text of an address under a prefix length (taken as 128
/// when longer): the address with its bits past the prefix cleared, in
/// canonical text; a text that does not read as an address stays as it is.
pub open spec fn truncated_network(address: Seq<char>, prefix_length: u32) -> Seq<char> {
    match ipv6_segments(address) {
        None => address,
        Some(g) => ipv6_text(
            Seq::new(8, |i: int| g[i] & segment_mask(if prefix_length > 128 { 128 } else { prefix_length }, i as u32)),
        ),
    }
}

/// The network text of an address under a prefix length, as
/// [`truncated_network`] says.
pub fn truncate_ipv6_prefix(address: &str, prefix_length: u32) -> (r: String)
    ensures
        r@ == truncated_network(address@, prefix_length),
{
    match parse_ipv6(address) {
        None => address.to_string(),
        Some(segs) => {
            let t = truncate_segments(segs, prefix_length);
            let ghost p: u32 = if prefix_length > 128 { 128 } else { prefix_length };
            assert(t@ =~= Seq::new(8, |i: int| segs@[i] & segment_mask(p, i as u32)));
            format_ipv6(t)
        },
    }
}

/// The prefix entry of an address: its network text, `/`, its prefix length.
pub open spec fn prefix_text(a: Ipv6Address) -> Seq<char> {
    truncated_network(a.address@, a.prefix_length) + "/"@ + crate::text::dec(a.prefix_length as nat)
}

/// The prefix entries of the addresses, sorted and without repeats.
pub fn ipv6_prefixes(addresses: &Vec<Ipv6Address>) -> (r: Vec<String>)
    ensures
        texts_ordered(views(r@)),
        views(r@).to_set() == addresses@.map_values(|a: Ipv6Address| prefix_text(a)).to_set(),
{
    let mut items: Vec<String> = Vec::new();
    let mut i: usize = 0;
    while i < addresses.len()
        invariant
            i <= addresses@.len(),
            views(items@) == addresses@.take(i as int).map_values(|a: Ipv6Address| prefix_text(a)),
        decreases addresses@.len() - i,
    {
        let a = &addresses[i];
        let network = truncate_ipv6_prefix(a.address.as_str(), a.prefix_length);
        let entry = prefix_entry(network.as_str(), a.prefix_length);
        let ghost before = views(items@);
        items.push(entry);
        assert(views(items@) =~= before.push(entry@));
        assert(addresses@.take(i + 1).map_values(|a: Ipv6Address| prefix_text(a)) =~= addresses@.take(
            i as int,
        ).map_values(|a: Ipv6Address| prefix_text(a)).push(prefix_text(addresses@[i as int])));
        i += 1;
    }
    assert(addresses@.take(i as int) == addresses@);
    sorted_unique(items)
}

/// The host's public IPv6 addresses and their prefix entries, from the
/// lines of `ip -6 -o addr show scope global` and, when those give no
/// public address, the lines of `/proc/net/if_inet6`.
pub fn collect_ipv6_addresses(ip_lines: &Vec<String>, proc_lines: &Vec<String>) -> (r: (
    Vec<Ipv6Address>,
    Vec<String>,
))
    ensures
        ({
            let first = kept_views(candidates_of(views(ip_lines@), false));
            let chosen = if first.len() > 0 {
                first
            } else {
                kept_views(candidates_of(views(proc_lines@), true))
            };
            r.0@.map_values(|a: Ipv6Address| listed(a)) == chosen
        }),
        forall|i: int| 0 <= i < r.0@.len() ==> (#[trigger] r.0@[i]).is_global,
        texts_ordered(views(r.1@)),
        views(r.1@).to_set() == r.0@.map_values(|a: Ipv6Address| prefix_text(a)).to_set(),
{
    let from_ip_tool = candidates_from_lines(ip_lines, false);
    let from_proc = candidates_from_lines(proc_lines, true);
    proof {
        lemma_kept_views(from_ip_tool@);
        lemma_kept_views(from_proc@);
    }
    let addresses = ipv6_inventory(&from_ip_tool, &from_proc);
    let prefixes = ipv6_prefixes(&addresses);
    (addresses, prefixes)
}

} // verus!
