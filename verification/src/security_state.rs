//! The decisions around the host security settings: which option changes
//! need the rollback guard, the commands that take a rule change or an
//! import to the firewall, SSH auto-banning, and the defaults of a loaded
//! state.

use vstd::prelude::*;

use crate::listing::{Keyed, Timestamped};
use crate::security::{
    command_views, rule_commands_spec,
    backend_name, backend_name_spec, build_rule_commands, default_waf_rules, firewall_backend,
    normalize_panel_access_path, panel_path_spec, scan_protection_commands, backend_of,
    FirewallBackend, FirewallCommand, FirewallOperation, FirewallRule, StoredFirewallRule,
    StoredSshSettings, StoredWafRule, StoredWafSettings, DEFAULT_PANEL_ACCESS_PATH,
    DEFAULT_SCAN_BURST, DEFAULT_SCAN_WINDOW_SECONDS, DEFAULT_SSH_FAILED_LIMIT,
    DEFAULT_SSH_FAILED_WINDOW_SECONDS, DEFAULT_SSH_PORT, DEFAULT_WAF_BLOCK_SECONDS,
    DEFAULT_WAF_BURST, DEFAULT_WAF_REQUESTS_PER_MINUTE, SSH_CONFIG_FILE, WAF_CHALLENGE_FILE,
    WAF_CONFIG_FILE,
};
use crate::status::{Code, Status};
use crate::text::{
    all_ws, chars_of, dec, eq_str, find_char_from, index_of, is_blank, lemma_index_of,
    parse_unsigned, parse_unsigned_exec, pieces, push_u64, split_char, starts_with, starts_with_seq,
    string_of, trim, trim_seq, trim_start_seq, views,
};

verus! {

/// The firewall-wide options as the store keeps them.
#[derive(Clone, Debug)]
pub struct StoredSecurityOptions {
    pub disable_ping: bool,
    pub scan_protection_enabled: bool,
    pub scan_burst: u32,
    pub scan_window_seconds: u32,
    pub backend_preference: i32,
    pub last_apply_message: String,
    pub panel_access_path: String,
    pub panel_listen_addr: String,
    pub two_factor_required: bool,
}

/// A change of the panel's address, access path or second factor can lock
/// the user out, so it is guarded by a rollback.
pub open spec fn risky_change_spec(old: StoredSecurityOptions, new: StoredSecurityOptions) -> bool {
    old.panel_listen_addr@ != new.panel_listen_addr@ || old.panel_access_path@ != new.panel_access_path@
        || old.two_factor_required != new.two_factor_required
}

pub fn risky_change(old: &StoredSecurityOptions, new: &StoredSecurityOptions) -> (r: bool)
    ensures
        r == risky_change_spec(*old, *new),
{
    !eq_str(old.panel_listen_addr.as_str(), new.panel_listen_addr.as_str())
        || !eq_str(old.panel_access_path.as_str(), new.panel_access_path.as_str())
        || old.two_factor_required != new.two_factor_required
}

pub open spec fn bool_text(b: bool) -> Seq<char> {
    if b { "true"@ } else { "false"@ }
}

fn push_bool(s: &mut String, b: bool)
    ensures
        final(s)@ == old(s)@ + bool_text(b),
{
    if b {
        s.append("true");
    } else {
        s.append("false");
    }
}

/// The title of the rollback guarding an option change: the old and new
/// listen address, access path and second-factor switch.
pub open spec fn options_rollback_title_spec(old: StoredSecurityOptions, new: StoredSecurityOptions) -> Seq<char> {
    "面板入口安全选项变更:listen="@ + old.panel_listen_addr@ + " → "@ + new.panel_listen_addr@ + " / path="@
        + old.panel_access_path@ + " → "@ + new.panel_access_path@ + " / 2FA="@ + bool_text(old.two_factor_required)
        + " → "@ + bool_text(new.two_factor_required)
}

/// The title of the rollback guarding an option change.
pub fn options_rollback_title(old: &StoredSecurityOptions, new: &StoredSecurityOptions) -> (r: String)
    ensures
        r@ == options_rollback_title_spec(*old, *new),
{
    let mut s = "面板入口安全选项变更:listen=".to_string();
    s.append(old.panel_listen_addr.as_str());
    s.append(" → ");
    s.append(new.panel_listen_addr.as_str());
    s.append(" / path=");
    s.append(old.panel_access_path.as_str());
    s.append(" → ");
    s.append(new.panel_access_path.as_str());
    s.append(" / 2FA=");
    push_bool(&mut s, old.two_factor_required);
    s.append(" → ");
    push_bool(&mut s, new.two_factor_required);
    s
}

/// The description of that rollback.
pub const OPTIONS_ROLLBACK_DESCRIPTION: &'static str = "30 秒内未点'保留(我能登录)'将自动回滚到旧设置,避免被锁外面。";

/// How long the user has to keep a risky option change before it is
/// rolled back.
pub const OPTIONS_ROLLBACK_SECONDS: u32 = 30;

/// A request to schedule a rollback.
#[derive(Clone, Debug)]
pub struct ScheduleRollbackRequest {
    pub title: String,
    pub description: String,
    pub revert_command: String,
    pub snapshot_json: String,
    pub rollback_after_seconds: u32,
}

/// The rollback that guards a risky option change: titled after the
/// change, restoring `snapshot` (the old options as stored) unless the user
/// keeps the change within thirty seconds; it runs no command.
pub fn options_rollback_request(old: &StoredSecurityOptions, new: &StoredSecurityOptions, snapshot: String) -> (r:
    ScheduleRollbackRequest)
    ensures
        r.title@ == options_rollback_title_spec(*old, *new),
        r.description@ == OPTIONS_ROLLBACK_DESCRIPTION@,
        r.revert_command@.len() == 0,
        r.snapshot_json == snapshot,
        r.rollback_after_seconds == OPTIONS_ROLLBACK_SECONDS,
{
    ScheduleRollbackRequest {
        title: options_rollback_title(old, new),
        description: OPTIONS_ROLLBACK_DESCRIPTION.to_string(),
        revert_command: String::new(),
        snapshot_json: snapshot,
        rollback_after_seconds: OPTIONS_ROLLBACK_SECONDS,
    }
}

/// When the countdown has run out: the old options are restored exactly
/// when the guarding rollback is still pending, i.e. the user did not keep
/// the change. `pending` is the ids of the pending rollbacks (none when
/// they could not be listed).
pub fn watchdog_decision(pending: &Vec<String>, action_id: &str) -> (restore: bool)
    ensures
        restore == views(pending@).contains(action_id@),
{
    let mut i: usize = 0;
    while i < pending.len()
        invariant
            i <= pending@.len(),
            forall|j: int| 0 <= j < i ==> views(pending@)[j] != action_id@,
        decreases pending@.len() - i,
    {
        if eq_str(pending[i].as_str(), action_id) {
            assert(views(pending@)[i as int] == action_id@);
            return true;
        }
        i += 1;
    }
    assert(!views(pending@).contains(action_id@)) by {
        if views(pending@).contains(action_id@) {
            let j = choose|j: int| 0 <= j < views(pending@).len() && views(pending@)[j] == action_id@;
            assert(views(pending@)[j] != action_id@);
        }
    }
    false
}

/// Changes reach the system firewall only when the switch is `1`, `true`
/// or `TRUE`.
pub fn apply_switch(value: Option<&str>) -> (r: bool)
    ensures
        r == match value { Some(v) => v@ == "1"@ || v@ == "true"@ || v@ == "TRUE"@, None => false },
{
    match value {
        Some(v) => eq_str(v, "1") || eq_str(v, "true") || eq_str(v, "TRUE"),
        None => false,
    }
}

/// The backends to try, in order: the preferred one alone, or ufw,
/// firewalld and iptables when there is no (valid) preference.
pub fn backend_candidates(preference: i32) -> (r: Vec<FirewallBackend>)
    ensures
        match backend_of(preference) {
            Some(b) => if b != FirewallBackend::Unspecified { r@ == seq![b] } else {
                r@ == seq![FirewallBackend::Ufw, FirewallBackend::Firewalld, FirewallBackend::Iptables]
            },
            None => r@ == seq![FirewallBackend::Ufw, FirewallBackend::Firewalld, FirewallBackend::Iptables],
        },
{
    let preferred = match firewall_backend(preference) {
        Ok(b) => b,
        Err(_) => FirewallBackend::Unspecified,
    };
    if preferred != FirewallBackend::Unspecified {
        let v = vec![preferred];
        assert(v@ =~= seq![preferred]);
        v
    } else {
        let v = vec![FirewallBackend::Ufw, FirewallBackend::Firewalld, FirewallBackend::Iptables];
        assert(v@ =~= seq![FirewallBackend::Ufw, FirewallBackend::Firewalld, FirewallBackend::Iptables]);
        v
    }
}

/// The shell test that a backend's tool is installed.
pub fn backend_probe(backend: FirewallBackend) -> (r: Option<String>)
    ensures
        backend == FirewallBackend::Ufw ==> (r matches Some(c) && c@ == "command -v ufw"@),
        backend == FirewallBackend::Firewalld ==> (r matches Some(c) && c@ == "command -v firewall-cmd"@),
        backend == FirewallBackend::Iptables ==> (r matches Some(c) && c@ == "command -v iptables"@),
        backend == FirewallBackend::Unspecified ==> r is None,
{
    match backend {
        FirewallBackend::Ufw => Some("command -v ufw".to_string()),
        FirewallBackend::Firewalld => Some("command -v firewall-cmd".to_string()),
        FirewallBackend::Iptables => Some("command -v iptables".to_string()),
        FirewallBackend::Unspecified => None,
    }
}

/// The messages of a stored change that the firewall did not see.
pub const APPLY_DISABLED_MESSAGE: &'static str = "saved; system firewall apply disabled";
pub const NO_BACKEND_MESSAGE: &'static str = "saved; no supported firewall backend found";

/// The first step of a rule change: removing the old rule, if it was
/// enabled.
pub fn removal_step(backend: FirewallBackend, old_rule: Option<&StoredFirewallRule>) -> (r: Result<Option<Vec<FirewallCommand>>, Status>)
    ensures
        match old_rule {
            Some(rule) => if rule.enabled {
                match rule_commands_spec(backend, *rule, FirewallOperation::Delete) {
                    Some(cs) => r matches Ok(Some(v)) && command_views(v@) == cs,
                    None => r is Err,
                }
            } else {
                r matches Ok(None)
            },
            None => r matches Ok(None),
        },
{
    match old_rule {
        Some(rule) => {
            if rule.enabled {
                match build_rule_commands(backend, rule, FirewallOperation::Delete) {
                    Ok(c) => Ok(Some(c)),
                    Err(e) => Err(e),
                }
            } else {
                Ok(None)
            }
        },
        None => Ok(None),
    }
}

/// The second step: adding the new rule, if it is enabled.
pub fn addition_step(backend: FirewallBackend, new_rule: Option<&StoredFirewallRule>) -> (r: Result<Option<Vec<FirewallCommand>>, Status>)
    ensures
        match new_rule {
            Some(rule) => if rule.enabled {
                match rule_commands_spec(backend, *rule, FirewallOperation::Add) {
                    Some(cs) => r matches Ok(Some(v)) && command_views(v@) == cs,
                    None => r is Err,
                }
            } else {
                r matches Ok(None)
            },
            None => r matches Ok(None),
        },
{
    match new_rule {
        Some(rule) => {
            if rule.enabled {
                match build_rule_commands(backend, rule, FirewallOperation::Add) {
                    Ok(c) => Ok(Some(c)),
                    Err(e) => Err(e),
                }
            } else {
                Ok(None)
            }
        },
        None => Ok(None),
    }
}

/// The message of an applied rule change: what was removed and applied,
/// or that the firewall did not change.
pub fn rule_change_message(backend: FirewallBackend, removed: bool, applied: bool) -> (r: String)
    ensures
        removed && applied ==> r@ == "removed old rule via "@ + backend_name_spec(backend) + "; applied rule via "@
            + backend_name_spec(backend),
        removed && !applied ==> r@ == "removed old rule via "@ + backend_name_spec(backend),
        !removed && applied ==> r@ == "applied rule via "@ + backend_name_spec(backend),
        !removed && !applied ==> r@ == "rule stored without active firewall change"@,
{
    let name = backend_name(backend);
    if removed && applied {
        let mut s = "removed old rule via ".to_string();
        s.append(name);
        s.append("; applied rule via ");
        s.append(name);
        s
    } else if removed {
        let mut s = "removed old rule via ".to_string();
        s.append(name);
        s
    } else if applied {
        let mut s = "applied rule via ".to_string();
        s.append(name);
        s
    } else {
        "rule stored without active firewall change".to_string()
    }
}

fn sysctl_ping_command(disable_ping: bool) -> (r: FirewallCommand)
    ensures
        r.program@ == "sysctl"@,
        views(r.args@) == seq!["-w"@, "net.ipv4.icmp_echo_ignore_all="@ + (if disable_ping { "1"@ } else { "0"@ })],
{
    let mut args: Vec<String> = Vec::new();
    args.push("-w".to_string());
    let mut setting = "net.ipv4.icmp_echo_ignore_all=".to_string();
    if disable_ping {
        setting.append("1");
    } else {
        setting.append("0");
    }
    args.push(setting);
    assert(views(args@) =~= seq!["-w"@, "net.ipv4.icmp_echo_ignore_all="@ + (if disable_ping { "1"@ } else { "0"@ })]);
    FirewallCommand::new("sysctl", args)
}

/// The commands, as values, that apply the options: the ping switch, then
/// the port-scan protection when enabled.
pub open spec fn options_commands_spec(disable_ping: bool, scan_protection_enabled: bool, scan_burst: u32, scan_window_seconds: u32) -> Seq<(Seq<char>, Seq<Seq<char>>)> {
    let ping = ("sysctl"@, seq!["-w"@, "net.ipv4.icmp_echo_ignore_all="@ + (if disable_ping { "1"@ } else { "0"@ })]);
    if scan_protection_enabled {
        let scan = scan_protection_commands_spec(scan_burst, scan_window_seconds);
        seq![ping, scan.0, scan.1]
    } else {
        seq![ping]
    }
}

pub fn options_commands(disable_ping: bool, scan_protection_enabled: bool, scan_burst: u32, scan_window_seconds: u32) -> (r: Vec<FirewallCommand>)
    ensures
        command_views(r@) == options_commands_spec(disable_ping, scan_protection_enabled, scan_burst, scan_window_seconds),
{
    let mut out: Vec<FirewallCommand> = Vec::new();
    out.push(sysctl_ping_command(disable_ping));
    if scan_protection_enabled {
        let mut scan = scan_protection_commands(scan_burst, scan_window_seconds);
        let c2 = scan.pop().unwrap();
        let c1 = scan.pop().unwrap();
        out.push(c1);
        out.push(c2);
    }
    assert(command_views(out@) =~= options_commands_spec(disable_ping, scan_protection_enabled, scan_burst, scan_window_seconds));
    out
}

/// The two commands of the port-scan protection, as values.
pub open spec fn scan_protection_commands_spec(scan_burst: u32, scan_window_seconds: u32) -> ((Seq<char>, Seq<Seq<char>>), (Seq<char>, Seq<Seq<char>>)) {
    (("iptables"@, seq!["-A"@, "INPUT"@, "-p"@, "tcp"@, "--syn"@, "-m"@, "recent"@, "--name"@, "rustpanel_scan"@, "--set"@]),
     ("iptables"@, seq!["-A"@, "INPUT"@, "-p"@, "tcp"@, "--syn"@, "-m"@, "recent"@, "--name"@, "rustpanel_scan"@, "--update"@, "--seconds"@,
        dec((if scan_window_seconds >= 1 { scan_window_seconds } else { 1 }) as nat), "--hitcount"@,
        dec((if scan_burst >= 2 { scan_burst } else { 2 }) as nat), "-j"@, "DROP"@]))
}

/// An SSH login attempt as reported.
#[derive(Clone, Debug)]
pub struct SshLoginEvent {
    pub id: String,
    pub username: String,
    pub source_ip: String,
    pub successful: bool,
    pub auto_banned: bool,
    pub message: String,
    pub occurred_at_seconds: u64,
}

impl Timestamped for SshLoginEvent {
    open spec fn stamp_spec(&self) -> u64 {
        self.occurred_at_seconds
    }

    fn stamp(&self) -> (r: u64) {
        self.occurred_at_seconds
    }
}

/// An attempt counts towards a ban of `source` when it failed from that
/// address at or after the window's start.
pub open spec fn counts_against(e: SshLoginEvent, source: Seq<char>, window_start: u64) -> bool {
    !e.successful && e.source_ip@ == source && e.occurred_at_seconds >= window_start
}

pub open spec fn failures_in(events: Seq<SshLoginEvent>, source: Seq<char>, window_start: u64) -> nat
    decreases events.len(),
{
    if events.len() == 0 {
        0
    } else {
        failures_in(events.drop_last(), source, window_start)
            + if counts_against(events.last(), source, window_start) { 1nat } else { 0nat }
    }
}

fn count_failures(events: &Vec<SshLoginEvent>, source: &str, window_start: u64) -> (r: usize)
    ensures
        r == failures_in(events@, source@, window_start),
        r <= events@.len(),
{
    let mut n: usize = 0;
    let mut i: usize = 0;
    while i < events.len()
        invariant
            i <= events@.len(),
            n == failures_in(events@.take(i as int), source@, window_start),
            n <= i,
        decreases events@.len() - i,
    {
        assert(events@.take(i + 1).drop_last() == events@.take(i as int));
        let e = &events[i];
        if !e.successful && eq_str(e.source_ip.as_str(), source) && e.occurred_at_seconds >= window_start {
            n += 1;
        }
        i += 1;
    }
    assert(events@.take(i as int) == events@);
    n
}

/// The rule that bans `source` on the SSH port.
pub open spec fn is_ban_rule(rule: StoredFirewallRule, source: Seq<char>, port: u32) -> bool {
    starts_with_seq(rule.name@, "SSH 自动封禁"@) && rule.source@ == source && rule.port_start == port
}

fn has_ban_rule(rules: &Vec<StoredFirewallRule>, source: &str, port: u32) -> (r: bool)
    ensures
        r == exists|i: int| 0 <= i < rules@.len() && is_ban_rule(#[trigger] rules@[i], source@, port),
{
    let mut i: usize = 0;
    while i < rules.len()
        invariant
            i <= rules@.len(),
            forall|j: int| 0 <= j < i ==> !is_ban_rule(#[trigger] rules@[j], source@, port),
        decreases rules@.len() - i,
    {
        let rule = &rules[i];
        if starts_with(rule.name.as_str(), "SSH 自动封禁") && eq_str(rule.source.as_str(), source)
            && rule.port_start == port {
            return true;
        }
        i += 1;
    }
    false
}

/// What an SSH login event brings about.
#[derive(Clone, Debug)]
pub enum AutoBan {
    /// Nothing: a success, auto-banning off, no source, or too few failures.
    No,
    /// The source is already banned.
    AlreadyBanned,
    /// Ban the source with this rule.
    Ban(StoredFirewallRule),
}

/// The ban rule of a source after `failures` failed logins.
pub open spec fn ban_rule_spec(rule: StoredFirewallRule, source: Seq<char>, port: u32, failures: nat, now: u64) -> bool {
    &&& rule.id@.len() == 36
    &&& rule.name@ == "SSH 自动封禁 "@ + source
    &&& rule.protocol == 1 && rule.action == 2 && rule.direction == 1
    &&& rule.port_start == port && rule.port_end == port
    &&& rule.source@ == source
    &&& rule.destination@.len() == 0
    &&& rule.enabled
    &&& rule.comment@ == dec(failures) + " 次失败登录后自动封禁"@
    &&& rule.created_at_seconds == now && rule.updated_at_seconds == now
}

/// Decides on a ban after an SSH login event: a failed login from a
/// non-blank source, with auto-banning on, is counted with the failures
/// from the same address within the window before it; at the limit the
/// trimmed source is banned on the SSH port (once).
pub fn auto_ban(settings: &StoredSshSettings, events: &Vec<SshLoginEvent>, rules: &Vec<StoredFirewallRule>, event: &SshLoginEvent, now: u64) -> (r: AutoBan)
    requires
        events@.len() < usize::MAX,
    ensures
        (event.successful || !settings.auto_ban_enabled || all_ws(event.source_ip@)) ==> r is No,
        !(event.successful || !settings.auto_ban_enabled || all_ws(event.source_ip@)) ==> ({
            let window_start = if event.occurred_at_seconds >= settings.failed_attempt_window_seconds {
                (event.occurred_at_seconds - settings.failed_attempt_window_seconds) as u64
            } else {
                0u64
            };
            let failures = failures_in(events@, event.source_ip@, window_start) + 1;
            let source = trim_seq(event.source_ip@);
            &&& failures < settings.failed_attempt_limit ==> r is No
            &&& failures >= settings.failed_attempt_limit ==> {
                &&& (exists|i: int| 0 <= i < rules@.len() && is_ban_rule(#[trigger] rules@[i], source, settings.port))
                    ==> r is AlreadyBanned
                &&& !(exists|i: int| 0 <= i < rules@.len() && is_ban_rule(#[trigger] rules@[i], source, settings.port))
                    ==> (r matches AutoBan::Ban(rule) && ban_rule_spec(rule, source, settings.port, failures, now))
            }
        }),
{
    if event.successful || !settings.auto_ban_enabled || is_blank(event.source_ip.as_str()) {
        return AutoBan::No;
    }
    let window_start = event.occurred_at_seconds.saturating_sub(settings.failed_attempt_window_seconds as u64);
    let failures = count_failures(events, event.source_ip.as_str(), window_start) + 1;
    if failures < settings.failed_attempt_limit as usize {
        return AutoBan::No;
    }
    let source = trim(event.source_ip.as_str());
    if has_ban_rule(rules, source.as_str(), settings.port) {
        return AutoBan::AlreadyBanned;
    }
    let mut name = "SSH 自动封禁 ".to_string();
    name.append(source.as_str());
    let mut comment = String::new();
    push_u64(&mut comment, failures as u64);
    comment.append(" 次失败登录后自动封禁");
    AutoBan::Ban(StoredFirewallRule {
        id: crate::crypto::new_uuid(),
        name,
        protocol: 1,
        action: 2,
        direction: 1,
        port_start: settings.port,
        port_end: settings.port,
        source,
        destination: String::new(),
        enabled: true,
        comment,
        created_at_seconds: now,
        updated_at_seconds: now,
    })
}

/// A reported event gets an id when it has none and the time of recording
/// when it has none.
pub fn event_with_defaults(event: SshLoginEvent, now: u64) -> (r: SshLoginEvent)
    ensures
        all_ws(event.id@) ==> r.id@.len() == 36,
        !all_ws(event.id@) ==> r.id@ == event.id@,
        r.occurred_at_seconds == if event.occurred_at_seconds == 0 { now } else { event.occurred_at_seconds },
        r.username == event.username && r.source_ip == event.source_ip && r.successful == event.successful
            && r.auto_banned == event.auto_banned && r.message == event.message,
{
    let mut event = event;
    if is_blank(event.id.as_str()) {
        event.id = crate::crypto::new_uuid();
    }
    if event.occurred_at_seconds == 0 {
        event.occurred_at_seconds = now;
    }
    event
}

/// A login event needs a user name.
pub fn require_ssh_username(username: &str) -> (r: Result<(), Status>)
    ensures
        all_ws(username@) ==> (r matches Err(e) && e.code == Code::InvalidArgument && e.message@ == "ssh username is required"@),
        !all_ws(username@) ==> r is Ok,
{
    if is_blank(username) {
        return Err(Status::invalid_argument("ssh username is required"));
    }
    Ok(())
}

/// An address filter split for checking: the trimmed text, at its first
/// `/`, into the address and the prefix length; none when blank.
pub fn address_filter_parts(value: &str) -> (r: Option<(String, Option<String>)>)
    ensures
        ({
            let t = trim_seq(value@);
            let k = index_of(t, '/');
            &&& t.len() == 0 ==> r is None
            &&& t.len() > 0 && k >= t.len() ==> (r matches Some(p) && p.0@ == t && p.1 is None)
            &&& t.len() > 0 && k < t.len() ==> (r matches Some(p) && p.0@ == t.take(k as int)
                && (p.1 matches Some(q) && q@ == t.skip(k as int + 1)))
        }),
{
    let t = trim(value);
    let v = chars_of(t.as_str());
    if v.len() == 0 {
        return None;
    }
    proof {
        lemma_index_of(v@, '/');
    }
    let k = find_char_from(&v, '/', 0);
    assert(v@.skip(0) == v@);
    if k >= v.len() {
        return Some((t, None));
    }
    let ip = string_of(&v, 0, k);
    let prefix = string_of(&v, k + 1, v.len());
    assert(ip@ == v@.take(k as int));
    assert(prefix@ == v@.skip(k as int + 1));
    Some((ip, Some(prefix)))
}

/// The verdict on an address filter once its address part is parsed
/// (`None` when it is no IP address, else whether it is IPv4): a prefix
/// must read as a byte and be at most 32 (IPv4) or 128.
pub fn address_filter_verdict(label: &str, ip_is_v4: Option<bool>, prefix: Option<&str>) -> (r: Result<(), Status>)
    ensures
        ip_is_v4 is None ==> (r matches Err(e) && e.code == Code::InvalidArgument && e.message@ == label@ + " must be an IP or CIDR"@),
        ip_is_v4 matches Some(v4) ==> match prefix {
            None => r is Ok,
            Some(p) => match parse_unsigned(p@, 255) {
                None => r matches Err(e) && e.code == Code::InvalidArgument && e.message@ == label@ + " CIDR prefix is invalid"@,
                Some(n) => {
                    let max: nat = if v4 { 32 } else { 128 };
                    &&& n <= max ==> r is Ok
                    &&& n > max ==> (r matches Err(e) && e.code == Code::InvalidArgument
                        && e.message@ == label@ + " CIDR prefix must be <= "@ + dec(max))
                },
            },
        },
{
    let v4 = match ip_is_v4 {
        Some(b) => b,
        None => {
            let mut m = label.to_string();
            m.append(" must be an IP or CIDR");
            return Err(Status::invalid_argument(m.as_str()));
        },
    };
    match prefix {
        None => Ok(()),
        Some(p) => match parse_unsigned_exec(p, 255) {
            None => {
                let mut m = label.to_string();
                m.append(" CIDR prefix is invalid");
                Err(Status::invalid_argument(m.as_str()))
            },
            Some(n) => {
                let max: u64 = if v4 { 32 } else { 128 };
                if n <= max {
                    Ok(())
                } else {
                    let mut m = label.to_string();
                    m.append(" CIDR prefix must be <= ");
                    push_u64(&mut m, max);
                    Err(Status::invalid_argument(m.as_str()))
                }
            },
        },
    }
}

/// The checks of new options, in order: the backend preference, the access
/// path, the listen address (`listen_addr_valid` is whether it is blank or
/// reads as `host:port`), and the scan protection's burst and window.
pub fn validate_options(backend_preference: i32, panel_access_path: &str, listen_addr_valid: bool, scan_protection_enabled: bool, scan_burst: u32, scan_window_seconds: u32) -> (r: Result<(), Status>)
    ensures
        backend_of(backend_preference) is None ==> (r matches Err(e) && e.code == Code::InvalidArgument
            && e.message@ == "backend preference is invalid"@),
        backend_of(backend_preference) is Some && panel_path_spec(panel_access_path@) is None ==> (r matches Err(e)
            && e.code == Code::InvalidArgument),
        backend_of(backend_preference) is Some && panel_path_spec(panel_access_path@) is Some && !listen_addr_valid
            ==> (r matches Err(e) && e.code == Code::InvalidArgument && e.message@ == "panel_listen_addr must be host:port"@),
        backend_of(backend_preference) is Some && panel_path_spec(panel_access_path@) is Some && listen_addr_valid
            ==> ({
            &&& scan_protection_enabled && scan_burst < 2 ==> (r matches Err(e) && e.code == Code::InvalidArgument
                && e.message@ == "scan_burst must be at least 2"@)
            &&& scan_protection_enabled && scan_burst >= 2 && scan_window_seconds == 0 ==> (r matches Err(e)
                && e.code == Code::InvalidArgument && e.message@ == "scan_window_seconds must be greater than 0"@)
            &&& !(scan_protection_enabled && (scan_burst < 2 || scan_window_seconds == 0)) ==> r is Ok
        }),
{
    match firewall_backend(backend_preference) {
        Ok(_) => {},
        Err(e) => {
            return Err(e);
        },
    }
    match normalize_panel_access_path(panel_access_path) {
        Ok(_) => {},
        Err(e) => {
            return Err(e);
        },
    }
    if !listen_addr_valid {
        return Err(Status::invalid_argument("panel_listen_addr must be host:port"));
    }
    if scan_protection_enabled {
        if scan_burst < 2 {
            return Err(Status::invalid_argument("scan_burst must be at least 2"));
        }
        if scan_window_seconds == 0 {
            return Err(Status::invalid_argument("scan_window_seconds must be greater than 0"));
        }
    }
    Ok(())
}

/// The options of a loaded state with its defaults: the scan burst and
/// window when 0, and the access path normalized (`/` when it does not
/// normalize).
pub fn options_with_defaults(options: &mut StoredSecurityOptions)
    ensures
        final(options).scan_burst == if old(options).scan_burst == 0 { DEFAULT_SCAN_BURST } else { old(options).scan_burst },
        final(options).scan_window_seconds == if old(options).scan_window_seconds == 0 { DEFAULT_SCAN_WINDOW_SECONDS } else {
            old(options).scan_window_seconds
        },
        final(options).panel_access_path@ == match panel_path_spec(old(options).panel_access_path@) {
            Some(p) => p,
            None => DEFAULT_PANEL_ACCESS_PATH@,
        },
        final(options).disable_ping == old(options).disable_ping,
        final(options).scan_protection_enabled == old(options).scan_protection_enabled,
        final(options).backend_preference == old(options).backend_preference,
        final(options).last_apply_message == old(options).last_apply_message,
        final(options).panel_listen_addr == old(options).panel_listen_addr,
        final(options).two_factor_required == old(options).two_factor_required,
{
    if options.scan_burst == 0 {
        options.scan_burst = DEFAULT_SCAN_BURST;
    }
    if options.scan_window_seconds == 0 {
        options.scan_window_seconds = DEFAULT_SCAN_WINDOW_SECONDS;
    }
    options.panel_access_path = match normalize_panel_access_path(options.panel_access_path.as_str()) {
        Ok(p) => p,
        Err(_) => DEFAULT_PANEL_ACCESS_PATH.to_string(),
    };
}

/// WAF settings with their defaults: rate, burst and block time when 0,
/// the default files when blank.
pub fn waf_with_defaults(settings: &mut StoredWafSettings)
    ensures
        final(settings).requests_per_minute == if old(settings).requests_per_minute == 0 {
            DEFAULT_WAF_REQUESTS_PER_MINUTE
        } else {
            old(settings).requests_per_minute
        },
        final(settings).burst == if old(settings).burst == 0 { DEFAULT_WAF_BURST } else { old(settings).burst },
        final(settings).block_duration_seconds == if old(settings).block_duration_seconds == 0 {
            DEFAULT_WAF_BLOCK_SECONDS
        } else {
            old(settings).block_duration_seconds
        },
        final(settings).nginx_config_path@ == if all_ws(old(settings).nginx_config_path@) { WAF_CONFIG_FILE@ } else {
            old(settings).nginx_config_path@
        },
        final(settings).challenge_page_path@ == if all_ws(old(settings).challenge_page_path@) { WAF_CHALLENGE_FILE@ } else {
            old(settings).challenge_page_path@
        },
        final(settings).enabled == old(settings).enabled,
        final(settings).cc_protection_enabled == old(settings).cc_protection_enabled,
        final(settings).captcha_challenge_enabled == old(settings).captcha_challenge_enabled,
        final(settings).last_apply_message == old(settings).last_apply_message,
{
    if settings.requests_per_minute == 0 {
        settings.requests_per_minute = DEFAULT_WAF_REQUESTS_PER_MINUTE;
    }
    if settings.burst == 0 {
        settings.burst = DEFAULT_WAF_BURST;
    }
    if settings.block_duration_seconds == 0 {
        settings.block_duration_seconds = DEFAULT_WAF_BLOCK_SECONDS;
    }
    if is_blank(settings.nginx_config_path.as_str()) {
        settings.nginx_config_path = WAF_CONFIG_FILE.to_string();
    }
    if is_blank(settings.challenge_page_path.as_str()) {
        settings.challenge_page_path = WAF_CHALLENGE_FILE.to_string();
    }
}

/// SSH settings with their defaults: port, failure limit and window when
/// 0, the default drop-in when blank.
pub fn ssh_with_defaults(settings: &mut StoredSshSettings)
    ensures
        final(settings).port == if old(settings).port == 0 { DEFAULT_SSH_PORT } else { old(settings).port },
        final(settings).failed_attempt_limit == if old(settings).failed_attempt_limit == 0 { DEFAULT_SSH_FAILED_LIMIT } else {
            old(settings).failed_attempt_limit
        },
        final(settings).failed_attempt_window_seconds == if old(settings).failed_attempt_window_seconds == 0 {
            DEFAULT_SSH_FAILED_WINDOW_SECONDS
        } else {
            old(settings).failed_attempt_window_seconds
        },
        final(settings).config_path@ == if all_ws(old(settings).config_path@) { SSH_CONFIG_FILE@ } else {
            old(settings).config_path@
        },
        final(settings).service_enabled == old(settings).service_enabled,
        final(settings).password_login_disabled == old(settings).password_login_disabled,
        final(settings).auto_ban_enabled == old(settings).auto_ban_enabled,
        final(settings).last_apply_message == old(settings).last_apply_message,
{
    if settings.port == 0 {
        settings.port = DEFAULT_SSH_PORT;
    }
    if settings.failed_attempt_limit == 0 {
        settings.failed_attempt_limit = DEFAULT_SSH_FAILED_LIMIT;
    }
    if settings.failed_attempt_window_seconds == 0 {
        settings.failed_attempt_window_seconds = DEFAULT_SSH_FAILED_WINDOW_SECONDS;
    }
    if is_blank(settings.config_path.as_str()) {
        settings.config_path = SSH_CONFIG_FILE.to_string();
    }
}

/// The WAF rules of a loaded state: the defaults when there are none.
pub fn waf_rules_with_defaults(rules: Vec<StoredWafRule>) -> (r: Vec<StoredWafRule>)
    ensures
        rules@.len() > 0 ==> r@ == rules@,
        rules@.len() == 0 ==> r@.len() > 0,
{
    if rules.len() == 0 {
        default_waf_rules()
    } else {
        rules
    }
}

/// Disabling password logins on a live system needs an installed key, or
/// the administrator would be locked out.
pub fn ssh_lockout_check(password_login_disabled: bool, applying: bool, has_authorized_key: bool) -> (r: Result<(), Status>)
    ensures
        password_login_disabled && applying && !has_authorized_key ==> (r matches Err(e) && e.code == Code::FailedPrecondition),
        !(password_login_disabled && applying && !has_authorized_key) ==> r is Ok,
{
    if password_login_disabled && applying && !has_authorized_key {
        return Err(Status::failed_precondition(
            "禁用密码登录前,请先为某个账户安装 SSH 公钥(authorized_keys);否则关闭密码登录后将无法再登录。已阻止本次变更以防被锁在门外。",
        ));
    }
    Ok(())
}

/// A line of an `authorized_keys` file that holds a key: not blank and
/// not a comment.
pub open spec fn key_line(line: Seq<char>) -> bool {
    trim_seq(line).len() > 0 && !(trim_start_seq(line).len() > 0 && trim_start_seq(line)[0] == '#')
}

/// Whether an `authorized_keys` text holds a key.
pub fn holds_authorized_key(content: &str) -> (r: bool)
    ensures
        r == exists|i: int| 0 <= i < pieces(content@, '\n').len() && key_line(#[trigger] pieces(content@, '\n')[i]),
{
    let lines = split_char(content, '\n');
    let mut i: usize = 0;
    while i < lines.len()
        invariant
            i <= lines@.len(),
            views(lines@) == pieces(content@, '\n'),
            forall|j: int| 0 <= j < i ==> !key_line(#[trigger] pieces(content@, '\n')[j]),
        decreases lines@.len() - i,
    {
        assert(views(lines@)[i as int] == lines@[i as int]@);
        let t = trim(lines[i].as_str());
        let tv = chars_of(t.as_str());
        proof {
            crate::text::lemma_trim_start_props(lines@[i as int]@);
            crate::text::lemma_trim_end_props(trim_start_seq(lines@[i as int]@));
        }
        if tv.len() > 0 && tv[0] != '#' {
            return true;
        }
        i += 1;
    }
    false
}

/// The message of a written WAF configuration.
pub fn waf_apply_message(reloaded: bool, config_path: &str) -> (r: String)
    ensures
        reloaded ==> r@ == "waf config written and nginx reloaded"@,
        !reloaded ==> r@ == "waf config written to "@ + config_path@,
{
    if reloaded {
        "waf config written and nginx reloaded".to_string()
    } else {
        let mut s = "waf config written to ".to_string();
        s.append(config_path);
        s
    }
}

/// The message of a written SSH configuration.
pub fn ssh_apply_message(reloaded: bool, config_path: &str) -> (r: String)
    ensures
        reloaded ==> r@ == "ssh config written and service reloaded"@,
        !reloaded ==> r@ == "ssh config written to "@ + config_path@,
{
    if reloaded {
        "ssh config written and service reloaded".to_string()
    } else {
        let mut s = "ssh config written to ".to_string();
        s.append(config_path);
        s
    }
}

/// The key types that can be generated.
#[derive(Clone, Copy, Debug, PartialEq, Eq, Structural)]
pub enum SshKeyAlgorithm {
    Rsa,
    Ed25519,
}

/// The algorithm a request names (1 RSA, 2 Ed25519).
pub fn ssh_key_algorithm(value: i32) -> (r: Result<SshKeyAlgorithm, Status>)
    ensures
        value == 1 ==> r == Ok::<SshKeyAlgorithm, Status>(SshKeyAlgorithm::Rsa),
        value == 2 ==> r == Ok::<SshKeyAlgorithm, Status>(SshKeyAlgorithm::Ed25519),
        value != 1 && value != 2 ==> (r matches Err(e) && e.code == Code::InvalidArgument
            && e.message@ == "ssh key algorithm is required"@),
{
    if value == 1 {
        Ok(SshKeyAlgorithm::Rsa)
    } else if value == 2 {
        Ok(SshKeyAlgorithm::Ed25519)
    } else {
        Err(Status::invalid_argument("ssh key algorithm is required"))
    }
}

/// The arguments of `ssh-keygen` for a key without passphrase, commented
/// `rustpanel-<name>`, RSA keys of 4096 bits.
pub fn ssh_keygen_args(algorithm: SshKeyAlgorithm, safe_name: &str, private_key_path: &str) -> (r: Vec<String>)
    ensures
        views(r@) == seq!["-t"@, (if algorithm == SshKeyAlgorithm::Rsa { "rsa"@ } else { "ed25519"@ }), "-N"@, ""@, "-C"@,
            "rustpanel-"@ + safe_name@, "-f"@, private_key_path@]
            + (if algorithm == SshKeyAlgorithm::Rsa { seq!["-b"@, "4096"@] } else { Seq::<Seq<char>>::empty() }),
{
    let mut args: Vec<String> = Vec::new();
    args.push("-t".to_string());
    if algorithm == SshKeyAlgorithm::Rsa {
        args.push("rsa".to_string());
    } else {
        args.push("ed25519".to_string());
    }
    args.push("-N".to_string());
    args.push("".to_string());
    args.push("-C".to_string());
    let mut comment = "rustpanel-".to_string();
    comment.append(safe_name);
    args.push(comment);
    args.push("-f".to_string());
    args.push(private_key_path.to_string());
    if algorithm == SshKeyAlgorithm::Rsa {
        args.push("-b".to_string());
        args.push("4096".to_string());
    }
    assert(views(args@) =~= seq!["-t"@, (if algorithm == SshKeyAlgorithm::Rsa { "rsa"@ } else { "ed25519"@ }), "-N"@, ""@, "-C"@,
            "rustpanel-"@ + safe_name@, "-f"@, private_key_path@]
            + (if algorithm == SshKeyAlgorithm::Rsa { seq!["-b"@, "4096"@] } else { Seq::<Seq<char>>::empty() }));
    args
}

/// The file of a generated key: the safe name, a dash and the key's id.
pub fn ssh_key_file_name(safe_name: &str, key_id: &str) -> (r: String)
    ensures
        r@ == safe_name@ + "-"@ + key_id@,
{
    let mut s = safe_name.to_string();
    s.append("-");
    s.append(key_id);
    s
}

/// The times of an upserted rule: a new rule (blank id, or an id not
/// stored) is created now; a known one keeps its creation time; both are
/// updated now.
pub fn rule_times(id_blank: bool, existing_created: Option<u64>, now: u64) -> (r: (u64, u64))
    ensures
        r.1 == now,
        id_blank ==> r.0 == now,
        !id_blank ==> r.0 == match existing_created { Some(c) => c, None => now },
{
    if id_blank {
        (now, now)
    } else {
        match existing_created {
            Some(c) => (c, now),
            None => (now, now),
        }
    }
}

/// A firewall rule stamped for storing: a fresh id when blank, and the
/// times of [`rule_times`] given the stored rule with the same id.
pub fn stamp_firewall_rule(rule: FirewallRule, existing: Option<&StoredFirewallRule>, now: u64) -> (r: FirewallRule)
    ensures
        all_ws(rule.id@) ==> r.id@.len() == 36 && r.created_at_seconds == now,
        !all_ws(rule.id@) ==> r.id@ == rule.id@ && r.created_at_seconds == match existing {
            Some(e) => e.created_at_seconds,
            None => now,
        },
        r.updated_at_seconds == now,
        r.name == rule.name && r.protocol == rule.protocol && r.action == rule.action
            && r.direction == rule.direction && r.port_start == rule.port_start && r.port_end == rule.port_end
            && r.source == rule.source && r.destination == rule.destination && r.enabled == rule.enabled
            && r.comment == rule.comment,
{
    let mut rule = rule;
    let blank = is_blank(rule.id.as_str());
    let existing_created = match existing {
        Some(e) => Some(e.created_at_seconds),
        None => None,
    };
    let (created, updated) = rule_times(blank, existing_created, now);
    if blank {
        rule.id = crate::crypto::new_uuid();
    }
    rule.created_at_seconds = created;
    rule.updated_at_seconds = updated;
    rule
}

impl Keyed for StoredFirewallRule {
    open spec fn key_spec(&self) -> Seq<char> {
        self.id@
    }

    fn key(&self) -> (r: &str) {
        self.id.as_str()
    }
}

impl Keyed for StoredWafRule {
    open spec fn key_spec(&self) -> Seq<char> {
        self.id@
    }

    fn key(&self) -> (r: &str) {
        self.id.as_str()
    }
}

/// The first stored rule with the id, if any.
pub fn find_firewall_rule<'a>(rules: &'a Vec<StoredFirewallRule>, id: &str) -> (r: Option<&'a StoredFirewallRule>)
    ensures
        match r {
            Some(x) => exists|i: int| 0 <= i < rules@.len() && rules@[i] == *x && x.id@ == id@
                && forall|j: int| 0 <= j < i ==> (#[trigger] rules@[j]).id@ != id@,
            None => forall|i: int| 0 <= i < rules@.len() ==> (#[trigger] rules@[i]).id@ != id@,
        },
{
    let mut i: usize = 0;
    while i < rules.len()
        invariant
            i <= rules@.len(),
            forall|j: int| 0 <= j < i ==> (#[trigger] rules@[j]).id@ != id@,
        decreases rules@.len() - i,
    {
        if eq_str(rules[i].id.as_str(), id) {
            return Some(&rules[i]);
        }
        i += 1;
    }
    None
}

/// The number of events a listing returns: between 1 and 500.
pub fn event_limit(limit: u32) -> (r: usize)
    ensures
        r == if limit < 1 { 1 } else if limit > 500 { 500 } else { limit },
{
    if limit < 1 { 1 } else if limit > 500 { 500 } else { limit as usize }
}


/// The commands of the enabled rules for one operation, in order; none
/// when the backend cannot express one of them.
pub open spec fn enabled_commands_spec(backend: FirewallBackend, rules: Seq<StoredFirewallRule>, op: FirewallOperation) -> Option<Seq<(Seq<char>, Seq<Seq<char>>)>>
    decreases rules.len(),
{
    if rules.len() == 0 {
        Some(Seq::empty())
    } else {
        let prev = enabled_commands_spec(backend, rules.drop_last(), op);
        if rules.last().enabled {
            match (prev, rule_commands_spec(backend, rules.last(), op)) {
                (Some(a), Some(b)) => Some(a + b),
                _ => None,
            }
        } else {
            prev
        }
    }
}

proof fn lemma_enabled_none_stays(backend: FirewallBackend, rules: Seq<StoredFirewallRule>, op: FirewallOperation, k: int)
    requires
        0 <= k <= rules.len(),
        enabled_commands_spec(backend, rules.take(k), op) is None,
    ensures
        enabled_commands_spec(backend, rules, op) is None,
    decreases rules.len() - k,
{
    if k < rules.len() {
        assert(rules.drop_last().take(k) == rules.take(k));
        lemma_enabled_none_stays(backend, rules.drop_last(), op, k);
    } else {
        assert(rules.take(k) == rules);
    }
}

/// The commands of the enabled rules, for one operation, in order.
pub fn enabled_rule_commands(backend: FirewallBackend, rules: &Vec<StoredFirewallRule>, operation: FirewallOperation) -> (r: Result<Vec<FirewallCommand>, Status>)
    ensures
        match enabled_commands_spec(backend, rules@, operation) {
            Some(cs) => r matches Ok(v) && command_views(v@) == cs,
            None => r is Err,
        },
{
    let mut out: Vec<FirewallCommand> = Vec::new();
    let mut i: usize = 0;
    assert(rules@.take(0) =~= Seq::<StoredFirewallRule>::empty());
    while i < rules.len()
        invariant
            i <= rules@.len(),
            enabled_commands_spec(backend, rules@.take(i as int), operation) == Some(command_views(out@)),
        decreases rules@.len() - i,
    {
        let ghost before = out@;
        assert(rules@.take(i + 1).drop_last() == rules@.take(i as int));
        assert(rules@.take(i + 1).last() == rules@[i as int]);
        if rules[i].enabled {
            match build_rule_commands(backend, &rules[i], operation) {
                Ok(mut c) => {
                    let ghost cv = c@;
                    out.append(&mut c);
                    assert(command_views(out@) =~= command_views(before) + command_views(cv));
                },
                Err(e) => {
                    proof {
                        lemma_enabled_none_stays(backend, rules@, operation, i + 1);
                    }
                    return Err(e);
                },
            }
        }
        i += 1;
    }
    assert(rules@.take(i as int) == rules@);
    Ok(out)
}

/// The commands that apply an imported state after the old rules are
/// removed: its enabled rules, then, when ping is disabled or the scan
/// protection is on, the ping switch and the scan protection.
pub fn import_commands(backend: FirewallBackend, rules: &Vec<StoredFirewallRule>, disable_ping: bool, scan_protection_enabled: bool, scan_burst: u32, scan_window_seconds: u32) -> (r: Result<Vec<FirewallCommand>, Status>)
    ensures
        match enabled_commands_spec(backend, rules@, FirewallOperation::Add) {
            Some(cs) => r matches Ok(v) && command_views(v@) == cs + if disable_ping || scan_protection_enabled {
                options_commands_spec(disable_ping, scan_protection_enabled, scan_burst, scan_window_seconds)
            } else {
                Seq::empty()
            },
            None => r is Err,
        },
{
    let mut out = match enabled_rule_commands(backend, rules, FirewallOperation::Add) {
        Ok(c) => c,
        Err(e) => {
            return Err(e);
        },
    };
    let ghost before = out@;
    if disable_ping || scan_protection_enabled {
        let mut extra = options_commands(disable_ping, scan_protection_enabled, scan_burst, scan_window_seconds);
        let ghost ev = extra@;
        out.append(&mut extra);
        assert(command_views(out@) =~= command_views(before) + command_views(ev));
    } else {
        assert(command_views(out@) =~= command_views(before) + Seq::empty());
    }
    Ok(out)
}

/// The message of an applied import.
pub fn import_message(backend: FirewallBackend) -> (r: String)
    ensures
        r@ == "imported rules applied via "@ + backend_name_spec(backend),
{
    let mut s = "imported rules applied via ".to_string();
    s.append(backend_name(backend));
    s
}

/// The rules after an import: the imported ones in place of the current
/// ones, or appended to them.
pub fn merged_rules(current: Vec<StoredFirewallRule>, imported: Vec<StoredFirewallRule>, replace_existing: bool) -> (r: Vec<StoredFirewallRule>)
    ensures
        replace_existing ==> r@ == imported@,
        !replace_existing ==> r@ == current@ + imported@,
{
    if replace_existing {
        imported
    } else {
        let mut current = current;
        let mut imported = imported;
        current.append(&mut imported);
        current
    }
}

} // verus!
