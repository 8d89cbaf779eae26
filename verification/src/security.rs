//! Host security settings: firewall rule commands for ufw, firewalld and
//! iptables, the nginx WAF include, the sshd drop-in and their validation.

use vstd::prelude::*;

use crate::status::{Code, Status};
use crate::text::{
    all_ws, chars_of, contains, dec, has_char, has_char_exec, has_sub, is_blank, is_whitespace,
    is_ws, lemma_trim_end_char_props, lemma_trim_end_char_take, occurs_at, trim_end_seq, trim_start_seq, push_u64, replace_char, replace_char_str, slug_spec, slug_text,
    starts_with_seq, string_of, trim, trim_end_char, trim_seq, u64_text, views,
};

verus! {

pub const DEFAULT_SECURITY_ROOT: &'static str = "/tmp/rustpanel/security";
pub const DEFAULT_PANEL_ACCESS_PATH: &'static str = "/";
pub const DEFAULT_WAF_REQUESTS_PER_MINUTE: u32 = 120;
pub const DEFAULT_WAF_BURST: u32 = 30;
pub const DEFAULT_WAF_BLOCK_SECONDS: u32 = 600;
pub const DEFAULT_SSH_PORT: u32 = 22;
pub const DEFAULT_SSH_FAILED_LIMIT: u32 = 5;
pub const DEFAULT_SSH_FAILED_WINDOW_SECONDS: u32 = 600;

#[derive(Clone, Copy, Debug, PartialEq, Eq, Structural)]
pub enum FirewallProtocol {
    Unspecified,
    Tcp,
    Udp,
    Icmp,
}

#[derive(Clone, Copy, Debug, PartialEq, Eq, Structural)]
pub enum FirewallAction {
    Unspecified,
    Allow,
    Deny,
    Reject,
}

#[derive(Clone, Copy, Debug, PartialEq, Eq, Structural)]
pub enum FirewallDirection {
    Unspecified,
    Inbound,
    Outbound,
}

#[derive(Clone, Copy, Debug, PartialEq, Eq, Structural)]
pub enum FirewallBackend {
    Unspecified,
    Ufw,
    Firewalld,
    Iptables,
}

#[derive(Clone, Copy, Debug, PartialEq, Eq, Structural)]
pub enum WafRuleKind {
    Unspecified,
    Cc,
    SqlInjection,
    Xss,
    Keyword,
    Scanner,
}

/// Whether a command adds a rule or takes it away.
#[derive(Clone, Copy, Debug, PartialEq, Eq, Structural)]
pub enum FirewallOperation {
    Add,
    Delete,
}

pub open spec fn protocol_of(v: i32) -> Option<FirewallProtocol> {
    if v == 1 { Some(FirewallProtocol::Tcp) }
    else if v == 2 { Some(FirewallProtocol::Udp) }
    else if v == 3 { Some(FirewallProtocol::Icmp) }
    else { None }
}

pub open spec fn action_of(v: i32) -> Option<FirewallAction> {
    if v == 1 { Some(FirewallAction::Allow) }
    else if v == 2 { Some(FirewallAction::Deny) }
    else if v == 3 { Some(FirewallAction::Reject) }
    else { None }
}

pub open spec fn direction_of(v: i32) -> Option<FirewallDirection> {
    if v == 1 { Some(FirewallDirection::Inbound) }
    else if v == 2 { Some(FirewallDirection::Outbound) }
    else { None }
}

pub open spec fn backend_of(v: i32) -> Option<FirewallBackend> {
    if v == 0 { Some(FirewallBackend::Unspecified) }
    else if v == 1 { Some(FirewallBackend::Ufw) }
    else if v == 2 { Some(FirewallBackend::Firewalld) }
    else if v == 3 { Some(FirewallBackend::Iptables) }
    else { None }
}

pub open spec fn waf_kind_of(v: i32) -> Option<WafRuleKind> {
    if v == 1 { Some(WafRuleKind::Cc) }
    else if v == 2 { Some(WafRuleKind::SqlInjection) }
    else if v == 3 { Some(WafRuleKind::Xss) }
    else if v == 4 { Some(WafRuleKind::Keyword) }
    else if v == 5 { Some(WafRuleKind::Scanner) }
    else { None }
}

/// A rule's protocol; unknown or unspecified values are refused.
pub fn firewall_protocol(value: i32) -> (r: Result<FirewallProtocol, Status>)
    ensures
        match protocol_of(value) {
            Some(p) => r == Ok::<FirewallProtocol, Status>(p),
            None => r matches Err(e) && e.code == Code::InvalidArgument && e.message@ == "protocol is required"@,
        },
{
    if value == 1 { Ok(FirewallProtocol::Tcp) }
    else if value == 2 { Ok(FirewallProtocol::Udp) }
    else if value == 3 { Ok(FirewallProtocol::Icmp) }
    else { Err(Status::invalid_argument("protocol is required")) }
}

/// A rule's action; unknown or unspecified values are refused.
pub fn firewall_action(value: i32) -> (r: Result<FirewallAction, Status>)
    ensures
        match action_of(value) {
            Some(a) => r == Ok::<FirewallAction, Status>(a),
            None => r matches Err(e) && e.code == Code::InvalidArgument && e.message@ == "action is required"@,
        },
{
    if value == 1 { Ok(FirewallAction::Allow) }
    else if value == 2 { Ok(FirewallAction::Deny) }
    else if value == 3 { Ok(FirewallAction::Reject) }
    else { Err(Status::invalid_argument("action is required")) }
}

/// A rule's direction; unknown or unspecified values are refused.
pub fn firewall_direction(value: i32) -> (r: Result<FirewallDirection, Status>)
    ensures
        match direction_of(value) {
            Some(d) => r == Ok::<FirewallDirection, Status>(d),
            None => r matches Err(e) && e.code == Code::InvalidArgument && e.message@ == "direction is required"@,
        },
{
    if value == 1 { Ok(FirewallDirection::Inbound) }
    else if value == 2 { Ok(FirewallDirection::Outbound) }
    else { Err(Status::invalid_argument("direction is required")) }
}

/// A backend preference; unknown values are refused, unspecified is kept.
pub fn firewall_backend(value: i32) -> (r: Result<FirewallBackend, Status>)
    ensures
        match backend_of(value) {
            Some(b) => r == Ok::<FirewallBackend, Status>(b),
            None => r matches Err(e) && e.code == Code::InvalidArgument && e.message@ == "backend preference is invalid"@,
        },
{
    if value == 0 { Ok(FirewallBackend::Unspecified) }
    else if value == 1 { Ok(FirewallBackend::Ufw) }
    else if value == 2 { Ok(FirewallBackend::Firewalld) }
    else if value == 3 { Ok(FirewallBackend::Iptables) }
    else { Err(Status::invalid_argument("backend preference is invalid")) }
}

/// A WAF rule's kind; unknown or unspecified values are refused.
pub fn waf_rule_kind(value: i32) -> (r: Result<WafRuleKind, Status>)
    ensures
        match waf_kind_of(value) {
            Some(k) => r == Ok::<WafRuleKind, Status>(k),
            None => r matches Err(e) && e.code == Code::InvalidArgument && e.message@ == "waf rule kind is required"@,
        },
{
    if value == 1 { Ok(WafRuleKind::Cc) }
    else if value == 2 { Ok(WafRuleKind::SqlInjection) }
    else if value == 3 { Ok(WafRuleKind::Xss) }
    else if value == 4 { Ok(WafRuleKind::Keyword) }
    else if value == 5 { Ok(WafRuleKind::Scanner) }
    else { Err(Status::invalid_argument("waf rule kind is required")) }
}

pub open spec fn protocol_name_spec(p: FirewallProtocol) -> Seq<char> {
    match p {
        FirewallProtocol::Tcp => "tcp"@,
        FirewallProtocol::Udp => "udp"@,
        FirewallProtocol::Icmp => "icmp"@,
        FirewallProtocol::Unspecified => "unspecified"@,
    }
}

pub fn protocol_name(protocol: FirewallProtocol) -> (r: &'static str)
    ensures
        r@ == protocol_name_spec(protocol),
{
    match protocol {
        FirewallProtocol::Tcp => "tcp",
        FirewallProtocol::Udp => "udp",
        FirewallProtocol::Icmp => "icmp",
        FirewallProtocol::Unspecified => "unspecified",
    }
}

pub open spec fn backend_name_spec(b: FirewallBackend) -> Seq<char> {
    match b {
        FirewallBackend::Ufw => "ufw"@,
        FirewallBackend::Firewalld => "firewalld"@,
        FirewallBackend::Iptables => "iptables"@,
        FirewallBackend::Unspecified => "unspecified"@,
    }
}

pub fn backend_name(backend: FirewallBackend) -> (r: &'static str)
    ensures
        r@ == backend_name_spec(backend),
{
    match backend {
        FirewallBackend::Ufw => "ufw",
        FirewallBackend::Firewalld => "firewalld",
        FirewallBackend::Iptables => "iptables",
        FirewallBackend::Unspecified => "unspecified",
    }
}

pub open spec fn waf_kind_name_spec(k: WafRuleKind) -> Seq<char> {
    match k {
        WafRuleKind::Cc => "cc"@,
        WafRuleKind::SqlInjection => "sql-injection"@,
        WafRuleKind::Xss => "xss"@,
        WafRuleKind::Keyword => "keyword"@,
        WafRuleKind::Scanner => "scanner"@,
        WafRuleKind::Unspecified => "unspecified"@,
    }
}

pub fn waf_kind_name(kind: WafRuleKind) -> (r: &'static str)
    ensures
        r@ == waf_kind_name_spec(kind),
{
    match kind {
        WafRuleKind::Cc => "cc",
        WafRuleKind::SqlInjection => "sql-injection",
        WafRuleKind::Xss => "xss",
        WafRuleKind::Keyword => "keyword",
        WafRuleKind::Scanner => "scanner",
        WafRuleKind::Unspecified => "unspecified",
    }
}

/// A firewall rule as clients send it.
#[derive(Clone, Debug)]
pub struct FirewallRule {
    pub id: String,
    pub name: String,
    pub protocol: i32,
    pub action: i32,
    pub direction: i32,
    pub port_start: u32,
    pub port_end: u32,
    pub source: String,
    pub destination: String,
    pub enabled: bool,
    pub comment: String,
    pub created_at_seconds: u64,
    pub updated_at_seconds: u64,
}

/// A firewall rule as the store keeps it.
#[derive(Clone, Debug)]
pub struct StoredFirewallRule {
    pub id: String,
    pub name: String,
    pub protocol: i32,
    pub action: i32,
    pub direction: i32,
    pub port_start: u32,
    pub port_end: u32,
    pub source: String,
    pub destination: String,
    pub enabled: bool,
    pub comment: String,
    pub created_at_seconds: u64,
    pub updated_at_seconds: u64,
}

impl StoredFirewallRule {
    pub fn from_proto(rule: FirewallRule) -> (r: Self)
        ensures
            r.id == rule.id && r.name == rule.name && r.protocol == rule.protocol && r.action
                == rule.action && r.direction == rule.direction && r.port_start == rule.port_start
                && r.port_end == rule.port_end && r.source == rule.source && r.destination
                == rule.destination && r.enabled == rule.enabled && r.comment == rule.comment
                && r.created_at_seconds == rule.created_at_seconds && r.updated_at_seconds
                == rule.updated_at_seconds,
    {
        StoredFirewallRule {
            id: rule.id,
            name: rule.name,
            protocol: rule.protocol,
            action: rule.action,
            direction: rule.direction,
            port_start: rule.port_start,
            port_end: rule.port_end,
            source: rule.source,
            destination: rule.destination,
            enabled: rule.enabled,
            comment: rule.comment,
            created_at_seconds: rule.created_at_seconds,
            updated_at_seconds: rule.updated_at_seconds,
        }
    }

    pub fn into_proto(self) -> (r: FirewallRule)
        ensures
            r.id == self.id && r.name == self.name && r.protocol == self.protocol && r.action
                == self.action && r.direction == self.direction && r.port_start == self.port_start
                && r.port_end == self.port_end && r.source == self.source && r.destination
                == self.destination && r.enabled == self.enabled && r.comment == self.comment
                && r.created_at_seconds == self.created_at_seconds && r.updated_at_seconds
                == self.updated_at_seconds,
    {
        FirewallRule {
            id: self.id,
            name: self.name,
            protocol: self.protocol,
            action: self.action,
            direction: self.direction,
            port_start: self.port_start,
            port_end: self.port_end,
            source: self.source,
            destination: self.destination,
            enabled: self.enabled,
            comment: self.comment,
            created_at_seconds: self.created_at_seconds,
            updated_at_seconds: self.updated_at_seconds,
        }
    }
}

/// A program with its arguments.
#[derive(Clone, Debug, PartialEq, Eq)]
pub struct FirewallCommand {
    pub program: String,
    pub args: Vec<String>,
}

pub open spec fn command_view(c: FirewallCommand) -> (Seq<char>, Seq<Seq<char>>) {
    (c.program@, views(c.args@))
}

impl FirewallCommand {
    pub fn new(program: &str, args: Vec<String>) -> (r: Self)
        ensures
            r.program@ == program@,
            r.args == args,
    {
        FirewallCommand { program: program.to_string(), args }
    }
}

/// `any` for an empty endpoint, the trimmed endpoint otherwise.
pub open spec fn endpoint_spec(value: Seq<char>) -> Seq<char> {
    if trim_seq(value).len() == 0 { "any"@ } else { trim_seq(value) }
}

pub fn firewall_endpoint(value: &str) -> (r: String)
    ensures
        r@ == endpoint_spec(value@),
{
    let t = trim(value);
    if t.as_str().is_empty() {
        "any".to_string()
    } else {
        t
    }
}

/// One port, or `start<sep>end` for a range.
pub open spec fn ports_spec(start: u32, end: u32, sep: Seq<char>) -> Seq<char> {
    if end == 0 || end == start {
        dec(start as nat)
    } else {
        dec(start as nat) + sep + dec(end as nat)
    }
}

fn ports_text(start: u32, end: u32, sep: &str) -> (r: String)
    ensures
        r@ == ports_spec(start, end, sep@),
{
    let mut s = u64_text(start as u64);
    if !(end == 0 || end == start) {
        s.append(sep);
        crate::text::push_u64(&mut s, end as u64);
    }
    s
}

/// The port range as ufw and iptables write it (`a:b`).
pub fn port_range(rule: &StoredFirewallRule) -> (r: String)
    ensures
        r@ == ports_spec(rule.port_start, rule.port_end, ":"@),
{
    ports_text(rule.port_start, rule.port_end, ":")
}

/// The port range as firewalld writes it (`a-b`).
pub fn firewalld_port(rule: &StoredFirewallRule) -> (r: String)
    ensures
        r@ == ports_spec(rule.port_start, rule.port_end, "-"@),
{
    ports_text(rule.port_start, rule.port_end, "-")
}

/// An IPv6 address appears on either side.
pub open spec fn is_v6_rule(rule: StoredFirewallRule) -> bool {
    has_char(rule.source@, ':') || has_char(rule.destination@, ':')
}

fn v6_rule(rule: &StoredFirewallRule) -> (r: bool)
    ensures
        r == is_v6_rule(*rule),
{
    has_char_exec(&chars_of(rule.source.as_str()), ':') || has_char_exec(&chars_of(rule.destination.as_str()), ':')
}

pub fn iptables_program(rule: &StoredFirewallRule) -> (r: &'static str)
    ensures
        r@ == if is_v6_rule(*rule) { "ip6tables"@ } else { "iptables"@ },
{
    if v6_rule(rule) { "ip6tables" } else { "iptables" }
}

pub fn ip_family(rule: &StoredFirewallRule) -> (r: &'static str)
    ensures
        r@ == if is_v6_rule(*rule) { "ipv6"@ } else { "ipv4"@ },
{
    if v6_rule(rule) { "ipv6" } else { "ipv4" }
}

/// Backslashes doubled, as inside an nginx quoted regex.
pub fn escape_nginx_regex(pattern: &str) -> (r: String)
    ensures
        r@ == replace_char(pattern@, '\\', "\\\\"@),
{
    replace_char_str(pattern, '\\', "\\\\")
}

fn push_arg(args: &mut Vec<String>, a: &str)
    ensures
        views(final(args)@) == views(old(args)@).push(a@),
{
    let ghost v0 = views(args@);
    args.push(a.to_string());
    assert(views(args@) =~= v0.push(a@));
}

/// The arguments of a ufw command for the rule.
pub open spec fn ufw_args_spec(rule: StoredFirewallRule, op: FirewallOperation, p: FirewallProtocol, action: Seq<char>, outbound: bool) -> Seq<Seq<char>> {
    (if op == FirewallOperation::Delete { seq!["delete"@] } else { Seq::empty() })
        + seq![action]
        + (if outbound { seq!["out"@] } else { Seq::empty() })
        + seq!["proto"@, protocol_name_spec(p), "from"@, endpoint_spec(rule.source@), "to"@, endpoint_spec(rule.destination@), "port"@, ports_spec(rule.port_start, rule.port_end, ":"@)]
        + (if !all_ws(rule.comment@) && op == FirewallOperation::Add { seq!["comment"@, trim_seq(rule.comment@)] } else { Seq::empty() })
}

pub open spec fn ufw_action_word(a: FirewallAction) -> Seq<char> {
    match a {
        FirewallAction::Allow => "allow"@,
        FirewallAction::Deny => "deny"@,
        _ => "reject"@,
    }
}

/// The ufw command for the rule. ICMP rules need firewalld or iptables.
pub fn build_ufw_rule_commands(rule: &StoredFirewallRule, operation: FirewallOperation) -> (r: Result<Vec<FirewallCommand>, Status>)
    ensures
        protocol_of(rule.protocol) is None ==> (r matches Err(e) && e.code == Code::InvalidArgument),
        protocol_of(rule.protocol) == Some(FirewallProtocol::Icmp) ==> (r matches Err(e) && e.code == Code::Unimplemented),
        match protocol_of(rule.protocol) {
            Some(p) => p != FirewallProtocol::Icmp ==> (
                if action_of(rule.action) is None || direction_of(rule.direction) is None {
                    r matches Err(e) && e.code == Code::InvalidArgument
                } else {
                    r matches Ok(v) && v@.len() == 1 && v@[0].program@ == "ufw"@ && views(v@[0].args@) == ufw_args_spec(
                        *rule, operation, p, ufw_action_word(action_of(rule.action).unwrap()),
                        direction_of(rule.direction) == Some(FirewallDirection::Outbound))
                }),
            None => true,
        },
{
    let protocol = firewall_protocol(rule.protocol)?;
    if protocol == FirewallProtocol::Icmp {
        return Err(Status::new(Code::Unimplemented, "per-rule ICMP management requires firewalld or iptables"));
    }
    let action = match firewall_action(rule.action)? {
        FirewallAction::Allow => "allow",
        FirewallAction::Deny => "deny",
        FirewallAction::Reject => "reject",
        FirewallAction::Unspecified => {
            return Err(Status::invalid_argument("action is required"));
        },
    };
    let direction = firewall_direction(rule.direction)?;
    let mut args: Vec<String> = Vec::new();
    if operation == FirewallOperation::Delete {
        push_arg(&mut args, "delete");
    }
    push_arg(&mut args, action);
    if direction == FirewallDirection::Outbound {
        push_arg(&mut args, "out");
    }
    push_arg(&mut args, "proto");
    push_arg(&mut args, protocol_name(protocol));
    push_arg(&mut args, "from");
    let src = firewall_endpoint(rule.source.as_str());
    push_arg(&mut args, src.as_str());
    push_arg(&mut args, "to");
    let dst = firewall_endpoint(rule.destination.as_str());
    push_arg(&mut args, dst.as_str());
    push_arg(&mut args, "port");
    let ports = port_range(rule);
    push_arg(&mut args, ports.as_str());
    if !is_blank(rule.comment.as_str()) && operation == FirewallOperation::Add {
        push_arg(&mut args, "comment");
        let c = trim(rule.comment.as_str());
        push_arg(&mut args, c.as_str());
    }
    let ghost a = ufw_action_word(action_of(rule.action).unwrap());
    assert(views(args@) =~= ufw_args_spec(*rule, operation, protocol, a, direction == FirewallDirection::Outbound));
    Ok(vec![FirewallCommand::new("ufw", args)])
}

/// The firewalld rich rule for the rule.
pub open spec fn rich_rule_spec(rule: StoredFirewallRule, p: FirewallProtocol, a: FirewallAction) -> Seq<char> {
    let family = if is_v6_rule(rule) { "ipv6"@ } else { "ipv4"@ };
    let action = match a {
        FirewallAction::Allow => "accept"@,
        FirewallAction::Deny => "drop"@,
        _ => "reject"@,
    };
    "rule family=\""@ + family + "\""@
        + address_part_spec(rule.source@, " source address=\""@)
        + address_part_spec(rule.destination@, " destination address=\""@)
        + rich_protocol_spec(rule, p)
        + " "@ + action
}

/// `prefix` with the trimmed address and a closing quote, or nothing for a
/// blank address.
pub open spec fn address_part_spec(value: Seq<char>, prefix: Seq<char>) -> Seq<char> {
    if !all_ws(value) { prefix + trim_seq(value) + "\""@ } else { Seq::empty() }
}

fn address_part(value: &str, prefix: &str) -> (r: String)
    ensures
        r@ == address_part_spec(value@, prefix@),
{
    if is_blank(value) {
        String::new()
    } else {
        let mut s = prefix.to_string();
        let t = trim(value);
        s.append(t.as_str());
        s.append("\"");
        s
    }
}

pub open spec fn rich_protocol_spec(rule: StoredFirewallRule, p: FirewallProtocol) -> Seq<char> {
    if p == FirewallProtocol::Icmp { " protocol value=\"icmp\""@ } else {
        " port port=\""@ + ports_spec(rule.port_start, rule.port_end, "-"@) + "\" protocol=\""@ + protocol_name_spec(p) + "\""@
    }
}

fn rich_protocol_part(rule: &StoredFirewallRule, protocol: FirewallProtocol) -> (r: String)
    ensures
        r@ == rich_protocol_spec(*rule, protocol),
{
    if protocol == FirewallProtocol::Icmp {
        " protocol value=\"icmp\"".to_string()
    } else {
        let mut s = " port port=\"".to_string();
        let p = firewalld_port(rule);
        s.append(p.as_str());
        s.append("\" protocol=\"");
        s.append(protocol_name(protocol));
        s.append("\"");
        s
    }
}

/// The firewalld rich rule text of a rule.
pub fn firewalld_rich_rule(rule: &StoredFirewallRule) -> (r: Result<String, Status>)
    ensures
        protocol_of(rule.protocol) is None || action_of(rule.action) is None ==> (r matches Err(e) && e.code == Code::InvalidArgument),
        match (protocol_of(rule.protocol), action_of(rule.action)) {
            (Some(p), Some(a)) => r matches Ok(s) && s@ == rich_rule_spec(*rule, p, a),
            _ => true,
        },
{
    let protocol = firewall_protocol(rule.protocol)?;
    let a = firewall_action(rule.action)?;
    let action = match a {
        FirewallAction::Allow => "accept",
        FirewallAction::Deny => "drop",
        FirewallAction::Reject => "reject",
        FirewallAction::Unspecified => {
            return Err(Status::invalid_argument("action is required"));
        },
    };
    let mut s = "rule family=\"".to_string();
    s.append(ip_family(rule));
    s.append("\"");
    let src = address_part(rule.source.as_str(), " source address=\"");
    s.append(src.as_str());
    let dst = address_part(rule.destination.as_str(), " destination address=\"");
    s.append(dst.as_str());
    let tail = rich_protocol_part(rule, protocol);
    s.append(tail.as_str());
    s.append(" ");
    s.append(action);
    assert(s@ =~= rich_rule_spec(*rule, protocol, a));
    Ok(s)
}

/// The firewalld commands: change the permanent rule set, then reload.
pub fn build_firewalld_rule_commands(rule: &StoredFirewallRule, operation: FirewallOperation) -> (r: Result<Vec<FirewallCommand>, Status>)
    ensures
        protocol_of(rule.protocol) is None || action_of(rule.action) is None ==> r is Err,
        match (protocol_of(rule.protocol), action_of(rule.action)) {
            (Some(p), Some(a)) => r matches Ok(v)
                && v@.len() == 2
                && command_view(v@[0]) == ("firewall-cmd"@, seq!["--permanent"@, (if operation == FirewallOperation::Add { "--add-rich-rule"@ } else { "--remove-rich-rule"@ }) + "="@ + rich_rule_spec(*rule, p, a)])
                && command_view(v@[1]) == ("firewall-cmd"@, seq!["--reload"@]),
            _ => true,
        },
{
    let rich = firewalld_rich_rule(rule)?;
    let switch = match operation {
        FirewallOperation::Add => "--add-rich-rule",
        FirewallOperation::Delete => "--remove-rich-rule",
    };
    let mut a1: Vec<String> = Vec::new();
    push_arg(&mut a1, "--permanent");
    let mut sw = switch.to_string();
    sw.append("=");
    sw.append(rich.as_str());
    push_arg(&mut a1, sw.as_str());
    let mut a2: Vec<String> = Vec::new();
    push_arg(&mut a2, "--reload");
    let c1 = FirewallCommand::new("firewall-cmd", a1);
    let c2 = FirewallCommand::new("firewall-cmd", a2);
    assert(views(c1.args@) =~= seq!["--permanent"@, sw@]);
    assert(views(c2.args@) =~= seq!["--reload"@]);
    Ok(vec![c1, c2])
}

/// The iptables arguments for the rule.
pub open spec fn iptables_args_spec(rule: StoredFirewallRule, op: FirewallOperation, p: FirewallProtocol, d: FirewallDirection, a: FirewallAction) -> Seq<Seq<char>> {
    let chain = if d == FirewallDirection::Inbound { "INPUT"@ } else { "OUTPUT"@ };
    let target = match a {
        FirewallAction::Allow => "ACCEPT"@,
        FirewallAction::Deny => "DROP"@,
        _ => "REJECT"@,
    };
    seq![if op == FirewallOperation::Add { "-A"@ } else { "-D"@ }, chain, "-p"@, protocol_name_spec(p)]
        + (if !all_ws(rule.source@) { seq!["-s"@, trim_seq(rule.source@)] } else { Seq::empty() })
        + (if !all_ws(rule.destination@) { seq!["-d"@, trim_seq(rule.destination@)] } else { Seq::empty() })
        + (if p == FirewallProtocol::Tcp || p == FirewallProtocol::Udp { seq!["--dport"@, ports_spec(rule.port_start, rule.port_end, ":"@)] } else { Seq::empty() })
        + seq!["-m"@, "comment"@, "--comment"@, "rustpanel:"@ + rule.id@, "-j"@, target]
}

/// Deleting takes out what adding put in: the add command appends the rule
/// (`-A`), the delete command removes it (`-D`), and the two argument lists
/// are otherwise the same, word for word.
pub proof fn law_iptables_delete_matches_add(
    rule: StoredFirewallRule,
    p: FirewallProtocol,
    d: FirewallDirection,
    a: FirewallAction,
)
    ensures
        iptables_args_spec(rule, FirewallOperation::Add, p, d, a)[0] == "-A"@,
        iptables_args_spec(rule, FirewallOperation::Delete, p, d, a)[0] == "-D"@,
        iptables_args_spec(rule, FirewallOperation::Delete, p, d, a) == iptables_args_spec(
            rule,
            FirewallOperation::Add,
            p,
            d,
            a,
        ).update(0, "-D"@),
{
    let add = iptables_args_spec(rule, FirewallOperation::Add, p, d, a);
    let del = iptables_args_spec(rule, FirewallOperation::Delete, p, d, a);
    assert(del =~= add.update(0, "-D"@));
}

/// The iptables (or ip6tables) command for the rule, tagged with its id.
pub fn build_iptables_rule_commands(rule: &StoredFirewallRule, operation: FirewallOperation) -> (r: Result<Vec<FirewallCommand>, Status>)
    ensures
        protocol_of(rule.protocol) is None || direction_of(rule.direction) is None || action_of(rule.action) is None ==> (r matches Err(e) && e.code == Code::InvalidArgument),
        match (protocol_of(rule.protocol), direction_of(rule.direction), action_of(rule.action)) {
            (Some(p), Some(d), Some(a)) => r matches Ok(v)
                && v@.len() == 1
                && v@[0].program@ == (if is_v6_rule(*rule) { "ip6tables"@ } else { "iptables"@ })
                && views(v@[0].args@) == iptables_args_spec(*rule, operation, p, d, a),
            _ => true,
        },
{
    let protocol = firewall_protocol(rule.protocol)?;
    let d = firewall_direction(rule.direction)?;
    let chain = match d {
        FirewallDirection::Inbound => "INPUT",
        FirewallDirection::Outbound => "OUTPUT",
        FirewallDirection::Unspecified => {
            return Err(Status::invalid_argument("direction is required"));
        },
    };
    let a = firewall_action(rule.action)?;
    let target = match a {
        FirewallAction::Allow => "ACCEPT",
        FirewallAction::Deny => "DROP",
        FirewallAction::Reject => "REJECT",
        FirewallAction::Unspecified => {
            return Err(Status::invalid_argument("action is required"));
        },
    };
    let mut args: Vec<String> = Vec::new();
    push_arg(&mut args, match operation {
        FirewallOperation::Add => "-A",
        FirewallOperation::Delete => "-D",
    });
    push_arg(&mut args, chain);
    push_arg(&mut args, "-p");
    push_arg(&mut args, protocol_name(protocol));
    if !is_blank(rule.source.as_str()) {
        push_arg(&mut args, "-s");
        let t = trim(rule.source.as_str());
        push_arg(&mut args, t.as_str());
    }
    if !is_blank(rule.destination.as_str()) {
        push_arg(&mut args, "-d");
        let t = trim(rule.destination.as_str());
        push_arg(&mut args, t.as_str());
    }
    if protocol == FirewallProtocol::Tcp || protocol == FirewallProtocol::Udp {
        push_arg(&mut args, "--dport");
        let ports = port_range(rule);
        push_arg(&mut args, ports.as_str());
    }
    push_arg(&mut args, "-m");
    push_arg(&mut args, "comment");
    push_arg(&mut args, "--comment");
    let mut tag = "rustpanel:".to_string();
    tag.append(rule.id.as_str());
    push_arg(&mut args, tag.as_str());
    push_arg(&mut args, "-j");
    push_arg(&mut args, target);
    assert(views(args@) =~= iptables_args_spec(*rule, operation, protocol, d, a));
    Ok(vec![FirewallCommand::new(iptables_program(rule), args)])
}

/// The commands, as values, that a backend uses for a rule; none when the
/// backend cannot express it.
pub open spec fn rule_commands_spec(backend: FirewallBackend, rule: StoredFirewallRule, op: FirewallOperation) -> Option<Seq<(Seq<char>, Seq<Seq<char>>)>> {
    match backend {
        FirewallBackend::Ufw => match (protocol_of(rule.protocol), action_of(rule.action), direction_of(rule.direction)) {
            (Some(p), Some(a), Some(d)) => if p == FirewallProtocol::Icmp {
                None
            } else {
                Some(seq![("ufw"@, ufw_args_spec(rule, op, p, ufw_action_word(a), d == FirewallDirection::Outbound))])
            },
            _ => None,
        },
        FirewallBackend::Firewalld => match (protocol_of(rule.protocol), action_of(rule.action)) {
            (Some(p), Some(a)) => Some(seq![
                ("firewall-cmd"@, seq!["--permanent"@, (if op == FirewallOperation::Add { "--add-rich-rule"@ } else {
                    "--remove-rich-rule"@
                }) + "="@ + rich_rule_spec(rule, p, a)]),
                ("firewall-cmd"@, seq!["--reload"@]),
            ]),
            _ => None,
        },
        FirewallBackend::Iptables => match (protocol_of(rule.protocol), direction_of(rule.direction), action_of(rule.action)) {
            (Some(p), Some(d), Some(a)) => Some(seq![(
                (if is_v6_rule(rule) { "ip6tables"@ } else { "iptables"@ }),
                iptables_args_spec(rule, op, p, d, a),
            )]),
            _ => None,
        },
        FirewallBackend::Unspecified => None,
    }
}

pub open spec fn command_views(v: Seq<FirewallCommand>) -> Seq<(Seq<char>, Seq<Seq<char>>)> {
    v.map_values(|c: FirewallCommand| command_view(c))
}

/// The commands of the chosen backend for the rule.
pub fn build_rule_commands(backend: FirewallBackend, rule: &StoredFirewallRule, operation: FirewallOperation) -> (r: Result<Vec<FirewallCommand>, Status>)
    ensures
        backend == FirewallBackend::Unspecified ==> (r matches Err(e) && e.code == Code::FailedPrecondition),
        match rule_commands_spec(backend, *rule, operation) {
            Some(cs) => r matches Ok(v) && command_views(v@) == cs,
            None => r is Err,
        },
{
    let r = match backend {
        FirewallBackend::Ufw => build_ufw_rule_commands(rule, operation),
        FirewallBackend::Firewalld => build_firewalld_rule_commands(rule, operation),
        FirewallBackend::Iptables => build_iptables_rule_commands(rule, operation),
        FirewallBackend::Unspecified => Err(Status::failed_precondition("firewall backend is required")),
    };
    proof {
        if r is Ok && rule_commands_spec(backend, *rule, operation) is Some {
            let v = r->Ok_0;
            assert(command_views(v@) =~= rule_commands_spec(backend, *rule, operation).unwrap());
        }
    }
    r
}

/// The two iptables commands of the port-scan protection: remember new
/// TCP connections, drop a source that opens `burst` within the window.
pub fn scan_protection_commands(scan_burst: u32, scan_window_seconds: u32) -> (r: Vec<FirewallCommand>)
    ensures
        r@.len() == 2,
        command_view(r@[0]) == ("iptables"@, seq!["-A"@, "INPUT"@, "-p"@, "tcp"@, "--syn"@, "-m"@, "recent"@, "--name"@, "rustpanel_scan"@, "--set"@]),
        command_view(r@[1]) == ("iptables"@, seq!["-A"@, "INPUT"@, "-p"@, "tcp"@, "--syn"@, "-m"@, "recent"@, "--name"@, "rustpanel_scan"@, "--update"@, "--seconds"@,
            dec((if scan_window_seconds >= 1 { scan_window_seconds } else { 1 }) as nat), "--hitcount"@,
            dec((if scan_burst >= 2 { scan_burst } else { 2 }) as nat), "-j"@, "DROP"@]),
{
    let mut a1: Vec<String> = Vec::new();
    push_arg(&mut a1, "-A");
    push_arg(&mut a1, "INPUT");
    push_arg(&mut a1, "-p");
    push_arg(&mut a1, "tcp");
    push_arg(&mut a1, "--syn");
    push_arg(&mut a1, "-m");
    push_arg(&mut a1, "recent");
    push_arg(&mut a1, "--name");
    push_arg(&mut a1, "rustpanel_scan");
    push_arg(&mut a1, "--set");
    let mut a2: Vec<String> = Vec::new();
    push_arg(&mut a2, "-A");
    push_arg(&mut a2, "INPUT");
    push_arg(&mut a2, "-p");
    push_arg(&mut a2, "tcp");
    push_arg(&mut a2, "--syn");
    push_arg(&mut a2, "-m");
    push_arg(&mut a2, "recent");
    push_arg(&mut a2, "--name");
    push_arg(&mut a2, "rustpanel_scan");
    push_arg(&mut a2, "--update");
    push_arg(&mut a2, "--seconds");
    let w = u64_text((if scan_window_seconds >= 1 { scan_window_seconds } else { 1 }) as u64);
    push_arg(&mut a2, w.as_str());
    push_arg(&mut a2, "--hitcount");
    let b = u64_text((if scan_burst >= 2 { scan_burst } else { 2 }) as u64);
    push_arg(&mut a2, b.as_str());
    push_arg(&mut a2, "-j");
    push_arg(&mut a2, "DROP");
    let c1 = FirewallCommand::new("iptables", a1);
    let c2 = FirewallCommand::new("iptables", a2);
    assert(views(c1.args@) =~= seq!["-A"@, "INPUT"@, "-p"@, "tcp"@, "--syn"@, "-m"@, "recent"@, "--name"@, "rustpanel_scan"@, "--set"@]);
    assert(views(c2.args@) =~= seq!["-A"@, "INPUT"@, "-p"@, "tcp"@, "--syn"@, "-m"@, "recent"@, "--name"@, "rustpanel_scan"@, "--update"@, "--seconds"@,
            w@, "--hitcount"@, b@, "-j"@, "DROP"@]);
    vec![c1, c2]
}


pub const DEFAULT_SCAN_BURST: u32 = 20;
pub const DEFAULT_SCAN_WINDOW_SECONDS: u32 = 60;
pub const WAF_CONFIG_FILE: &'static str = "/tmp/rustpanel/security/nginx-waf.conf";
pub const WAF_CHALLENGE_FILE: &'static str = "/tmp/rustpanel/security/waf-challenge.html";
pub const SSH_CONFIG_FILE: &'static str = "/tmp/rustpanel/security/sshd-rustpanel.conf";
pub const SSH_KEY_ROOT: &'static str = "/tmp/rustpanel/security/ssh-keys";

/// WAF settings as clients send them.
#[derive(Clone, Debug)]
pub struct WafSettings {
    pub enabled: bool,
    pub cc_protection_enabled: bool,
    pub captcha_challenge_enabled: bool,
    pub requests_per_minute: u32,
    pub burst: u32,
    pub block_duration_seconds: u32,
    pub nginx_config_path: String,
    pub challenge_page_path: String,
    pub last_apply_message: String,
}

/// WAF settings as the store keeps them.
#[derive(Clone, Debug)]
pub struct StoredWafSettings {
    pub enabled: bool,
    pub cc_protection_enabled: bool,
    pub captcha_challenge_enabled: bool,
    pub requests_per_minute: u32,
    pub burst: u32,
    pub block_duration_seconds: u32,
    pub nginx_config_path: String,
    pub challenge_page_path: String,
    pub last_apply_message: String,
}

impl Default for StoredWafSettings {
    /// WAF off, CC protection and the challenge page armed, default limits
    /// and the default file locations.
    fn default() -> (r: Self)
        ensures
            !r.enabled && r.cc_protection_enabled && r.captcha_challenge_enabled,
            r.requests_per_minute == DEFAULT_WAF_REQUESTS_PER_MINUTE,
            r.burst == DEFAULT_WAF_BURST,
            r.block_duration_seconds == DEFAULT_WAF_BLOCK_SECONDS,
            r.nginx_config_path@ == WAF_CONFIG_FILE@,
            r.challenge_page_path@ == WAF_CHALLENGE_FILE@,
            r.last_apply_message@ == "waf config not written yet"@,
    {
        StoredWafSettings {
            enabled: false,
            cc_protection_enabled: true,
            captcha_challenge_enabled: true,
            requests_per_minute: DEFAULT_WAF_REQUESTS_PER_MINUTE,
            burst: DEFAULT_WAF_BURST,
            block_duration_seconds: DEFAULT_WAF_BLOCK_SECONDS,
            nginx_config_path: WAF_CONFIG_FILE.to_string(),
            challenge_page_path: WAF_CHALLENGE_FILE.to_string(),
            last_apply_message: "waf config not written yet".to_string(),
        }
    }
}

/// `value`, or `fallback` where `value` is blank.
pub open spec fn or_default_path(value: Seq<char>, fallback: Seq<char>) -> Seq<char> {
    if all_ws(value) { fallback } else { value }
}

impl StoredWafSettings {
    /// Blank paths fall back to the default locations.
    pub fn from_proto(settings: WafSettings) -> (r: Self)
        ensures
            r.enabled == settings.enabled,
            r.cc_protection_enabled == settings.cc_protection_enabled,
            r.captcha_challenge_enabled == settings.captcha_challenge_enabled,
            r.requests_per_minute == settings.requests_per_minute,
            r.burst == settings.burst,
            r.block_duration_seconds == settings.block_duration_seconds,
            r.nginx_config_path@ == or_default_path(settings.nginx_config_path@, WAF_CONFIG_FILE@),
            r.challenge_page_path@ == or_default_path(settings.challenge_page_path@, WAF_CHALLENGE_FILE@),
            r.last_apply_message == settings.last_apply_message,
    {
        let nginx_config_path = if is_blank(settings.nginx_config_path.as_str()) {
            WAF_CONFIG_FILE.to_string()
        } else {
            settings.nginx_config_path
        };
        let challenge_page_path = if is_blank(settings.challenge_page_path.as_str()) {
            WAF_CHALLENGE_FILE.to_string()
        } else {
            settings.challenge_page_path
        };
        StoredWafSettings {
            enabled: settings.enabled,
            cc_protection_enabled: settings.cc_protection_enabled,
            captcha_challenge_enabled: settings.captcha_challenge_enabled,
            requests_per_minute: settings.requests_per_minute,
            burst: settings.burst,
            block_duration_seconds: settings.block_duration_seconds,
            nginx_config_path,
            challenge_page_path,
            last_apply_message: settings.last_apply_message,
        }
    }

    pub fn into_proto(self) -> (r: WafSettings)
        ensures
            r.enabled == self.enabled,
            r.cc_protection_enabled == self.cc_protection_enabled,
            r.captcha_challenge_enabled == self.captcha_challenge_enabled,
            r.requests_per_minute == self.requests_per_minute,
            r.burst == self.burst,
            r.block_duration_seconds == self.block_duration_seconds,
            r.nginx_config_path == self.nginx_config_path,
            r.challenge_page_path == self.challenge_page_path,
            r.last_apply_message == self.last_apply_message,
    {
        WafSettings {
            enabled: self.enabled,
            cc_protection_enabled: self.cc_protection_enabled,
            captcha_challenge_enabled: self.captcha_challenge_enabled,
            requests_per_minute: self.requests_per_minute,
            burst: self.burst,
            block_duration_seconds: self.block_duration_seconds,
            nginx_config_path: self.nginx_config_path,
            challenge_page_path: self.challenge_page_path,
            last_apply_message: self.last_apply_message,
        }
    }
}

/// A WAF rule as clients send it.
#[derive(Clone, Debug)]
pub struct WafRule {
    pub id: String,
    pub name: String,
    pub kind: i32,
    pub pattern: String,
    pub enabled: bool,
    pub scope_domain: String,
    pub comment: String,
    pub created_at_seconds: u64,
    pub updated_at_seconds: u64,
}

/// A WAF rule as the store keeps it.
#[derive(Clone, Debug)]
pub struct StoredWafRule {
    pub id: String,
    pub name: String,
    pub kind: i32,
    pub pattern: String,
    pub enabled: bool,
    pub scope_domain: String,
    pub comment: String,
    pub created_at_seconds: u64,
    pub updated_at_seconds: u64,
}

impl StoredWafRule {
    pub fn from_proto(rule: WafRule) -> (r: Self)
        ensures
            r.id == rule.id && r.name == rule.name && r.kind == rule.kind && r.pattern == rule.pattern
                && r.enabled == rule.enabled && r.scope_domain == rule.scope_domain && r.comment
                == rule.comment && r.created_at_seconds == rule.created_at_seconds
                && r.updated_at_seconds == rule.updated_at_seconds,
    {
        StoredWafRule {
            id: rule.id,
            name: rule.name,
            kind: rule.kind,
            pattern: rule.pattern,
            enabled: rule.enabled,
            scope_domain: rule.scope_domain,
            comment: rule.comment,
            created_at_seconds: rule.created_at_seconds,
            updated_at_seconds: rule.updated_at_seconds,
        }
    }

    pub fn into_proto(self) -> (r: WafRule)
        ensures
            r.id == self.id && r.name == self.name && r.kind == self.kind && r.pattern == self.pattern
                && r.enabled == self.enabled && r.scope_domain == self.scope_domain && r.comment
                == self.comment && r.created_at_seconds == self.created_at_seconds
                && r.updated_at_seconds == self.updated_at_seconds,
    {
        WafRule {
            id: self.id,
            name: self.name,
            kind: self.kind,
            pattern: self.pattern,
            enabled: self.enabled,
            scope_domain: self.scope_domain,
            comment: self.comment,
            created_at_seconds: self.created_at_seconds,
            updated_at_seconds: self.updated_at_seconds,
        }
    }
}

/// Seconds since the epoch, zero when the clock reads earlier.
fn current_timestamp() -> (r: u64) {
    match crate::crypto::unix_now() {
        Some(t) => t,
        None => 0,
    }
}

fn preset_rule(id: &str, name: &str, kind: WafRuleKind, pattern: &str, comment: &str, now: u64) -> (r: StoredWafRule)
    requires
        kind != WafRuleKind::Unspecified,
    ensures
        r.id@ == id@ && r.name@ == name@ && waf_kind_of(r.kind) == Some(kind) && r.pattern@ == pattern@
            && r.enabled && r.scope_domain@.len() == 0 && r.comment@ == comment@
            && r.created_at_seconds == now && r.updated_at_seconds == now,
{
    let k: i32 = match kind {
        WafRuleKind::Cc => 1,
        WafRuleKind::SqlInjection => 2,
        WafRuleKind::Xss => 3,
        WafRuleKind::Keyword => 4,
        WafRuleKind::Scanner => 5,
        WafRuleKind::Unspecified => 0,
    };
    StoredWafRule {
        id: id.to_string(),
        name: name.to_string(),
        kind: k,
        pattern: pattern.to_string(),
        enabled: true,
        scope_domain: String::new(),
        comment: comment.to_string(),
        created_at_seconds: now,
        updated_at_seconds: now,
    }
}

/// The three preset rules (SQL injection, XSS, scanner paths), enabled and
/// stamped with one reading of the clock.
pub fn default_waf_rules() -> (r: Vec<StoredWafRule>)
    ensures
        r@.len() == 3,
        r@[0].id@ == "preset-sqli"@ && waf_kind_of(r@[0].kind) == Some(WafRuleKind::SqlInjection),
        r@[0].pattern@ == "(union(.*)select|select(.*)from|information_schema|sleep\\(|benchmark\\()"@,
        r@[1].id@ == "preset-xss"@ && waf_kind_of(r@[1].kind) == Some(WafRuleKind::Xss),
        r@[1].pattern@ == "(<script|javascript:|onerror=|onload=|document\\.cookie)"@,
        r@[2].id@ == "preset-scanner"@ && waf_kind_of(r@[2].kind) == Some(WafRuleKind::Scanner),
        r@[2].pattern@ == "(\\.env|wp-config\\.php|/phpmyadmin|/\\.git/|/vendor/phpunit)"@,
        forall|i: int| 0 <= i < 3 ==> (#[trigger] r@[i]).enabled && r@[i].scope_domain@.len() == 0
            && r@[i].created_at_seconds == r@[0].created_at_seconds
            && r@[i].updated_at_seconds == r@[0].created_at_seconds,
{
    let now = current_timestamp();
    let mut out: Vec<StoredWafRule> = Vec::new();
    out.push(preset_rule(
        "preset-sqli",
        "SQL 注入过滤",
        WafRuleKind::SqlInjection,
        "(union(.*)select|select(.*)from|information_schema|sleep\\(|benchmark\\()",
        "拦截常见 SQL 注入探测",
        now,
    ));
    out.push(preset_rule(
        "preset-xss",
        "XSS 过滤",
        WafRuleKind::Xss,
        "(<script|javascript:|onerror=|onload=|document\\.cookie)",
        "拦截常见脚本注入载荷",
        now,
    ));
    out.push(preset_rule(
        "preset-scanner",
        "扫描器拦截",
        WafRuleKind::Scanner,
        "(\\.env|wp-config\\.php|/phpmyadmin|/\\.git/|/vendor/phpunit)",
        "拦截恶意扫描路径",
        now,
    ));
    out
}

pub open spec fn at_least(v: u32, floor: u32) -> nat {
    if v >= floor { v as nat } else { floor as nat }
}

/// The rate-limit and challenge-page lines.
pub open spec fn waf_cc_spec(settings: StoredWafSettings) -> Seq<char> {
    "limit_req_zone $binary_remote_addr zone=rustpanel_cc:10m rate="@ + dec(at_least(settings.requests_per_minute, 1)) + "r/m;\n\n"@
        + "limit_req zone=rustpanel_cc burst="@ + dec(at_least(settings.burst, 1)) + " nodelay;\n"@
        + if settings.captcha_challenge_enabled {
            "error_page 429 = /rustpanel-waf-challenge.html;\n"@ + "location = /rustpanel-waf-challenge.html {\n"@
                + "    default_type text/html;\n"@ + "    alias "@ + replace_char(settings.challenge_page_path@, '\\', "\\\\"@) + ";\n"@
                + "}\n"@
        } else {
            Seq::empty()
        }
}

/// One `if` line matching `variable` against the rule's pattern.
pub open spec fn waf_if_line(variable: Seq<char>, rule: StoredWafRule, k: WafRuleKind) -> Seq<char> {
    "if ("@ + variable + " ~* \""@ + replace_char(rule.pattern@, '\\', "\\\\"@) + "\") { return "@
        + (if k == WafRuleKind::Cc { "429"@ } else { "403"@ }) + "; } # rustpanel:"@ + waf_kind_name_spec(k) + ":"@
        + rule.id@ + "\n"@
}

/// The lines of one enabled rule: the request URI always, the query string
/// too for SQL injection and XSS rules.
pub open spec fn waf_rule_spec(rule: StoredWafRule, k: WafRuleKind) -> Seq<char> {
    waf_if_line("$request_uri"@, rule, k) + if k == WafRuleKind::SqlInjection || k == WafRuleKind::Xss {
        waf_if_line("$query_string"@, rule, k)
    } else {
        Seq::empty()
    }
}

/// The lines of the enabled rules, in order.
pub open spec fn waf_rules_spec(rules: Seq<StoredWafRule>) -> Seq<char>
    decreases rules.len(),
{
    if rules.len() == 0 {
        Seq::empty()
    } else {
        let r = rules.last();
        waf_rules_spec(rules.drop_last()) + if r.enabled {
            match waf_kind_of(r.kind) {
                Some(k) => waf_rule_spec(r, k),
                None => Seq::empty(),
            }
        } else {
            Seq::empty()
        }
    }
}

/// An enabled rule whose kind is unknown.
pub open spec fn has_bad_enabled_rule(rules: Seq<StoredWafRule>) -> bool {
    exists|i: int| 0 <= i < rules.len() && (#[trigger] rules[i]).enabled && waf_kind_of(rules[i].kind) is None
}

pub open spec fn waf_header() -> Seq<char> {
    "# Generated by RustPanel. Include the zone line in http{} and the remaining lines in server{}.\n"@
}

fn waf_rule_text(rule: &StoredWafRule, kind: WafRuleKind, variable: &str) -> (r: String)
    ensures
        r@ == waf_if_line(variable@, *rule, kind),
{
    let mut s = "if (".to_string();
    s.append(variable);
    s.append(" ~* \"");
    let p = escape_nginx_regex(rule.pattern.as_str());
    s.append(p.as_str());
    s.append("\") { return ");
    s.append(if kind == WafRuleKind::Cc { "429" } else { "403" });
    s.append("; } # rustpanel:");
    s.append(waf_kind_name(kind));
    s.append(":");
    s.append(rule.id.as_str());
    s.append("\n");
    s
}

fn waf_cc_text(settings: &StoredWafSettings) -> (r: String)
    ensures
        r@ == waf_cc_spec(*settings),
{
    let mut s = "limit_req_zone $binary_remote_addr zone=rustpanel_cc:10m rate=".to_string();
    push_u64(&mut s, if settings.requests_per_minute >= 1 { settings.requests_per_minute as u64 } else { 1 });
    s.append("r/m;\n\n");
    s.append("limit_req zone=rustpanel_cc burst=");
    push_u64(&mut s, if settings.burst >= 1 { settings.burst as u64 } else { 1 });
    s.append(" nodelay;\n");
    let ghost head = s@;
    if settings.captcha_challenge_enabled {
        s.append("error_page 429 = /rustpanel-waf-challenge.html;\n");
        s.append("location = /rustpanel-waf-challenge.html {\n");
        s.append("    default_type text/html;\n");
        s.append("    alias ");
        let p = replace_char_str(settings.challenge_page_path.as_str(), '\\', "\\\\");
        s.append(p.as_str());
        s.append(";\n");
        s.append("}\n");
    }
    assert(s@ =~= waf_cc_spec(*settings));
    s
}

/// The nginx include of the WAF: the header line; the rate limit (and the
/// challenge page) when the WAF and CC protection are on; one or two `if`
/// lines per enabled rule when the WAF is on. An enabled rule of unknown kind
/// fails the whole rendering.
pub fn render_waf_nginx_config(settings: &StoredWafSettings, rules: &[StoredWafRule]) -> (r: Result<String, Status>)
    ensures
        settings.enabled && has_bad_enabled_rule(rules@) ==> (r matches Err(e) && e.code == Code::InvalidArgument
            && e.message@ == "waf rule kind is required"@),
        !(settings.enabled && has_bad_enabled_rule(rules@)) ==> (r matches Ok(c) && c@ == waf_header()
            + (if settings.enabled && settings.cc_protection_enabled { waf_cc_spec(*settings) } else { Seq::empty() })
            + (if settings.enabled { waf_rules_spec(rules@) } else { Seq::empty() })),
{
    let mut config = "# Generated by RustPanel. Include the zone line in http{} and the remaining lines in server{}.\n".to_string();
    if settings.enabled && settings.cc_protection_enabled {
        let cc = waf_cc_text(settings);
        config.append(cc.as_str());
    }
    if settings.enabled {
        let ghost start = config@;
        let mut i: usize = 0;
        while i < rules.len()
            invariant
                i <= rules@.len(),
                settings.enabled,
                !has_bad_enabled_rule(rules@.take(i as int)),
                config@ == start + waf_rules_spec(rules@.take(i as int)),
            decreases rules@.len() - i,
        {
            let ghost before = config@;
            assert(rules@.take(i + 1).drop_last() == rules@.take(i as int));
            assert(rules@.take(i + 1).last() == rules@[i as int]);
            let rule = &rules[i];
            if rule.enabled {
                let kind = match waf_rule_kind(rule.kind) {
                    Ok(k) => k,
                    Err(e) => {
                        assert(rules@[i as int].enabled && waf_kind_of(rules@[i as int].kind) is None);
                        assert(has_bad_enabled_rule(rules@));
                        return Err(e);
                    },
                };
                let line = waf_rule_text(rule, kind, "$request_uri");
                config.append(line.as_str());
                if kind == WafRuleKind::SqlInjection || kind == WafRuleKind::Xss {
                    let q = waf_rule_text(rule, kind, "$query_string");
                    config.append(q.as_str());
                }
                assert(config@ =~= before + waf_rule_spec(*rule, kind));
            } else {
                assert(config@ =~= before + Seq::<char>::empty());
            }
            assert(!has_bad_enabled_rule(rules@.take(i + 1))) by {
                if has_bad_enabled_rule(rules@.take(i + 1)) {
                    let j = choose|j: int| 0 <= j < i + 1 && (#[trigger] rules@.take(i + 1)[j]).enabled
                        && waf_kind_of(rules@.take(i + 1)[j].kind) is None;
                    if j < i {
                        assert(rules@.take(i as int)[j] == rules@.take(i + 1)[j]);
                    }
                }
            }
            i += 1;
        }
        assert(rules@.take(i as int) == rules@);
    }
    Ok(config)
}

/// The HTML of the browser check that the WAF's rate limit shows.
pub const WAF_CHALLENGE_PAGE: &'static str = "<!doctype html>\n<html lang=\"zh-CN\">\n<head><meta charset=\"utf-8\"><title>RustPanel WAF</title></head>\n<body>\n<main style=\"font-family:system-ui;padding:32px;max-width:520px;margin:auto\">\n<h1>访问验证</h1>\n<p>请求频率过高，请完成浏览器验证后继续。</p>\n<button onclick=\"document.cookie='rustpanel_waf_pass=1;path=/;max-age=600';location.reload()\">继续访问</button>\n</main>\n</body>\n</html>\n";

/// The page that the WAF's rate limit answers with.
pub fn waf_challenge_page() -> (r: &'static str)
    ensures
        r@ == WAF_CHALLENGE_PAGE@,
{
    WAF_CHALLENGE_PAGE
}

/// SSH settings as clients send them.
#[derive(Clone, Debug)]
pub struct SshSettings {
    pub service_enabled: bool,
    pub port: u32,
    pub password_login_disabled: bool,
    pub auto_ban_enabled: bool,
    pub failed_attempt_limit: u32,
    pub failed_attempt_window_seconds: u32,
    pub config_path: String,
    pub last_apply_message: String,
}

/// SSH settings as the store keeps them.
#[derive(Clone, Debug)]
pub struct StoredSshSettings {
    pub service_enabled: bool,
    pub port: u32,
    pub password_login_disabled: bool,
    pub auto_ban_enabled: bool,
    pub failed_attempt_limit: u32,
    pub failed_attempt_window_seconds: u32,
    pub config_path: String,
    pub last_apply_message: String,
}

impl Default for StoredSshSettings {
    /// Service on, port 22, password login allowed, auto-ban after five
    /// failures in ten minutes, the default drop-in location.
    fn default() -> (r: Self)
        ensures
            r.service_enabled && !r.password_login_disabled && r.auto_ban_enabled,
            r.port == DEFAULT_SSH_PORT,
            r.failed_attempt_limit == DEFAULT_SSH_FAILED_LIMIT,
            r.failed_attempt_window_seconds == DEFAULT_SSH_FAILED_WINDOW_SECONDS,
            r.config_path@ == SSH_CONFIG_FILE@,
            r.last_apply_message@ == "ssh config not written yet"@,
    {
        StoredSshSettings {
            service_enabled: true,
            port: DEFAULT_SSH_PORT,
            password_login_disabled: false,
            auto_ban_enabled: true,
            failed_attempt_limit: DEFAULT_SSH_FAILED_LIMIT,
            failed_attempt_window_seconds: DEFAULT_SSH_FAILED_WINDOW_SECONDS,
            config_path: SSH_CONFIG_FILE.to_string(),
            last_apply_message: "ssh config not written yet".to_string(),
        }
    }
}

impl StoredSshSettings {
    /// A blank config path falls back to the default location.
    pub fn from_proto(settings: SshSettings) -> (r: Self)
        ensures
            r.service_enabled == settings.service_enabled,
            r.port == settings.port,
            r.password_login_disabled == settings.password_login_disabled,
            r.auto_ban_enabled == settings.auto_ban_enabled,
            r.failed_attempt_limit == settings.failed_attempt_limit,
            r.failed_attempt_window_seconds == settings.failed_attempt_window_seconds,
            r.config_path@ == or_default_path(settings.config_path@, SSH_CONFIG_FILE@),
            r.last_apply_message == settings.last_apply_message,
    {
        let config_path = if is_blank(settings.config_path.as_str()) {
            SSH_CONFIG_FILE.to_string()
        } else {
            settings.config_path
        };
        StoredSshSettings {
            service_enabled: settings.service_enabled,
            port: settings.port,
            password_login_disabled: settings.password_login_disabled,
            auto_ban_enabled: settings.auto_ban_enabled,
            failed_attempt_limit: settings.failed_attempt_limit,
            failed_attempt_window_seconds: settings.failed_attempt_window_seconds,
            config_path,
            last_apply_message: settings.last_apply_message,
        }
    }

    pub fn into_proto(self) -> (r: SshSettings)
        ensures
            r.service_enabled == self.service_enabled,
            r.port == self.port,
            r.password_login_disabled == self.password_login_disabled,
            r.auto_ban_enabled == self.auto_ban_enabled,
            r.failed_attempt_limit == self.failed_attempt_limit,
            r.failed_attempt_window_seconds == self.failed_attempt_window_seconds,
            r.config_path == self.config_path,
            r.last_apply_message == self.last_apply_message,
    {
        SshSettings {
            service_enabled: self.service_enabled,
            port: self.port,
            password_login_disabled: self.password_login_disabled,
            auto_ban_enabled: self.auto_ban_enabled,
            failed_attempt_limit: self.failed_attempt_limit,
            failed_attempt_window_seconds: self.failed_attempt_window_seconds,
            config_path: self.config_path,
            last_apply_message: self.last_apply_message,
        }
    }
}

pub open spec fn ssh_config_spec(settings: StoredSshSettings) -> Seq<char> {
    "# Generated by RustPanel ("@ + (if settings.service_enabled { "service enabled"@ } else { "service disabled from panel state"@ })
        + ")\nPort "@ + dec(settings.port as nat) + "\nPasswordAuthentication "@
        + (if settings.password_login_disabled { "no"@ } else { "yes"@ })
        + "\nPubkeyAuthentication yes\nPermitRootLogin prohibit-password\n"@
}

/// The sshd drop-in: the port, whether passwords are accepted, keys on,
/// root only by key.
pub fn render_ssh_config(settings: &StoredSshSettings) -> (r: String)
    ensures
        r@ == ssh_config_spec(*settings),
{
    let mut s = "# Generated by RustPanel (".to_string();
    s.append(if settings.service_enabled { "service enabled" } else { "service disabled from panel state" });
    s.append(")\nPort ");
    push_u64(&mut s, settings.port as u64);
    s.append("\nPasswordAuthentication ");
    s.append(if settings.password_login_disabled { "no" } else { "yes" });
    s.append("\nPubkeyAuthentication yes\nPermitRootLogin prohibit-password\n");
    assert(s@ =~= ssh_config_spec(*settings));
    s
}

/// Why WAF settings are refused, if they are.
pub open spec fn waf_settings_error(settings: WafSettings) -> Option<Seq<char>> {
    if settings.requests_per_minute == 0 {
        Some("requests_per_minute must be greater than 0"@)
    } else if settings.burst == 0 {
        Some("burst must be greater than 0"@)
    } else if settings.block_duration_seconds == 0 {
        Some("block_duration_seconds must be greater than 0"@)
    } else if all_ws(settings.nginx_config_path@) || all_ws(settings.challenge_page_path@) {
        Some("nginx_config_path and challenge_page_path are required"@)
    } else {
        None
    }
}

pub fn validate_waf_settings(settings: &WafSettings) -> (r: Result<(), Status>)
    ensures
        match waf_settings_error(*settings) {
            None => r is Ok,
            Some(m) => r matches Err(e) && e.code == Code::InvalidArgument && e.message@ == m,
        },
{
    if settings.requests_per_minute == 0 {
        return Err(Status::invalid_argument("requests_per_minute must be greater than 0"));
    }
    if settings.burst == 0 {
        return Err(Status::invalid_argument("burst must be greater than 0"));
    }
    if settings.block_duration_seconds == 0 {
        return Err(Status::invalid_argument("block_duration_seconds must be greater than 0"));
    }
    if is_blank(settings.nginx_config_path.as_str()) || is_blank(settings.challenge_page_path.as_str()) {
        return Err(Status::invalid_argument("nginx_config_path and challenge_page_path are required"));
    }
    Ok(())
}

/// Why a WAF rule is refused, if it is.
pub open spec fn waf_rule_error(rule: WafRule) -> Option<Seq<char>> {
    if all_ws(rule.name@) {
        Some("waf rule name is required"@)
    } else if waf_kind_of(rule.kind) is None {
        Some("waf rule kind is required"@)
    } else if all_ws(rule.pattern@) {
        Some("waf rule pattern is required"@)
    } else if has_char(rule.pattern@, '"') || has_char(rule.pattern@, '\n') || has_char(rule.pattern@, '\r') {
        Some("waf rule pattern must not contain quotes or new lines"@)
    } else {
        None
    }
}

pub fn validate_waf_rule(rule: &WafRule) -> (r: Result<(), Status>)
    ensures
        match waf_rule_error(*rule) {
            None => r is Ok,
            Some(m) => r matches Err(e) && e.code == Code::InvalidArgument && e.message@ == m,
        },
{
    if is_blank(rule.name.as_str()) {
        return Err(Status::invalid_argument("waf rule name is required"));
    }
    let _ = waf_rule_kind(rule.kind)?;
    if is_blank(rule.pattern.as_str()) {
        return Err(Status::invalid_argument("waf rule pattern is required"));
    }
    let v = chars_of(rule.pattern.as_str());
    if has_char_exec(&v, '"') || has_char_exec(&v, '\n') || has_char_exec(&v, '\r') {
        return Err(Status::invalid_argument("waf rule pattern must not contain quotes or new lines"));
    }
    Ok(())
}

/// Why SSH settings are refused, if they are.
pub open spec fn ssh_settings_error(settings: SshSettings) -> Option<Seq<char>> {
    if settings.port == 0 || settings.port > 65535 {
        Some("ssh port must be 1-65535"@)
    } else if settings.failed_attempt_limit < 2 {
        Some("failed_attempt_limit must be at least 2"@)
    } else if settings.failed_attempt_window_seconds == 0 {
        Some("failed_attempt_window_seconds must be greater than 0"@)
    } else if all_ws(settings.config_path@) {
        Some("ssh config_path is required"@)
    } else {
        None
    }
}

pub fn validate_ssh_settings(settings: &SshSettings) -> (r: Result<(), Status>)
    ensures
        match ssh_settings_error(*settings) {
            None => r is Ok,
            Some(m) => r matches Err(e) && e.code == Code::InvalidArgument && e.message@ == m,
        },
{
    if settings.port == 0 || settings.port > 65535 {
        return Err(Status::invalid_argument("ssh port must be 1-65535"));
    }
    if settings.failed_attempt_limit < 2 {
        return Err(Status::invalid_argument("failed_attempt_limit must be at least 2"));
    }
    if settings.failed_attempt_window_seconds == 0 {
        return Err(Status::invalid_argument("failed_attempt_window_seconds must be greater than 0"));
    }
    if is_blank(settings.config_path.as_str()) {
        return Err(Status::invalid_argument("ssh config_path is required"));
    }
    Ok(())
}

/// Why a firewall rule is refused, as far as its name, kinds and ports go.
pub open spec fn rule_error(rule: FirewallRule) -> Option<Seq<char>> {
    if all_ws(rule.name@) {
        Some("firewall rule name is required"@)
    } else if protocol_of(rule.protocol) is None {
        Some("protocol is required"@)
    } else if action_of(rule.action) is None {
        Some("action is required"@)
    } else if direction_of(rule.direction) is None {
        Some("direction is required"@)
    } else if (protocol_of(rule.protocol) == Some(FirewallProtocol::Tcp) || protocol_of(rule.protocol) == Some(FirewallProtocol::Udp))
        && (rule.port_start == 0 || rule.port_start > 65535) {
        Some("port_start must be 1-65535"@)
    } else if (protocol_of(rule.protocol) == Some(FirewallProtocol::Tcp) || protocol_of(rule.protocol) == Some(FirewallProtocol::Udp))
        && rule.port_end != 0 && (rule.port_end < rule.port_start || rule.port_end > 65535) {
        Some("port_end must be empty or greater than port_start"@)
    } else {
        None
    }
}

/// Checks a rule's name, protocol, action, direction and ports. The source
/// and destination filters are IP or CIDR text, which the caller parses
/// after this check passes.
pub fn validate_rule(rule: &FirewallRule) -> (r: Result<(), Status>)
    ensures
        match rule_error(*rule) {
            None => r is Ok,
            Some(m) => r matches Err(e) && e.code == Code::InvalidArgument && e.message@ == m,
        },
{
    if is_blank(rule.name.as_str()) {
        return Err(Status::invalid_argument("firewall rule name is required"));
    }
    let protocol = firewall_protocol(rule.protocol)?;
    let _ = firewall_action(rule.action)?;
    let _ = firewall_direction(rule.direction)?;
    if protocol == FirewallProtocol::Tcp || protocol == FirewallProtocol::Udp {
        if rule.port_start == 0 || rule.port_start > 65535 {
            return Err(Status::invalid_argument("port_start must be 1-65535"));
        }
        if rule.port_end != 0 && (rule.port_end < rule.port_start || rule.port_end > 65535) {
            return Err(Status::invalid_argument("port_end must be empty or greater than port_start"));
        }
    }
    Ok(())
}

/// The panel's URL prefix: `/` for a blank or root path, else the trimmed
/// path without its trailing slashes. It must start with `/` and hold no
/// white space and no `//`.
pub open spec fn panel_path_spec(path: Seq<char>) -> Option<Seq<char>> {
    let t = trim_seq(path);
    if t.len() == 0 || t == "/"@ {
        Some("/"@)
    } else if !starts_with_seq(t, "/"@) || exists|i: int| 0 <= i < t.len() && is_ws(#[trigger] t[i]) || has_sub(t, "//"@) {
        None
    } else {
        Some(trim_end_char(t, '/'))
    }
}

/// Normalizing a panel path that normalization gave back changes nothing:
/// whenever a path normalizes to `p`, `p` normalizes to `p`.
pub proof fn law_panel_path_idempotent(path: Seq<char>)
    ensures
        panel_path_spec(path) matches Some(p) ==> panel_path_spec(p) == Some(p),
{
    reveal_strlit("/");
    reveal_strlit("//");
    let t = trim_seq(path);
    if t.len() == 0 || t == "/"@ {
        let p = "/"@;
        assert(p.len() == 1 && p[0] == '/');
        assert(!is_ws(p[0]));
        assert(trim_start_seq(p) == p);
        assert(trim_end_seq(p) == p);
    } else if !starts_with_seq(t, "/"@) || (exists|i: int| 0 <= i < t.len() && is_ws(#[trigger] t[i])) || has_sub(t, "//"@) {
    } else {
        let p = trim_end_char(t, '/');
        lemma_trim_end_char_props(t, '/');
        assert(t.subrange(0, 1) == "/"@);
        assert(t[0] == '/');
        if t.len() == 1 {
            assert(t =~= "/"@);
        }
        assert(t.len() >= 2);
        if t[1] == '/' {
            assert(t.subrange(0, 2) =~= "//"@);
            assert(occurs_at(t, "//"@, 0));
        }
        assert(p.len() >= 2);
        assert forall|i: int| 0 <= i < p.len() implies p[i] == t[i] by {}
        assert forall|i: int| 0 <= i < p.len() implies !is_ws(#[trigger] p[i]) by {
            assert(p[i] == t[i]);
        }
        assert(!is_ws(p[0]));
        assert(trim_start_seq(p) == p);
        assert(!is_ws(p.last()));
        assert(trim_end_seq(p) == p);
        assert(trim_seq(p) == p);
        assert(p.subrange(0, 1) =~= "/"@);
        assert(starts_with_seq(p, "/"@));
        if has_sub(p, "//"@) {
            let i = choose|i: int| occurs_at(p, "//"@, i);
            assert(p.subrange(i, i + 2) =~= t.subrange(i, i + 2));
            assert(occurs_at(t, "//"@, i));
        }
        if p == "/"@ {
            assert(p.len() == 1);
        }
        assert(trim_end_char(p, '/') == p);
    }
}

pub fn normalize_panel_access_path(path: &str) -> (r: Result<String, Status>)
    ensures
        match panel_path_spec(path@) {
            Some(p) => r matches Ok(s) && s@ == p,
            None => r matches Err(e) && e.code == Code::InvalidArgument
                && e.message@ == "panel_access_path must start with / and contain no whitespace"@,
        },
{
    let t = trim(path);
    let v = chars_of(t.as_str());
    proof { reveal_strlit("/"); }
    if v.len() == 0 || (v.len() == 1 && v[0] == '/') {
        assert(v.len() == 1 ==> v@ =~= "/"@);
        return Ok(DEFAULT_PANEL_ACCESS_PATH.to_string());
    }
    assert(t@ != "/"@);
    let mut ws = false;
    let mut i: usize = 0;
    while i < v.len()
        invariant
            i <= v.len(),
            ws == exists|j: int| 0 <= j < i && is_ws(#[trigger] v@[j]),
        decreases v.len() - i,
    {
        if is_whitespace(v[i]) {
            ws = true;
        }
        i += 1;
    }
    if !crate::text::starts_with(t.as_str(), "/") || ws || contains(t.as_str(), "//") {
        return Err(Status::invalid_argument("panel_access_path must start with / and contain no whitespace"));
    }
    let mut hi: usize = v.len();
    while hi > 0 && v[hi - 1] == '/'
        invariant
            hi <= v.len(),
            forall|j: int| hi <= j < v.len() ==> v@[j] == '/',
        decreases hi,
    {
        hi -= 1;
    }
    proof {
        lemma_trim_end_char_take(v@, '/', hi as int);
        if hi > 0 {
            assert(trim_end_char(v@.take(hi as int), '/') == v@.take(hi as int));
        } else {
            assert(v@.take(0).len() == 0);
        }
        assert(v@.take(hi as int) == v@.subrange(0, hi as int));
    }
    Ok(string_of(&v, 0, hi))
}

/// A file-safe key name: the trimmed name with every other character turned
/// into `-`, lower-cased, without leading or trailing `-`.
pub fn safe_key_name(name: &str) -> (r: Result<String, Status>)
    ensures
        slug_spec(name@).len() == 0 ==> (r matches Err(e) && e.code == Code::InvalidArgument
            && e.message@ == "ssh key name is required"@),
        slug_spec(name@).len() > 0 ==> (r matches Ok(s) && s@ == slug_spec(name@)),
{
    let safe = slug_text(name);
    if safe.as_str().is_empty() {
        Err(Status::invalid_argument("ssh key name is required"))
    } else {
        Ok(safe)
    }
}

} // verus!
