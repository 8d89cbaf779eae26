//! Audit events: normalization, filtering and the local risk heuristics.

use vstd::prelude::*;

use crate::crypto::{new_uuid, unix_now};
use crate::text::{all_ws, contains, dec, eq_str, has_sub, is_blank, lower_seq, push_u64, to_lower, trim, trim_seq};

verus! {

/// Events returned when a request names no limit.
pub const DEFAULT_AUDIT_LIMIT: usize = 200;

/// The gRPC audit service.
#[derive(Clone, Debug, Default)]
pub struct AuditServiceImpl;

/// One audit record.
#[derive(Clone, Debug)]
pub struct AuditEvent {
    pub id: String,
    pub user: String,
    pub module: String,
    pub action: String,
    pub description: String,
    pub source_ip: String,
    pub level: String,
    pub timestamp_seconds: u64,
}

impl AuditEvent {
    /// A field-by-field copy.
    pub fn duplicate(&self) -> (r: Self)
        ensures
            r == *self,
    {
        AuditEvent {
            id: self.id.clone(),
            user: self.user.clone(),
            module: self.module.clone(),
            action: self.action.clone(),
            description: self.description.clone(),
            source_ip: self.source_ip.clone(),
            level: self.level.clone(),
            timestamp_seconds: self.timestamp_seconds,
        }
    }
}

/// An audit record as the log file keeps it.
#[derive(Clone, Debug)]
pub struct StoredAuditEvent {
    pub id: String,
    pub user: String,
    pub module: String,
    pub action: String,
    pub description: String,
    pub source_ip: String,
    pub level: String,
    pub timestamp_seconds: u64,
}

impl StoredAuditEvent {
    pub fn from_proto(event: AuditEvent) -> (r: Self)
        ensures
            r.id == event.id && r.user == event.user && r.module == event.module && r.action
                == event.action && r.description == event.description && r.source_ip
                == event.source_ip && r.level == event.level && r.timestamp_seconds
                == event.timestamp_seconds,
    {
        StoredAuditEvent {
            id: event.id,
            user: event.user,
            module: event.module,
            action: event.action,
            description: event.description,
            source_ip: event.source_ip,
            level: event.level,
            timestamp_seconds: event.timestamp_seconds,
        }
    }

    pub fn into_proto(self) -> (r: AuditEvent)
        ensures
            r.id == self.id && r.user == self.user && r.module == self.module && r.action
                == self.action && r.description == self.description && r.source_ip
                == self.source_ip && r.level == self.level && r.timestamp_seconds
                == self.timestamp_seconds,
    {
        AuditEvent {
            id: self.id,
            user: self.user,
            module: self.module,
            action: self.action,
            description: self.description,
            source_ip: self.source_ip,
            level: self.level,
            timestamp_seconds: self.timestamp_seconds,
        }
    }
}

/// The level an action implies.
pub open spec fn infer_level_spec(action: Seq<char>) -> Seq<char> {
    let a = lower_seq(action);
    if has_sub(a, "failed"@) || has_sub(a, "delete"@) || has_sub(a, "ban"@) {
        "warning"@
    } else if has_sub(a, "clear"@) || has_sub(a, "remove"@) {
        "danger"@
    } else {
        "info"@
    }
}

/// Failures, deletions and bans are warnings; clearing and removal are
/// dangerous; everything else is informational.
pub fn infer_level(action: &str) -> (r: String)
    ensures
        r@ == infer_level_spec(action@),
{
    let lower = to_lower(action);
    let a = lower.as_str();
    if contains(a, "failed") || contains(a, "delete") || contains(a, "ban") {
        "warning".to_string()
    } else if contains(a, "clear") || contains(a, "remove") {
        "danger".to_string()
    } else {
        "info".to_string()
    }
}

/// Fills what a client left out: an id, the user `system`, the source
/// `local`, the inferred level and the current time.
pub fn normalize_event(event: &mut AuditEvent)
    ensures
        all_ws(old(event).id@) ==> final(event).id@.len() == 36,
        !all_ws(old(event).id@) ==> final(event).id == old(event).id,
        final(event).user@ == if all_ws(old(event).user@) { "system"@ } else { old(event).user@ },
        final(event).source_ip@ == if all_ws(old(event).source_ip@) { "local"@ } else { old(event).source_ip@ },
        final(event).level@ == if all_ws(old(event).level@) { infer_level_spec(old(event).action@) } else { old(event).level@ },
        old(event).timestamp_seconds != 0 ==> final(event).timestamp_seconds == old(event).timestamp_seconds,
        final(event).module == old(event).module,
        final(event).action == old(event).action,
        final(event).description == old(event).description,
{
    if is_blank(event.id.as_str()) {
        event.id = new_uuid();
    }
    if is_blank(event.user.as_str()) {
        event.user = "system".to_string();
    }
    if is_blank(event.source_ip.as_str()) {
        event.source_ip = "local".to_string();
    }
    if is_blank(event.level.as_str()) {
        event.level = infer_level(event.action.as_str());
    }
    if event.timestamp_seconds == 0 {
        event.timestamp_seconds = match unix_now() {
            Some(t) => t,
            None => 0,
        };
    }
}

/// The event passes the module and text filters (`module` trimmed, `query`
/// trimmed and lower-cased; empty filters pass everything).
pub open spec fn event_matches(e: AuditEvent, module: Seq<char>, query: Seq<char>) -> bool {
    &&& module.len() == 0 || e.module@ == module
    &&& query.len() == 0 || has_sub(lower_seq(e.action@), query) || has_sub(lower_seq(e.description@), query)
        || has_sub(lower_seq(e.source_ip@), query)
}

/// The events that pass the filters, in order.
pub open spec fn matching_events(es: Seq<AuditEvent>, module: Seq<char>, query: Seq<char>) -> Seq<AuditEvent>
    decreases es.len(),
{
    if es.len() == 0 {
        Seq::empty()
    } else {
        matching_events(es.drop_last(), module, query) + if event_matches(es.last(), module, query) {
            seq![es.last()]
        } else {
            Seq::empty()
        }
    }
}

/// At most the first `n` elements.
pub open spec fn at_most<A>(s: Seq<A>, n: nat) -> Seq<A> {
    if s.len() <= n { s } else { s.take(n as int) }
}

pub open spec fn effective_limit(limit: u32) -> nat {
    if limit == 0 { DEFAULT_AUDIT_LIMIT as nat } else { limit as nat }
}

/// The first `limit` events (200 when 0) of the given module whose action,
/// description or source matches the query, ignoring ASCII case.
pub fn filter_events(events: Vec<AuditEvent>, module: &str, query: &str, limit: u32) -> (r: Vec<AuditEvent>)
    ensures
        r@ == at_most(
            matching_events(events@, trim_seq(module@), lower_seq(trim_seq(query@))),
            effective_limit(limit),
        ),
{
    let m = trim(module);
    let tq = trim(query);
    let q = to_lower(tq.as_str());
    let lim: usize = if limit == 0 { DEFAULT_AUDIT_LIMIT } else { limit as usize };
    let mut out: Vec<AuditEvent> = Vec::new();
    let mut i: usize = 0;
    while i < events.len()
        invariant
            i <= events@.len(),
            lim == effective_limit(limit),
            out@ == at_most(matching_events(events@.take(i as int), m@, q@), lim as nat),
        decreases events@.len() - i,
    {
        let ghost pre = events@.take(i as int);
        assert(events@.take(i + 1).drop_last() == pre);
        assert(events@.take(i + 1).last() == events@[i as int]);
        let e = &events[i];
        let module_ok = m.as_str().is_empty() || eq_str(e.module.as_str(), m.as_str());
        let a = to_lower(e.action.as_str());
        let d = to_lower(e.description.as_str());
        let sip = to_lower(e.source_ip.as_str());
        let query_ok = q.as_str().is_empty() || contains(a.as_str(), q.as_str()) || contains(
            d.as_str(),
            q.as_str(),
        ) || contains(sip.as_str(), q.as_str());
        assert((module_ok && query_ok) == event_matches(events@[i as int], m@, q@));
        let ghost out0 = out@;
        if module_ok && query_ok && out.len() < lim {
            out.push(e.duplicate());
        }
        proof {
            let ms = matching_events(pre, m@, q@);
            let ms2 = matching_events(events@.take(i + 1), m@, q@);
            if module_ok && query_ok {
                assert(ms2 == ms.push(events@[i as int]));
                if ms.len() < lim {
                    assert(out0 == ms);
                    assert(out@ =~= at_most(ms2, lim as nat));
                } else {
                    assert(at_most(ms2, lim as nat) =~= ms.take(lim as int));
                }
            } else {
                assert(ms2 =~= ms);
            }
        }
        i += 1;
    }
    assert(events@.take(i as int) == events@);
    out
}

pub open spec fn count_where(es: Seq<AuditEvent>, p: spec_fn(AuditEvent) -> bool) -> nat
    decreases es.len(),
{
    if es.len() == 0 {
        0
    } else {
        count_where(es.drop_last(), p) + if p(es.last()) { 1nat } else { 0 }
    }
}

pub open spec fn is_failed_login(e: AuditEvent) -> bool {
    e.module@ == "auth"@ && has_sub(e.action@, "failed"@)
}

pub open spec fn is_destructive(e: AuditEvent) -> bool {
    has_sub(e.action@, "delete"@) || has_sub(e.action@, "remove"@) || has_sub(e.action@, "clear"@)
}

pub open spec fn is_security_change(e: AuditEvent) -> bool {
    e.module@ == "security"@
}

/// The findings the heuristics report for the events.
pub open spec fn risk_findings_spec(es: Seq<AuditEvent>) -> Seq<Seq<char>> {
    let failed = count_where(es, |e: AuditEvent| is_failed_login(e));
    let destructive = count_where(es, |e: AuditEvent| is_destructive(e));
    let security = count_where(es, |e: AuditEvent| is_security_change(e));
    let f1: Seq<Seq<char>> = if failed >= 3 { seq![dec(failed) + " 次登录失败，建议检查来源 IP 并启用 2FA。"@] } else { Seq::empty() };
    let f2: Seq<Seq<char>> = if destructive > 0 { seq![dec(destructive) + " 次删除/清理类操作，建议复核操作人和备份状态。"@] } else { Seq::empty() };
    let f3: Seq<Seq<char>> = if security > 0 { seq![dec(security) + " 次安全配置变更，建议确认变更窗口和审批记录。"@] } else { Seq::empty() };
    let all = f1 + f2 + f3;
    if all.len() == 0 { seq!["未发现明显高风险模式。"@] } else { all }
}

/// Repeated login failures, destructive actions and security changes.
pub fn risk_findings(events: &[AuditEvent]) -> (r: Vec<String>)
    ensures
        crate::text::views(r@) == risk_findings_spec(events@),
{
    let mut failed: u64 = 0;
    let mut destructive: u64 = 0;
    let mut security: u64 = 0;
    let mut i: usize = 0;
    while i < events.len()
        invariant
            i <= events@.len(),
            failed == count_where(events@.take(i as int), |e: AuditEvent| is_failed_login(e)),
            destructive == count_where(events@.take(i as int), |e: AuditEvent| is_destructive(e)),
            security == count_where(events@.take(i as int), |e: AuditEvent| is_security_change(e)),
            failed <= i && destructive <= i && security <= i,
        decreases events@.len() - i,
    {
        assert(events@.take(i + 1).drop_last() == events@.take(i as int));
        assert(events@.take(i + 1).last() == events@[i as int]);
        let e = &events[i];
        if eq_str(e.module.as_str(), "auth") && contains(e.action.as_str(), "failed") {
            failed += 1;
        }
        if contains(e.action.as_str(), "delete") || contains(e.action.as_str(), "remove") || contains(
            e.action.as_str(),
            "clear",
        ) {
            destructive += 1;
        }
        if eq_str(e.module.as_str(), "security") {
            security += 1;
        }
        i += 1;
    }
    assert(events@.take(i as int) == events@);
    let mut findings: Vec<String> = Vec::new();
    if failed >= 3 {
        let mut s = String::new();
        push_u64(&mut s, failed);
        s.append(" 次登录失败，建议检查来源 IP 并启用 2FA。");
        findings.push(s);
    }
    if destructive > 0 {
        let mut s = String::new();
        push_u64(&mut s, destructive);
        s.append(" 次删除/清理类操作，建议复核操作人和备份状态。");
        findings.push(s);
    }
    if security > 0 {
        let mut s = String::new();
        push_u64(&mut s, security);
        s.append(" 次安全配置变更，建议确认变更窗口和审批记录。");
        findings.push(s);
    }
    if findings.len() == 0 {
        findings.push("未发现明显高风险模式。".to_string());
    }
    assert(crate::text::views(findings@) =~= risk_findings_spec(events@));
    findings
}

/// The one-line summary of an analysis: how many events, which analyzer,
/// and the first finding.
pub fn render_analysis_summary(event_count: usize, findings: &[String], provider: &str) -> (r: String)
    ensures
        r@ == "分析事件 "@ + dec(event_count as nat) + " 条，使用 "@ + provider@ + "。结论："@ + if findings@.len() > 0 {
            findings@[0]@
        } else {
            Seq::empty()
        },
{
    let mut s = "分析事件 ".to_string();
    push_u64(&mut s, event_count as u64);
    s.append(" 条，使用 ");
    s.append(provider);
    s.append("。结论：");
    if findings.len() > 0 {
        s.append(findings[0].as_str());
    }
    s
}

} // verus!
