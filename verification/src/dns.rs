//! DNS records at Cloudflare: record checks, API addresses and requests, the
//! request body of a record, the replies read back, and the provider
//! settings.

use vstd::prelude::*;

use crate::status::{Code, Status};
use crate::text::{
    all_ws, chars_of, eq_str, is_blank, join, join_strings, lemma_trim_end_char_take, string_of, trim,
    trim_end_char, trim_seq, views,
};

verus! {

pub const DEFAULT_DNS_ROOT: &'static str = "/tmp/rustpanel/dns";
pub const SECRET_REDACTED: &'static str = "__rustpanel_secret_kept__";
pub const HTTP_TIMEOUT_SECONDS: u64 = 20;
pub const CLOUDFLARE_API_BASE: &'static str = "https://api.cloudflare.com/client/v4";

/// A DNS record as clients send and receive it.
#[derive(Clone, Debug)]
pub struct DnsRecord {
    pub id: String,
    pub record_type: String,
    pub name: String,
    pub content: String,
    pub ttl: u32,
    pub proxied: bool,
}

/// Why a record is refused, if it is.
pub open spec fn record_error(record: DnsRecord) -> Option<Seq<char>> {
    if all_ws(record.record_type@) {
        Some("记录类型不能为空"@)
    } else if all_ws(record.name@) {
        Some("记录名不能为空"@)
    } else if all_ws(record.content@) {
        Some("记录值不能为空"@)
    } else {
        None
    }
}

pub fn validate_record(record: &DnsRecord) -> (r: Result<(), Status>)
    ensures
        match record_error(*record) {
            None => r is Ok,
            Some(m) => r matches Err(e) && e.code == Code::InvalidArgument && e.message@ == m,
        },
{
    if is_blank(record.record_type.as_str()) {
        return Err(Status::invalid_argument("记录类型不能为空"));
    }
    if is_blank(record.name.as_str()) {
        return Err(Status::invalid_argument("记录名不能为空"));
    }
    if is_blank(record.content.as_str()) {
        return Err(Status::invalid_argument("记录值不能为空"));
    }
    Ok(())
}

/// The records address of a zone; trailing slashes of the base are dropped.
pub open spec fn records_url_spec(base: Seq<char>, zone_id: Seq<char>) -> Seq<char> {
    trim_end_char(base, '/') + "/zones/"@ + zone_id + "/dns_records"@
}

pub fn cf_records_url(base: &str, zone_id: &str) -> (r: String)
    ensures
        r@ == records_url_spec(base@, zone_id@),
{
    let v = chars_of(base);
    let mut hi: usize = v.len();
    while hi > 0 && v[hi - 1] == '/'
        invariant
            hi <= v.len(),
            forall|j: int| hi <= j < v.len() ==> v@[j] == '/',
        decreases hi,
    {
        hi -= 1;
    }
    proof {
        lemma_trim_end_char_take(v@, '/', hi as int);
        if hi > 0 {
            assert(trim_end_char(v@.take(hi as int), '/') == v@.take(hi as int));
        } else {
            assert(v@.take(0).len() == 0);
        }
        assert(v@.take(hi as int) == v@.subrange(0, hi as int));
    }
    let mut s = string_of(&v, 0, hi);
    s.append("/zones/");
    s.append(zone_id);
    s.append("/dns_records");
    s
}

/// The address of one record.
pub fn cf_record_url(base: &str, zone_id: &str, record_id: &str) -> (r: String)
    ensures
        r@ == records_url_spec(base@, zone_id@) + "/"@ + record_id@,
{
    let mut s = cf_records_url(base, zone_id);
    s.append("/");
    s.append(record_id);
    s
}

/// What is sent to create or change a record: trimmed type, name and
/// content; a TTL of 0 means automatic (1).
#[derive(Clone, Debug)]
pub struct RecordBody {
    pub record_type: String,
    pub name: String,
    pub content: String,
    pub ttl: u32,
    pub proxied: bool,
}

pub fn record_to_body(record: &DnsRecord) -> (r: RecordBody)
    ensures
        r.record_type@ == trim_seq(record.record_type@),
        r.name@ == trim_seq(record.name@),
        r.content@ == trim_seq(record.content@),
        r.ttl == if record.ttl == 0 { 1 } else { record.ttl },
        r.proxied == record.proxied,
{
    RecordBody {
        record_type: trim(record.record_type.as_str()),
        name: trim(record.name.as_str()),
        content: trim(record.content.as_str()),
        ttl: if record.ttl == 0 { 1 } else { record.ttl },
        proxied: record.proxied,
    }
}

/// The error text of a failed call: its messages joined with `; `, or a
/// fixed text when there are none.
pub fn cf_error_message(messages: &Vec<String>) -> (r: String)
    ensures
        join(views(messages@), "; "@).len() > 0 ==> r@ == join(views(messages@), "; "@),
        join(views(messages@), "; "@).len() == 0 ==> r@ == "cloudflare 返回失败"@,
{
    let joined = join_strings(messages, "; ");
    if joined.as_str().is_empty() {
        "cloudflare 返回失败".to_string()
    } else {
        joined
    }
}

/// The DNS provider settings.
#[derive(Clone, Debug)]
pub struct StoredConfig {
    pub provider: i32,
    pub api_token: String,
    pub zone_id: String,
}

impl Default for StoredConfig {
    /// Cloudflare, without a token or zone.
    fn default() -> (r: Self)
        ensures
            r.provider == 1 && r.api_token@.len() == 0 && r.zone_id@.len() == 0,
    {
        StoredConfig { provider: 1, api_token: String::new(), zone_id: String::new() }
    }
}


/// A record in a Cloudflare reply, each field present only when the reply
/// holds it with the expected JSON type.
#[derive(Clone, Debug)]
pub struct CfRecordJson {
    pub id: Option<String>,
    pub record_type: Option<String>,
    pub name: Option<String>,
    pub content: Option<String>,
    pub ttl: Option<u64>,
    pub proxied: Option<bool>,
}

/// The `result` of a Cloudflare reply.
#[derive(Clone, Debug)]
pub enum CfResult {
    Missing,
    /// An array of records.
    Array(Vec<CfRecordJson>),
    /// Any other value, read as one record.
    Value(CfRecordJson),
}

/// A Cloudflare reply: whether the HTTP status was a success, its
/// `success` flag, the messages of its errors, and its result.
#[derive(Clone, Debug)]
pub struct CfResponse {
    pub http_success: bool,
    pub success: Option<bool>,
    pub error_messages: Vec<String>,
    pub result: CfResult,
}

fn text_or_empty(v: &Option<String>) -> (r: String)
    ensures
        r@ == match v { Some(s) => s@, None => Seq::<char>::empty() },
{
    match v {
        Some(s) => s.clone(),
        None => String::new(),
    }
}

/// A record from the reply: missing texts are empty, a missing TTL is 1
/// (and capped at `u32::MAX`), a missing proxy flag is off.
pub fn json_to_record(value: &CfRecordJson) -> (r: DnsRecord)
    ensures
        r.id@ == match value.id { Some(s) => s@, None => Seq::<char>::empty() },
        r.record_type@ == match value.record_type { Some(s) => s@, None => Seq::<char>::empty() },
        r.name@ == match value.name { Some(s) => s@, None => Seq::<char>::empty() },
        r.content@ == match value.content { Some(s) => s@, None => Seq::<char>::empty() },
        r.ttl == match value.ttl { Some(t) => if t > u32::MAX { u32::MAX } else { t as u32 }, None => 1u32 },
        r.proxied == match value.proxied { Some(b) => b, None => false },
{
    DnsRecord {
        id: text_or_empty(&value.id),
        record_type: text_or_empty(&value.record_type),
        name: text_or_empty(&value.name),
        content: text_or_empty(&value.content),
        ttl: match value.ttl {
            Some(t) => if t > u32::MAX as u64 { u32::MAX } else { t as u32 },
            None => 1,
        },
        proxied: match value.proxied {
            Some(b) => b,
            None => false,
        },
    }
}

/// A record read from a value with none of the fields.
pub open spec fn empty_record_json() -> CfRecordJson {
    CfRecordJson { id: None, record_type: None, name: None, content: None, ttl: None, proxied: None }
}

/// The records of a list reply; its result must be an array.
pub fn parse_records(response: &CfResponse) -> (r: Result<Vec<DnsRecord>, String>)
    ensures
        !(response.result is Array) ==> (r matches Err(m) && m@ == "cloudflare 响应缺少 result 数组"@),
        response.result matches CfResult::Array(items) ==> (r matches Ok(records)
            && records@.len() == items@.len()
            && forall|i: int| 0 <= i < items@.len() ==> {
                let x = #[trigger] items@[i];
                let rec = records@[i];
                &&& rec.id@ == match x.id { Some(s) => s@, None => Seq::<char>::empty() }
                &&& rec.record_type@ == match x.record_type { Some(s) => s@, None => Seq::<char>::empty() }
                &&& rec.name@ == match x.name { Some(s) => s@, None => Seq::<char>::empty() }
                &&& rec.content@ == match x.content { Some(s) => s@, None => Seq::<char>::empty() }
                &&& rec.ttl == match x.ttl { Some(t) => if t > u32::MAX { u32::MAX } else { t as u32 }, None => 1u32 }
                &&& rec.proxied == match x.proxied { Some(b) => b, None => false }
            }),
{
    match &response.result {
        CfResult::Array(items) => {
            let mut out: Vec<DnsRecord> = Vec::new();
            let mut i: usize = 0;
            while i < items.len()
                invariant
                    i <= items@.len(),
                    out@.len() == i,
                    forall|j: int| 0 <= j < i ==> {
                        let x = #[trigger] items@[j];
                        let rec = out@[j];
                        &&& rec.id@ == match x.id { Some(s) => s@, None => Seq::<char>::empty() }
                        &&& rec.record_type@ == match x.record_type { Some(s) => s@, None => Seq::<char>::empty() }
                        &&& rec.name@ == match x.name { Some(s) => s@, None => Seq::<char>::empty() }
                        &&& rec.content@ == match x.content { Some(s) => s@, None => Seq::<char>::empty() }
                        &&& rec.ttl == match x.ttl { Some(t) => if t > u32::MAX { u32::MAX } else { t as u32 }, None => 1u32 }
                        &&& rec.proxied == match x.proxied { Some(b) => b, None => false }
                    },
                decreases items@.len() - i,
            {
                out.push(json_to_record(&items[i]));
                i += 1;
            }
            Ok(out)
        },
        _ => Err("cloudflare 响应缺少 result 数组".to_string()),
    }
}

/// The record of a single-record reply; its result must be present (an
/// array reads as a record with no fields).
pub fn parse_single(response: &CfResponse) -> (r: Result<DnsRecord, String>)
    ensures
        response.result is Missing ==> (r matches Err(m) && m@ == "cloudflare 响应缺少 result"@),
        response.result is Array ==> (r matches Ok(rec) && rec.id@.len() == 0 && rec.record_type@.len() == 0
            && rec.name@.len() == 0 && rec.content@.len() == 0 && rec.ttl == 1 && !rec.proxied),
        response.result matches CfResult::Value(x) ==> (r matches Ok(rec)
            && rec.id@ == match x.id { Some(s) => s@, None => Seq::<char>::empty() }
            && rec.record_type@ == match x.record_type { Some(s) => s@, None => Seq::<char>::empty() }
            && rec.name@ == match x.name { Some(s) => s@, None => Seq::<char>::empty() }
            && rec.content@ == match x.content { Some(s) => s@, None => Seq::<char>::empty() }
            && rec.ttl == match x.ttl { Some(t) => if t > u32::MAX { u32::MAX } else { t as u32 }, None => 1u32 }
            && rec.proxied == match x.proxied { Some(b) => b, None => false }),
{
    match &response.result {
        CfResult::Missing => Err("cloudflare 响应缺少 result".to_string()),
        CfResult::Array(_) => {
            let empty = CfRecordJson { id: None, record_type: None, name: None, content: None, ttl: None, proxied: None };
            Ok(json_to_record(&empty))
        },
        CfResult::Value(x) => Ok(json_to_record(x)),
    }
}

/// A call succeeds when its HTTP status and its `success` flag both say so;
/// otherwise its error text is reported.
pub fn cf_outcome(response: &CfResponse) -> (r: Result<(), String>)
    ensures
        (response.http_success && response.success == Some(true)) ==> r is Ok,
        !(response.http_success && response.success == Some(true)) ==> (r matches Err(m) && ({
            let joined = join(views(response.error_messages@), "; "@);
            &&& joined.len() > 0 ==> m@ == joined
            &&& joined.len() == 0 ==> m@ == "cloudflare 返回失败"@
        })),
{
    let ok = match response.success {
        Some(b) => b,
        None => false,
    };
    if response.http_success && ok {
        Ok(())
    } else {
        Err(cf_error_message(&response.error_messages))
    }
}

/// The provider is configured once it has a token and a zone.
pub open spec fn configured_spec(config: StoredConfig) -> bool {
    !all_ws(config.api_token@) && !all_ws(config.zone_id@)
}

pub fn dns_configured(config: &StoredConfig) -> (r: bool)
    ensures
        r == configured_spec(*config),
{
    !is_blank(config.api_token.as_str()) && !is_blank(config.zone_id.as_str())
}

/// Calls to the provider need it configured.
pub fn require_config(config: &StoredConfig) -> (r: Result<(), Status>)
    ensures
        configured_spec(*config) ==> r is Ok,
        !configured_spec(*config) ==> (r matches Err(e) && e.code == Code::FailedPrecondition
            && e.message@ == "DNS 服务商未配置(请先填写 API token 与 zone id)"@),
{
    if dns_configured(config) {
        Ok(())
    } else {
        Err(Status::failed_precondition("DNS 服务商未配置(请先填写 API token 与 zone id)"))
    }
}

/// The settings after a change: only Cloudflare (1) is accepted, the zone
/// must not be blank; the trimmed zone is kept, and the trimmed token
/// replaces the stored one unless it is empty or the redaction marker; a
/// first configuration must bring a token.
pub fn merged_dns_config(current: &StoredConfig, provider: i32, zone_id: &str, api_token: &str) -> (r: Result<StoredConfig, Status>)
    ensures
        provider != 1 ==> (r matches Err(e) && e.code == Code::InvalidArgument && e.message@ == "当前仅支持 Cloudflare"@),
        provider == 1 && all_ws(zone_id@) ==> (r matches Err(e) && e.code == Code::InvalidArgument
            && e.message@ == "zone id 不能为空"@),
        provider == 1 && !all_ws(zone_id@) ==> ({
            let t = trim_seq(api_token@);
            let token = if t.len() > 0 && t != SECRET_REDACTED@ { t } else { current.api_token@ };
            &&& all_ws(token) ==> (r matches Err(e) && e.code == Code::InvalidArgument
                && e.message@ == "首次配置需提供 API token"@)
            &&& !all_ws(token) ==> (r matches Ok(c) && c.provider == 1 && c.zone_id@ == trim_seq(zone_id@)
                && c.api_token@ == token)
        }),
{
    if provider != 1 {
        return Err(Status::invalid_argument("当前仅支持 Cloudflare"));
    }
    if is_blank(zone_id) {
        return Err(Status::invalid_argument("zone id 不能为空"));
    }
    let t = trim(api_token);
    let token = if chars_of(t.as_str()).len() > 0 && !eq_str(t.as_str(), SECRET_REDACTED) {
        t
    } else {
        current.api_token.clone()
    };
    if is_blank(token.as_str()) {
        return Err(Status::invalid_argument("首次配置需提供 API token"));
    }
    Ok(StoredConfig { provider: 1, api_token: token, zone_id: trim(zone_id) })
}

/// The HTTP method of a provider call.
#[derive(Clone, Copy, Debug, PartialEq, Eq, Structural)]
pub enum HttpMethod {
    Get,
    Post,
    Put,
    Delete,
}

/// Listing asks for up to 100 records.
pub fn list_records_url(base: &str, zone_id: &str) -> (r: String)
    ensures
        r@ == records_url_spec(base@, zone_id@) + "?per_page=100"@,
{
    let mut s = cf_records_url(base, zone_id);
    s.append("?per_page=100");
    s
}

/// A record without an id is created, one with an id replaced at its
/// address (the id trimmed).
pub fn upsert_request(base: &str, zone_id: &str, record: &DnsRecord) -> (r: (HttpMethod, String))
    ensures
        all_ws(record.id@) ==> r.0 == HttpMethod::Post && r.1@ == records_url_spec(base@, zone_id@),
        !all_ws(record.id@) ==> r.0 == HttpMethod::Put && r.1@ == records_url_spec(base@, zone_id@) + "/"@
            + trim_seq(record.id@),
{
    if is_blank(record.id.as_str()) {
        (HttpMethod::Post, cf_records_url(base, zone_id))
    } else {
        let id = trim(record.id.as_str());
        (HttpMethod::Put, cf_record_url(base, zone_id, id.as_str()))
    }
}

/// A deletion names the record by its trimmed id, which must not be blank.
pub fn delete_request_url(base: &str, zone_id: &str, id: &str) -> (r: Result<String, Status>)
    ensures
        all_ws(id@) ==> (r matches Err(e) && e.code == Code::InvalidArgument && e.message@ == "record id is required"@),
        !all_ws(id@) ==> (r matches Ok(u) && u@ == records_url_spec(base@, zone_id@) + "/"@ + trim_seq(id@)),
{
    if is_blank(id) {
        return Err(Status::invalid_argument("record id is required"));
    }
    let t = trim(id);
    Ok(cf_record_url(base, zone_id, t.as_str()))
}

/// The API base: the configured one, or Cloudflare's.
pub fn api_base(configured: Option<&str>) -> (r: String)
    ensures
        r@ == match configured { Some(b) => b@, None => CLOUDFLARE_API_BASE@ },
{
    match configured {
        Some(b) => b.to_string(),
        None => CLOUDFLARE_API_BASE.to_string(),
    }
}

} // verus!
