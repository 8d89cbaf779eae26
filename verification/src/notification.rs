//! Notification channels and rules: which events notify, the defaults when
//! no rule is set, the bounded delivery history, and the channel secret that
//! clients never see again.

use vstd::prelude::*;

use crate::status::{Code, Status};
use crate::listing::{has_key, other_key, remove_keyed, sorted_newest_first, take_newest, Keyed, Timestamped};
use crate::status::{error_response, ok_response, ApiResponse};
use crate::text::{all_ws, chars_of, eq_str, is_blank, join, join_strings, string_of, trim, trim_seq, views};

verus! {

pub const DEFAULT_NOTIFICATION_ROOT: &'static str = "/tmp/rustpanel/notification";

/// How many delivery records are kept.
pub const HISTORY_MAX: usize = 200;

pub const HTTP_TIMEOUT_SECONDS: u64 = 10;

/// What clients receive in place of a stored secret.
pub const SECRET_REDACTED: &'static str = "__rustpanel_secret_kept__";

/// What happened.
#[derive(Clone, Copy, Debug, PartialEq, Eq, Structural)]
pub enum NotificationEventKind {
    Unspecified,
    CertExpiry,
    HighLoad,
    DiskFull,
    SshAutoBan,
    LoginFailed,
    Test,
}

pub open spec fn event_code(e: NotificationEventKind) -> i32 {
    match e {
        NotificationEventKind::Unspecified => 0,
        NotificationEventKind::CertExpiry => 1,
        NotificationEventKind::HighLoad => 2,
        NotificationEventKind::DiskFull => 3,
        NotificationEventKind::SshAutoBan => 4,
        NotificationEventKind::LoginFailed => 5,
        NotificationEventKind::Test => 6,
    }
}

pub fn event_value(e: NotificationEventKind) -> (r: i32)
    ensures
        r == event_code(e),
{
    match e {
        NotificationEventKind::Unspecified => 0,
        NotificationEventKind::CertExpiry => 1,
        NotificationEventKind::HighLoad => 2,
        NotificationEventKind::DiskFull => 3,
        NotificationEventKind::SshAutoBan => 4,
        NotificationEventKind::LoginFailed => 5,
        NotificationEventKind::Test => 6,
    }
}

/// Where a channel delivers.
#[derive(Clone, Copy, Debug, PartialEq, Eq, Structural)]
pub enum NotificationChannelKind {
    Unspecified,
    Webhook,
    Telegram,
    Dingtalk,
    Wecom,
    Bark,
}

pub open spec fn channel_kind_of(v: i32) -> NotificationChannelKind {
    if v == 1 { NotificationChannelKind::Webhook }
    else if v == 2 { NotificationChannelKind::Telegram }
    else if v == 3 { NotificationChannelKind::Dingtalk }
    else if v == 4 { NotificationChannelKind::Wecom }
    else if v == 5 { NotificationChannelKind::Bark }
    else { NotificationChannelKind::Unspecified }
}

/// A channel as clients send and receive it.
#[derive(Clone, Debug)]
pub struct NotificationChannel {
    pub id: String,
    pub name: String,
    pub kind: i32,
    pub target: String,
    pub secret: String,
    pub enabled: bool,
    pub created_at_seconds: u64,
    pub updated_at_seconds: u64,
}

impl Default for NotificationChannel {
    fn default() -> (r: Self)
        ensures
            r.id@.len() == 0 && r.name@.len() == 0 && r.kind == 0 && r.target@.len() == 0
                && r.secret@.len() == 0 && !r.enabled && r.created_at_seconds == 0
                && r.updated_at_seconds == 0,
    {
        NotificationChannel {
            id: String::new(),
            name: String::new(),
            kind: 0,
            target: String::new(),
            secret: String::new(),
            enabled: false,
            created_at_seconds: 0,
            updated_at_seconds: 0,
        }
    }
}

/// A channel as the store keeps it.
#[derive(Clone, Debug)]
pub struct StoredChannel {
    pub id: String,
    pub name: String,
    pub kind: i32,
    pub target: String,
    pub secret: String,
    pub enabled: bool,
    pub created_at_seconds: u64,
    pub updated_at_seconds: u64,
}

impl StoredChannel {
    pub fn from_proto(channel: NotificationChannel) -> (r: Self)
        ensures
            r.id == channel.id && r.name == channel.name && r.kind == channel.kind && r.target
                == channel.target && r.secret == channel.secret && r.enabled == channel.enabled
                && r.created_at_seconds == channel.created_at_seconds && r.updated_at_seconds
                == channel.updated_at_seconds,
    {
        StoredChannel {
            id: channel.id,
            name: channel.name,
            kind: channel.kind,
            target: channel.target,
            secret: channel.secret,
            enabled: channel.enabled,
            created_at_seconds: channel.created_at_seconds,
            updated_at_seconds: channel.updated_at_seconds,
        }
    }

    pub fn into_proto(self) -> (r: NotificationChannel)
        ensures
            r.id == self.id && r.name == self.name && r.kind == self.kind && r.target
                == self.target && r.secret == self.secret && r.enabled == self.enabled
                && r.created_at_seconds == self.created_at_seconds && r.updated_at_seconds
                == self.updated_at_seconds,
    {
        NotificationChannel {
            id: self.id,
            name: self.name,
            kind: self.kind,
            target: self.target,
            secret: self.secret,
            enabled: self.enabled,
            created_at_seconds: self.created_at_seconds,
            updated_at_seconds: self.updated_at_seconds,
        }
    }
}

/// Whether an event notifies, and a threshold that some events use.
#[derive(Clone, Copy, Debug)]
pub struct StoredRule {
    pub event: i32,
    pub enabled: bool,
    pub threshold: u32,
}

/// The rules set by the operator.
#[derive(Clone, Debug)]
pub struct StoredSettings {
    pub rules: Vec<StoredRule>,
}

impl Default for StoredSettings {
    fn default() -> (r: Self)
        ensures
            r.rules@.len() == 0,
    {
        StoredSettings { rules: Vec::new() }
    }
}

/// One delivery of an event to the enabled channels.
#[derive(Clone, Debug)]
pub struct StoredRecord {
    pub id: String,
    pub event: i32,
    pub title: String,
    pub body: String,
    pub occurred_at_seconds: u64,
    pub delivered_channels: Vec<String>,
    pub failed_channels: Vec<String>,
}

/// The rules that hold when the operator set none: certificate expiry,
/// high load, full disk and SSH bans notify; failed logins, being noisy,
/// do not.
pub open spec fn default_rules_spec() -> Seq<StoredRule> {
    seq![
        StoredRule { event: event_code(NotificationEventKind::CertExpiry), enabled: true, threshold: 14 },
        StoredRule { event: event_code(NotificationEventKind::HighLoad), enabled: true, threshold: 90 },
        StoredRule { event: event_code(NotificationEventKind::DiskFull), enabled: true, threshold: 90 },
        StoredRule { event: event_code(NotificationEventKind::SshAutoBan), enabled: true, threshold: 0 },
        StoredRule { event: event_code(NotificationEventKind::LoginFailed), enabled: false, threshold: 5 },
    ]
}

pub fn default_rules() -> (r: Vec<StoredRule>)
    ensures
        r@ == default_rules_spec(),
{
    let v = vec![
        StoredRule { event: event_value(NotificationEventKind::CertExpiry), enabled: true, threshold: 14 },
        StoredRule { event: event_value(NotificationEventKind::HighLoad), enabled: true, threshold: 90 },
        StoredRule { event: event_value(NotificationEventKind::DiskFull), enabled: true, threshold: 90 },
        StoredRule { event: event_value(NotificationEventKind::SshAutoBan), enabled: true, threshold: 0 },
        StoredRule { event: event_value(NotificationEventKind::LoginFailed), enabled: false, threshold: 5 },
    ];
    assert(v@ =~= default_rules_spec());
    v
}

/// Index of the first rule for the event.
pub open spec fn find_rule(rules: Seq<StoredRule>, event: i32) -> Option<int>
    decreases rules.len(),
{
    if rules.len() == 0 {
        None
    } else {
        match find_rule(rules.drop_last(), event) {
            Some(i) => Some(i),
            None => if rules.last().event == event { Some(rules.len() - 1) } else { None },
        }
    }
}

proof fn lemma_find_rule_prefix(rules: Seq<StoredRule>, event: i32, k: int, j: int)
    requires
        0 <= k <= rules.len(),
        find_rule(rules.take(k), event) == Some(j),
    ensures
        find_rule(rules, event) == Some(j),
    decreases rules.len() - k,
{
    if k < rules.len() {
        assert(rules.take(k + 1).drop_last() == rules.take(k));
        lemma_find_rule_prefix(rules, event, k + 1, j);
    } else {
        assert(rules.take(k) == rules);
    }
}

fn find_rule_exec(rules: &Vec<StoredRule>, event: i32) -> (r: Option<usize>)
    ensures
        match r {
            Some(i) => find_rule(rules@, event) == Some(i as int) && i < rules@.len(),
            None => find_rule(rules@, event) is None,
        },
{
    let mut i: usize = 0;
    while i < rules.len()
        invariant
            i <= rules@.len(),
            find_rule(rules@.take(i as int), event) is None,
        decreases rules@.len() - i,
    {
        assert(rules@.take(i + 1).drop_last() == rules@.take(i as int));
        if rules[i].event == event {
            proof { lemma_find_rule_prefix(rules@, event, i + 1, i as int); }
            return Some(i);
        }
        i += 1;
    }
    assert(rules@.take(i as int) == rules@);
    None
}

/// Whether an event notifies: the operator's first rule for it decides;
/// without one the default rule does; an event without either notifies.
pub open spec fn event_enabled_spec(rules: Seq<StoredRule>, event: NotificationEventKind) -> bool {
    match find_rule(rules, event_code(event)) {
        Some(i) => rules[i].enabled,
        None => match find_rule(default_rules_spec(), event_code(event)) {
            Some(i) => default_rules_spec()[i].enabled,
            None => true,
        },
    }
}

pub fn event_enabled(settings: &StoredSettings, event: NotificationEventKind) -> (r: bool)
    ensures
        r == event_enabled_spec(settings.rules@, event),
{
    let target = event_value(event);
    match find_rule_exec(&settings.rules, target) {
        Some(i) => settings.rules[i].enabled,
        None => {
            let defaults = default_rules();
            match find_rule_exec(&defaults, target) {
                Some(i) => defaults[i].enabled,
                None => true,
            }
        },
    }
}

/// Drops the oldest records beyond [`HISTORY_MAX`], keeping the newest in
/// order.
pub fn truncate_history(history: &mut Vec<StoredRecord>)
    ensures
        old(history)@.len() <= HISTORY_MAX ==> final(history)@ == old(history)@,
        old(history)@.len() > HISTORY_MAX ==> final(history)@ == old(history)@.skip(old(history)@.len() - HISTORY_MAX),
        final(history)@.len() <= HISTORY_MAX,
{
    if history.len() > HISTORY_MAX {
        let excess = history.len() - HISTORY_MAX;
        let tail = history.split_off(excess);
        *history = tail;
    }
}

/// Why a channel is refused, if it is.
pub open spec fn channel_error(channel: NotificationChannel) -> Option<Seq<char>> {
    if all_ws(channel.name@) {
        Some("channel name is required"@)
    } else if channel_kind_of(channel.kind) == NotificationChannelKind::Unspecified {
        Some("channel kind is required"@)
    } else if all_ws(channel.target@) {
        Some("channel target is required"@)
    } else {
        None
    }
}

pub fn validate_channel(channel: &NotificationChannel) -> (r: Result<(), Status>)
    ensures
        match channel_error(*channel) {
            None => r is Ok,
            Some(m) => r matches Err(e) && e.code == Code::InvalidArgument && e.message@ == m,
        },
{
    if is_blank(channel.name.as_str()) {
        return Err(Status::invalid_argument("channel name is required"));
    }
    if !(1 <= channel.kind && channel.kind <= 5) {
        return Err(Status::invalid_argument("channel kind is required"));
    }
    if is_blank(channel.target.as_str()) {
        return Err(Status::invalid_argument("channel target is required"));
    }
    Ok(())
}

/// The channel with a non-empty secret replaced by [`SECRET_REDACTED`].
pub fn redact(channel: NotificationChannel) -> (r: NotificationChannel)
    ensures
        r.secret@ == if channel.secret@.len() == 0 { Seq::<char>::empty() } else { SECRET_REDACTED@ },
        r.id == channel.id && r.name == channel.name && r.kind == channel.kind && r.target == channel.target
            && r.enabled == channel.enabled && r.created_at_seconds == channel.created_at_seconds
            && r.updated_at_seconds == channel.updated_at_seconds,
{
    let mut channel = channel;
    if !channel.secret.as_str().is_empty() {
        channel.secret = SECRET_REDACTED.to_string();
    }
    channel
}

/// The secret an edit leaves stored: a blank or redacted secret keeps the
/// one already stored.
pub open spec fn kept_secret(incoming: Seq<char>, old: Seq<char>) -> Seq<char> {
    if all_ws(incoming) || incoming == SECRET_REDACTED@ { old } else { incoming }
}

/// The stored channel for an incoming one: a new channel (blank id) gets a
/// random UUID and is created `now`; an edit of a stored channel keeps its
/// creation time and, when the secret comes back blank or redacted, its
/// secret; an unknown id is created `now`. Every save stamps `now` as the
/// update time.
pub fn prepare_channel(incoming: NotificationChannel, existing: Option<&StoredChannel>, now: u64) -> (r: StoredChannel)
    ensures
        all_ws(incoming.id@) ==> r.id@.len() == 36 && r.created_at_seconds == now && r.secret == incoming.secret,
        !all_ws(incoming.id@) ==> r.id == incoming.id && match existing {
            Some(o) => r.created_at_seconds == o.created_at_seconds && r.secret@ == kept_secret(incoming.secret@, o.secret@),
            None => r.created_at_seconds == now && r.secret == incoming.secret,
        },
        r.updated_at_seconds == now,
        r.name == incoming.name && r.kind == incoming.kind && r.target == incoming.target
            && r.enabled == incoming.enabled,
{
    let blank_id = is_blank(incoming.id.as_str());
    let mut stored = StoredChannel::from_proto(incoming);
    if blank_id {
        stored.id = crate::crypto::new_uuid();
        stored.created_at_seconds = now;
    } else {
        match existing {
            Some(old) => {
                stored.created_at_seconds = old.created_at_seconds;
                if is_blank(stored.secret.as_str()) || eq_str(stored.secret.as_str(), SECRET_REDACTED) {
                    stored.secret = old.secret.clone();
                }
            },
            None => {
                stored.created_at_seconds = now;
            },
        }
    }
    stored.updated_at_seconds = now;
    stored
}

/// A channel redacted for clients and saved back by them keeps the stored
/// secret: what [`redact`] hides, [`prepare_channel`] restores.
pub proof fn law_redacted_secret_is_kept(incoming_secret: Seq<char>, stored_secret: Seq<char>)
    requires
        incoming_secret == (if stored_secret.len() == 0 { Seq::<char>::empty() } else { SECRET_REDACTED@ }),
    ensures
        kept_secret(incoming_secret, stored_secret) == stored_secret,
{
    if stored_secret.len() == 0 {
        assert(all_ws(incoming_secret));
    }
}


/// The channels a delivery goes to: the enabled ones, or all of them for a
/// test.
pub open spec fn delivers_to(include_disabled: bool) -> spec_fn(StoredChannel) -> bool {
    |c: StoredChannel| include_disabled || c.enabled
}

/// The names of the channels a delivery goes to, in order.
pub fn delivery_targets(channels: &Vec<StoredChannel>, include_disabled: bool) -> (r: Vec<usize>)
    ensures
        r@.len() == channels@.filter(delivers_to(include_disabled)).len(),
        forall|i: int| 0 <= i < r@.len() ==> #[trigger] r@[i] < channels@.len()
            && channels@[r@[i] as int] == channels@.filter(delivers_to(include_disabled))[i],
{
    let mut out: Vec<usize> = Vec::new();
    let mut i: usize = 0;
    while i < channels.len()
        invariant
            i <= channels@.len(),
            out@.len() == channels@.take(i as int).filter(delivers_to(include_disabled)).len(),
            forall|k: int| 0 <= k < out@.len() ==> #[trigger] out@[k] < i
                && channels@[out@[k] as int] == channels@.take(i as int).filter(delivers_to(include_disabled))[k],
        decreases channels@.len() - i,
    {
        let ghost f0 = channels@.take(i as int).filter(delivers_to(include_disabled));
        let ghost f1 = channels@.take(i + 1).filter(delivers_to(include_disabled));
        let ghost o0 = out@;
        proof {
            assert(channels@.take(i + 1) == channels@.take(i as int).push(channels@[i as int]));
            channels@.take(i as int).lemma_filter_push(channels@[i as int], delivers_to(include_disabled));
        }
        let keep = include_disabled || channels[i].enabled;
        if keep {
            out.push(i);
        }
        proof {
            if keep {
                assert(f1 == f0.push(channels@[i as int]));
            } else {
                assert(f1 == f0);
            }
            assert forall|k: int| 0 <= k < out@.len() implies #[trigger] out@[k] < i + 1
                && channels@[out@[k] as int] == f1[k] by {
                if k < o0.len() {
                    assert(out@[k] == o0[k]);
                    assert(f1[k] == f0[k]);
                    assert(o0[k] < i && channels@[o0[k] as int] == f0[k]);
                } else {
                    assert(out@[k] == i);
                    assert(f1[k] == channels@[i as int]);
                }
            }
        }
        i += 1;
        assert(channels@.take(i as int).filter(delivers_to(include_disabled)) == f1);
    }
    assert(channels@.take(i as int) == channels@);
    assert(channels@.take(i as int).filter(delivers_to(include_disabled)) == channels@.filter(delivers_to(include_disabled)));
    out
}

/// An event is delivered when its rule is on and some channel is enabled.
pub fn should_notify(settings: &StoredSettings, channels: &Vec<StoredChannel>, event: NotificationEventKind) -> (r: bool)
    ensures
        r == (event_enabled_spec(settings.rules@, event) && exists|i: int| 0 <= i < channels@.len() && (#[trigger] channels@[i]).enabled),
{
    if !event_enabled(settings, event) {
        return false;
    }
    let mut i: usize = 0;
    while i < channels.len()
        invariant
            i <= channels@.len(),
            event_enabled_spec(settings.rules@, event),
            forall|j: int| 0 <= j < i ==> !(#[trigger] channels@[j]).enabled,
        decreases channels@.len() - i,
    {
        if channels[i].enabled {
            return true;
        }
        i += 1;
    }
    false
}

/// What is sent to a channel.
#[derive(Clone, Debug)]
pub enum DeliveryBody {
    /// A webhook's JSON: title, body and both joined.
    Webhook { title: String, body: String, text: String },
    /// A Telegram message to a chat.
    Telegram { chat_id: String, text: String },
    /// A DingTalk or WeCom text message.
    TextMessage { content: String },
    /// A Bark form with title and body.
    Form { title: String, body: String },
}

/// One delivery request: the address, the bearer token (webhooks with a
/// secret) and the payload.
#[derive(Clone, Debug)]
pub struct DeliveryRequest {
    pub url: String,
    pub bearer: Option<String>,
    pub body: DeliveryBody,
}

/// The request that delivers a title and body to a channel. The target is
/// trimmed and must not be blank; Telegram needs its bot token as secret;
/// the message text is the title and body on two lines.
pub fn delivery_request(channel: &StoredChannel, title: &str, body: &str) -> (r: Result<DeliveryRequest, String>)
    ensures
        ({
            let target = trim_seq(channel.target@);
            let secret = trim_seq(channel.secret@);
            let text = title@ + "\n"@ + body@;
            let kind = channel_kind_of(channel.kind);
            &&& target.len() == 0 ==> (r matches Err(m) && m@ == "channel target is empty"@)
            &&& target.len() > 0 && kind == NotificationChannelKind::Webhook ==> (r matches Ok(q) && q.url@ == target
                && (secret.len() == 0 ==> q.bearer is None) && (secret.len() > 0 ==> (q.bearer matches Some(b) && b@ == secret))
                && (q.body matches DeliveryBody::Webhook { title: t, body: b, text: x } && t@ == title@ && b@ == body@ && x@ == text))
            &&& target.len() > 0 && kind == NotificationChannelKind::Telegram && secret.len() == 0 ==> (r matches Err(m)
                && m@ == "telegram bot token is empty"@)
            &&& target.len() > 0 && kind == NotificationChannelKind::Telegram && secret.len() > 0 ==> (r matches Ok(q)
                && q.url@ == "https://api.telegram.org/bot"@ + secret + "/sendMessage"@ && q.bearer is None
                && (q.body matches DeliveryBody::Telegram { chat_id: c, text: x } && c@ == target && x@ == text))
            &&& target.len() > 0 && (kind == NotificationChannelKind::Dingtalk || kind == NotificationChannelKind::Wecom)
                ==> (r matches Ok(q) && q.url@ == target && q.bearer is None
                && (q.body matches DeliveryBody::TextMessage { content: x } && x@ == text))
            &&& target.len() > 0 && kind == NotificationChannelKind::Bark ==> (r matches Ok(q) && q.url@ == target
                && q.bearer is None && (q.body matches DeliveryBody::Form { title: t, body: b } && t@ == title@ && b@ == body@))
            &&& target.len() > 0 && kind == NotificationChannelKind::Unspecified ==> (r matches Err(m)
                && m@ == "unknown channel kind"@)
        }),
{
    let target = trim(channel.target.as_str());
    if chars_of(target.as_str()).len() == 0 {
        return Err("channel target is empty".to_string());
    }
    let secret = trim(channel.secret.as_str());
    let secret_empty = chars_of(secret.as_str()).len() == 0;
    let mut text = title.to_string();
    text.append("\n");
    text.append(body);
    let k = channel.kind;
    if k == 1 {
        Ok(DeliveryRequest {
            url: target,
            bearer: if secret_empty { None } else { Some(secret) },
            body: DeliveryBody::Webhook { title: title.to_string(), body: body.to_string(), text },
        })
    } else if k == 2 {
        if secret_empty {
            return Err("telegram bot token is empty".to_string());
        }
        let mut url = "https://api.telegram.org/bot".to_string();
        url.append(secret.as_str());
        url.append("/sendMessage");
        Ok(DeliveryRequest { url, bearer: None, body: DeliveryBody::Telegram { chat_id: target, text } })
    } else if k == 3 || k == 4 {
        Ok(DeliveryRequest { url: target, bearer: None, body: DeliveryBody::TextMessage { content: text } })
    } else if k == 5 {
        Ok(DeliveryRequest {
            url: target,
            bearer: None,
            body: DeliveryBody::Form { title: title.to_string(), body: body.to_string() },
        })
    } else {
        Err("unknown channel kind".to_string())
    }
}

/// The error of a refused delivery: the HTTP status and the first 200
/// characters of the reply.
pub fn http_failure_message(status: &str, reply: &str) -> (r: String)
    ensures
        r@ == "HTTP "@ + status@ + ": "@ + reply@.take(if reply@.len() < 200 { reply@.len() as int } else { 200 }),
{
    let v = chars_of(reply);
    let n = if v.len() < 200 { v.len() } else { 200 };
    let detail = string_of(&v, 0, n);
    let mut s = "HTTP ".to_string();
    s.append(status);
    s.append(": ");
    s.append(detail.as_str());
    s
}

/// The title and body of a test notification.
pub const TEST_TITLE: &'static str = "RustPanel 测试通知";
pub const TEST_BODY: &'static str = "这是一条来自 RustPanel 的测试消息,收到说明渠道配置正确。";

/// The header of a test delivery: success, or the channels that failed.
pub fn test_delivery_status(failed: &Vec<String>) -> (r: ApiResponse)
    ensures
        failed@.len() == 0 ==> r.code == 0 && r.message@ == "test notification delivered"@,
        failed@.len() > 0 ==> r.code == 1 && r.message@ == "delivery failed for: "@ + join(views(failed@), ", "@),
{
    if failed.len() == 0 {
        ok_response("test notification delivered")
    } else {
        let mut m = "delivery failed for: ".to_string();
        let j = join_strings(failed, ", ");
        m.append(j.as_str());
        error_response(1, m.as_str())
    }
}

impl Timestamped for StoredRecord {
    open spec fn stamp_spec(&self) -> u64 {
        self.occurred_at_seconds
    }

    fn stamp(&self) -> (r: u64) {
        self.occurred_at_seconds
    }
}

impl Keyed for StoredChannel {
    open spec fn key_spec(&self) -> Seq<char> {
        self.id@
    }

    fn key(&self) -> (r: &str) {
        self.id.as_str()
    }
}

/// Deletes a channel; none with the id is not found.
pub fn delete_channel(channels: &mut Vec<StoredChannel>, id: &str) -> (r: Result<(), Status>)
    ensures
        final(channels)@ == old(channels)@.filter(other_key::<StoredChannel>(id@)),
        has_key(old(channels)@, id@) ==> r is Ok,
        !has_key(old(channels)@, id@) ==> (r matches Err(e) && e.code == Code::NotFound
            && e.message@ == "notification channel not found"@),
{
    if remove_keyed(channels, id) {
        Ok(())
    } else {
        Err(Status::new(Code::NotFound, "notification channel not found"))
    }
}

/// The history for listing: newest first, between 1 and 500 records.
pub fn recent_history(history: Vec<StoredRecord>, limit: u32) -> (r: Vec<StoredRecord>)
    ensures
        ({
            let cap: int = if limit < 1 { 1 } else if limit > 500 { 500 } else { limit as int };
            exists|sorted: Seq<StoredRecord>| sorted_newest_first(sorted, history@)
                && #[trigger] r@ == sorted.take(if sorted.len() < cap { sorted.len() as int } else { cap })
        }),
{
    let cap: usize = if limit < 1 { 1 } else if limit > 500 { 500 } else { limit as usize };
    take_newest(history, cap)
}

} // verus!
