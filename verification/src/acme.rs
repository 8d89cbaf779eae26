//! ACME certificate requests: the outcomes a DNS-01 request reports, the
//! panel-wide ACME settings, and contact addresses that Let's Encrypt
//! refuses.

use vstd::prelude::*;

use crate::text::{
    chars_of, contains, ends_with, ends_with_seq, eq_str, find_char_from, has_sub, index_of,
    lemma_index_of, lower_seq, string_of, to_lower, trim, trim_seq,
};

verus! {

pub const DEFAULT_ACME_ROOT: &'static str = "/var/lib/rustpanel/acme";

/// What the panel must publish before a DNS-01 request can go on.
#[derive(Clone, Debug)]
pub struct DnsChallengeNeeded {
    /// The full record name, such as `_acme-challenge.example.com`.
    pub record_name: String,
    /// The TXT value that the ACME server computed.
    pub record_value: String,
}

/// An issued certificate.
#[derive(Clone, Debug)]
pub struct IssuedCertificate {
    /// The full chain, intermediates included, as PEM.
    pub certificate_pem: String,
    /// The private key as PEM.
    pub private_key_pem: String,
}

/// The result of one call of a DNS-01 request: a record to publish first,
/// or the certificate.
#[derive(Clone, Debug)]
pub enum RequestOutcome {
    Challenge(DnsChallengeNeeded),
    Issued(IssuedCertificate),
}

/// Panel-wide ACME preferences.
#[derive(Clone, Debug)]
pub struct AcmeSettings {
    pub contact_email: String,
    /// Let's Encrypt production when set, staging otherwise.
    pub production: bool,
}

impl Default for AcmeSettings {
    fn default() -> (r: Self)
        ensures
            r.contact_email@.len() == 0 && !r.production,
    {
        AcmeSettings { contact_email: String::new(), production: false }
    }
}

/// The reserved example domains that Let's Encrypt refuses as contacts.
pub open spec fn forbidden_suffixes() -> Seq<Seq<char>> {
    seq!["@example.com"@, "@example.org"@, "@example.net"@, "@example."@]
}

/// The trimmed, lower-cased address ends with or contains one of the
/// reserved example domains.
pub open spec fn forbidden_email_spec(email: Seq<char>) -> bool {
    let lower = lower_seq(trim_seq(email));
    exists|i: int| 0 <= i < forbidden_suffixes().len()
        && (ends_with_seq(lower, #[trigger] forbidden_suffixes()[i]) || has_sub(lower, forbidden_suffixes()[i]))
}

pub fn is_forbidden_email_domain(email: &str) -> (r: bool)
    ensures
        r == forbidden_email_spec(email@),
{
    let t = trim(email);
    let lower = to_lower(t.as_str());
    let l = lower.as_str();
    let r = ends_with(l, "@example.com") || contains(l, "@example.com")
        || ends_with(l, "@example.org") || contains(l, "@example.org")
        || ends_with(l, "@example.net") || contains(l, "@example.net")
        || ends_with(l, "@example.") || contains(l, "@example.");
    proof {
        let fs = forbidden_suffixes();
        assert(fs[0] == "@example.com"@);
        assert(fs[1] == "@example.org"@);
        assert(fs[2] == "@example.net"@);
        assert(fs[3] == "@example."@);
    }
    r
}


/// Let's Encrypt's production directory.
pub const LETSENCRYPT_PRODUCTION: &'static str = "https://acme-v02.api.letsencrypt.org/directory";
/// Let's Encrypt's staging directory.
pub const LETSENCRYPT_STAGING: &'static str = "https://acme-staging-v02.api.letsencrypt.org/directory";

/// Whether to use the production directory: the saved settings ask for it,
/// or the environment switch is `1` or `true` in any case. Settings that
/// cannot be read count as staging.
pub open spec fn production_spec(settings_production: Option<bool>, env_value: Option<Seq<char>>) -> bool {
    (settings_production == Some(true)) || match env_value {
        Some(v) => v == "1"@ || lower_seq(v) == "true"@,
        None => false,
    }
}

pub fn use_production(settings_production: Option<bool>, env_value: Option<&str>) -> (r: bool)
    ensures
        r == production_spec(settings_production, match env_value { Some(v) => Some(v@), None => None }),
{
    let from_settings = match settings_production {
        Some(p) => p,
        None => false,
    };
    if from_settings {
        return true;
    }
    match env_value {
        Some(v) => {
            let lower = to_lower(v);
            eq_str(v, "1") || eq_str(lower.as_str(), "true")
        },
        None => false,
    }
}

/// The ACME directory to use.
pub fn directory_url(production: bool) -> (r: &'static str)
    ensures
        production ==> r@ == LETSENCRYPT_PRODUCTION@,
        !production ==> r@ == LETSENCRYPT_STAGING@,
{
    if production { LETSENCRYPT_PRODUCTION } else { LETSENCRYPT_STAGING }
}

/// The name of the TXT record that a DNS-01 challenge asks for.
pub fn challenge_record_name(domain: &str) -> (r: String)
    ensures
        r@ == "_acme-challenge."@ + domain@,
{
    let mut s = "_acme-challenge.".to_string();
    s.append(domain);
    s
}

/// The account contact of an address.
pub fn contact_uri(email: &str) -> (r: String)
    ensures
        r@ == "mailto:"@ + email@,
{
    let mut s = "mailto:".to_string();
    s.append(email);
    s
}

/// The file a pending order of a domain is kept in.
pub fn pending_file_name(domain: &str) -> (r: String)
    ensures
        r@ == domain@ + ".json"@,
{
    let mut s = domain.to_string();
    s.append(".json");
    s
}

/// The token of an HTTP-01 challenge: its key authorization up to the
/// first `.`.
pub fn http01_token(key_authorization: &str) -> (r: String)
    ensures
        r@ == key_authorization@.take(index_of(key_authorization@, '.') as int),
{
    let v = chars_of(key_authorization);
    proof {
        lemma_index_of(v@, '.');
    }
    let k = find_char_from(&v, '.', 0);
    assert(v@.skip(0) == v@);
    string_of(&v, 0, k)
}

/// What was found of a pending order on disk.
#[derive(Clone, Copy, Debug, PartialEq, Eq, Structural)]
pub enum PendingRead {
    Found,
    Missing,
    Unreadable,
}

/// How a finished order failed: its stored state is stale (it no longer
/// decodes or the server no longer knows it), or something the user must
/// see (an invalid authorization, a missing record...).
#[derive(Clone, Copy, Debug, PartialEq, Eq, Structural)]
pub enum FinalizeFailure {
    Stale,
    Other,
}

/// The next step of a DNS-01 request.
#[derive(Clone, Copy, Debug, PartialEq, Eq, Structural)]
pub enum DnsStep {
    /// Resume the pending order.
    Finalize,
    /// Start a new order.
    Start,
    /// Drop the pending order, then start a new one.
    DiscardAndStart,
    /// Report the failure.
    Fail,
}

/// A found order is resumed; none starts a new one; an unreadable one is
/// dropped and a new one started.
pub fn step_after_read(read: PendingRead) -> (r: DnsStep)
    ensures
        read == PendingRead::Found ==> r == DnsStep::Finalize,
        read == PendingRead::Missing ==> r == DnsStep::Start,
        read == PendingRead::Unreadable ==> r == DnsStep::DiscardAndStart,
{
    match read {
        PendingRead::Found => DnsStep::Finalize,
        PendingRead::Missing => DnsStep::Start,
        PendingRead::Unreadable => DnsStep::DiscardAndStart,
    }
}

/// A stale order is dropped and a new one started; other failures are
/// reported.
pub fn step_after_failed_finalize(failure: FinalizeFailure) -> (r: DnsStep)
    ensures
        failure == FinalizeFailure::Stale ==> r == DnsStep::DiscardAndStart,
        failure == FinalizeFailure::Other ==> r == DnsStep::Fail,
{
    match failure {
        FinalizeFailure::Stale => DnsStep::DiscardAndStart,
        FinalizeFailure::Other => DnsStep::Fail,
    }
}

/// The state of an authorization of an order.
#[derive(Clone, Copy, Debug, PartialEq, Eq, Structural)]
pub enum AuthzStatus {
    Pending,
    Valid,
    Invalid,
    Revoked,
    Expired,
    Deactivated,
}

/// What finishing an order does with one authorization.
#[derive(Clone, Copy, Debug, PartialEq, Eq, Structural)]
pub enum AuthzStep {
    /// The order cannot succeed.
    Fail,
    /// Already validated.
    Done,
    /// Tell the server the DNS-01 challenge is ready, if it has one.
    SetReady,
}

pub fn authz_step(status: AuthzStatus) -> (r: AuthzStep)
    ensures
        (status == AuthzStatus::Invalid || status == AuthzStatus::Revoked || status == AuthzStatus::Expired)
            ==> r == AuthzStep::Fail,
        status == AuthzStatus::Valid ==> r == AuthzStep::Done,
        (status == AuthzStatus::Pending || status == AuthzStatus::Deactivated) ==> r == AuthzStep::SetReady,
{
    match status {
        AuthzStatus::Invalid | AuthzStatus::Revoked | AuthzStatus::Expired => AuthzStep::Fail,
        AuthzStatus::Valid => AuthzStep::Done,
        _ => AuthzStep::SetReady,
    }
}

/// Where the challenge of an HTTP-01 request is written under the webroot:
/// the challenge directory and the file named after the token.
pub fn http01_challenge_paths(webroot: &str, token: &str) -> (r: (String, String))
    ensures
        r.0@ == webroot@ + "/.well-known/acme-challenge"@,
        r.1@ == webroot@ + "/.well-known/acme-challenge"@ + "/"@ + token@,
{
    let mut dir = webroot.to_string();
    dir.append("/.well-known/acme-challenge");
    let mut file = dir.clone();
    file.append("/");
    file.append(token);
    (dir, file)
}

/// The request an HTTP-01 issuance makes next, once its challenge file is
/// in place.
#[derive(Clone, Debug)]
pub enum Http01Stage {
    /// Tell the server the challenge is ready.
    SetReady,
    /// Wait for the order to become ready.
    PollOrder,
    /// Finalize the order, which yields the private key.
    Finalize,
    /// Fetch the certificate chain; the private key is already at hand.
    FetchCertificate { private_key_pem: String },
}

/// What the server answered to the last request.
#[derive(Clone, Debug)]
pub enum Http01Reply {
    /// The request failed with this message.
    Failed(String),
    /// The challenge was marked ready.
    ReadySet,
    /// The order settled; `ready` when it is ready, else its status.
    OrderSettled { ready: bool, status: String },
    /// The order was finalized with this private key.
    Finalized(String),
    /// The certificate chain.
    Certificate(String),
}

/// Why an HTTP-01 issuance failed.
#[derive(Clone, Debug)]
pub enum Http01Failure {
    /// A request failed with this message.
    Request(String),
    /// The order settled in a status other than ready.
    OrderNotReady(String),
}

/// What follows: another request, or the end, where the challenge file is
/// removed whatever the outcome and the outcome is returned as it is.
#[derive(Debug)]
pub enum Http01Next {
    Request(Http01Stage),
    RemoveChallengeThen(Result<IssuedCertificate, Http01Failure>),
}

/// The reply answers the request of the stage (a failure answers any).
pub open spec fn reply_fits(stage: Http01Stage, reply: Http01Reply) -> bool {
    match reply {
        Http01Reply::Failed(_) => true,
        Http01Reply::ReadySet => stage is SetReady,
        Http01Reply::OrderSettled { .. } => stage is PollOrder,
        Http01Reply::Finalized(_) => stage is Finalize,
        Http01Reply::Certificate(_) => stage is FetchCertificate,
    }
}

/// One step of an HTTP-01 issuance: a failure ends it with that failure; a
/// ready challenge leads to polling the order; a ready order to finalizing
/// it, an order in any other status ends it; the private key to fetching
/// the certificate, and the certificate ends it with both. Every end removes
/// the challenge file first.
pub fn http01_next(stage: Http01Stage, reply: Http01Reply) -> (r: Http01Next)
    requires
        reply_fits(stage, reply),
    ensures
        match reply {
            Http01Reply::Failed(m) => r matches Http01Next::RemoveChallengeThen(Err(Http01Failure::Request(x)))
                && x@ == m@,
            Http01Reply::ReadySet => r matches Http01Next::Request(Http01Stage::PollOrder),
            Http01Reply::OrderSettled { ready, status } => if ready {
                r matches Http01Next::Request(Http01Stage::Finalize)
            } else {
                r matches Http01Next::RemoveChallengeThen(Err(Http01Failure::OrderNotReady(x))) && x@ == status@
            },
            Http01Reply::Finalized(key) => r matches Http01Next::Request(Http01Stage::FetchCertificate { private_key_pem })
                && private_key_pem@ == key@,
            Http01Reply::Certificate(chain) => r matches Http01Next::RemoveChallengeThen(Ok(c)) && c.certificate_pem@
                == chain@ && (stage matches Http01Stage::FetchCertificate { private_key_pem } && c.private_key_pem@
                == private_key_pem@),
        },
{
    match reply {
        Http01Reply::Failed(m) => Http01Next::RemoveChallengeThen(Err(Http01Failure::Request(m))),
        Http01Reply::ReadySet => Http01Next::Request(Http01Stage::PollOrder),
        Http01Reply::OrderSettled { ready, status } => if ready {
            Http01Next::Request(Http01Stage::Finalize)
        } else {
            Http01Next::RemoveChallengeThen(Err(Http01Failure::OrderNotReady(status)))
        },
        Http01Reply::Finalized(key) => Http01Next::Request(Http01Stage::FetchCertificate { private_key_pem: key }),
        Http01Reply::Certificate(chain) => match stage {
            Http01Stage::FetchCertificate { private_key_pem } => Http01Next::RemoveChallengeThen(
                Ok(IssuedCertificate { certificate_pem: chain, private_key_pem }),
            ),
            _ => Http01Next::RemoveChallengeThen(Err(Http01Failure::Request(chain))),
        },
    }
}

} // verus!
