//! Calls into the hashing, encoding and token crates, and into std for time,
//! random identifiers and Unicode case mapping. Each function here is
//! trusted: its contract is what the called code documents or shows.

use vstd::prelude::*;

use crate::base32::base32_nopad;
use crate::token::{member_value, members_view};

verus! {

/// HMAC-SHA1 of `message` under `key`.
pub uninterp spec fn hmac_sha1(key: Seq<u8>, message: Seq<u8>) -> Seq<u8>;



/// The members of the claims object that `jsonwebtoken::decode` gives for a
/// token under a secret, when it checks the HS256 signature and the issuer
/// and leaves the expiry to the caller; nothing when it refuses the token.
pub uninterp spec fn jwt_decoded_claims(token: Seq<char>, secret: Seq<u8>, issuer: Seq<char>) -> Option<
    Seq<(Seq<char>, (Option<Seq<char>>, Option<Option<u64>>))>,
>;

/// The compact token that `jsonwebtoken::encode` writes for claims under a
/// secret, with the default (HS256) header.
pub uninterp spec fn jwt_encoded(
    members: Seq<(Seq<char>, (Option<Seq<char>>, Option<Option<u64>>))>,
    secret: Seq<u8>,
) -> Seq<char>;

/// What `char::to_uppercase` yields for one character.
pub uninterp spec fn unicode_upper(c: char) -> Seq<char>;

/// What `str::to_lowercase` gives: the Unicode lower-case mapping of a text.
pub uninterp spec fn unicode_lowercase(s: Seq<char>) -> Seq<char>;

/// `Hmac::<Sha1>::new_from_slice(key)`, `update(message)`, `finalize()`.
/// Trusted: the result is the HMAC-SHA1 of the message under the key, 20
/// bytes long; `new_from_slice` accepts keys of every length for HMAC (the
/// crate's `HmacCore::new_from_slice` always returns `Ok`).
#[verifier::external_body]
pub(crate) fn hmac_sha1_digest(key: &[u8], message: &[u8]) -> (r: Vec<u8>)
    ensures
        r@ == hmac_sha1(key@, message@),
        r@.len() == 20,
{
    match <hmac::Hmac<sha1::Sha1> as hmac::Mac>::new_from_slice(key) {
        Ok(mut mac) => {
            hmac::Mac::update(&mut mac, message);
            hmac::Mac::finalize(mac).into_bytes().to_vec()
        },
        Err(_) => Vec::new(),
    }
}

/// `data_encoding::BASE32_NOPAD.decode(input.as_bytes())`.
/// Trusted: this encoding checks the length and the trailing bits, so it
/// succeeds exactly on the texts that are the encoding of some bytes (see
/// [`base32_nopad`]), and gives bytes whose encoding is the text.
#[verifier::external_body]
pub(crate) fn base32_nopad_decode(input: &str) -> (r: Option<Vec<u8>>)
    ensures
        r is Some ==> base32_nopad(r->0@) == input@,
        (exists|x: Seq<u8>| #[trigger] base32_nopad(x) == input@) ==> r is Some,
{
    data_encoding::BASE32_NOPAD.decode(input.as_bytes()).ok()
}

/// `c.to_uppercase()` collected into a string.
/// Trusted: the result is the character's Unicode upper-case mapping.
#[verifier::external_body]
pub(crate) fn char_to_upper(c: char) -> (r: String)
    ensures
        r@ == unicode_upper(c),
{
    c.to_uppercase().collect()
}

/// Seconds since the Unix epoch (`SystemTime::now().duration_since(UNIX_EPOCH)`).
/// Trusted for nothing about the value: it reads the clock, and it is `None`
/// when the clock is set before the epoch.
#[verifier::external_body]
pub(crate) fn unix_now() -> (r: Option<u64>) {
    match std::time::SystemTime::now().duration_since(std::time::UNIX_EPOCH) {
        Ok(d) => Some(d.as_secs()),
        Err(_) => None,
    }
}

/// `uuid::Uuid::new_v4().to_string()`.
/// Trusted: a random identifier in the 36-character hyphenated form.
#[verifier::external_body]
pub(crate) fn new_uuid() -> (r: String)
    ensures
        r@.len() == 36,
{
    uuid::Uuid::new_v4().to_string()
}

/// `uuid::Uuid::new_v4().simple().to_string()`.
/// Trusted: a random identifier in the 32-character form without hyphens
/// (`Simple::LENGTH`), written in lower-case hexadecimal digits.
#[verifier::external_body]
pub(crate) fn new_uuid_simple() -> (r: String)
    ensures
        r@.len() == 32,
        forall|i: int| 0 <= i < r@.len() ==> ('0' <= #[trigger] r@[i] <= '9' || 'a' <= r@[i] <= 'f'),
{
    uuid::Uuid::new_v4().simple().to_string()
}

/// `str::to_lowercase`.
/// Trusted: the result is the text's Unicode lower-case mapping, a function
/// of the text alone.
#[verifier::external_body]
pub(crate) fn text_to_lowercase(s: &str) -> (r: String)
    ensures
        r@ == unicode_lowercase(s@),
{
    s.to_lowercase()
}


/// A claim as the token decoder hands it over: a string, a number (with the
/// `u64` it holds, if it holds one), or any other JSON value.
#[derive(Clone, Debug)]
pub enum ClaimValue {
    Text(String),
    Number(Option<u64>),
    Other,
}

/// A claim value as the text it holds, if a string, and the number it holds,
/// if a number.
pub open spec fn claim_value_view(v: ClaimValue) -> (Option<Seq<char>>, Option<Option<u64>>) {
    match v {
        ClaimValue::Text(s) => (Some(s@), None),
        ClaimValue::Number(n) => (None, Some(n)),
        ClaimValue::Other => (None, None),
    }
}

/// `jsonwebtoken::decode::<serde_json::Map<String, Value>>(token,
/// &DecodingKey::from_secret(secret), &validation)` where the validation is
/// `Validation::new(HS256)` with `set_issuer(&[issuer])` and `validate_exp`
/// off (so the crate reads no clock; it still requires an `exp` claim).
/// Trusted: the result is a function of the token, the secret and the
/// issuer, handed over member by member; strings, numbers (by `as_u64`) and
/// other values are told apart.
#[verifier::external_body]
pub(crate) fn jwt_decode_claims(token: &str, secret: &[u8], issuer: &str) -> (r: Option<Vec<(String, ClaimValue)>>)
    ensures
        match jwt_decoded_claims(token@, secret@, issuer@) {
            Some(m) => r is Some && r->0@.map_values(|p: (String, ClaimValue)| (p.0@, claim_value_view(p.1))) == m,
            None => r is None,
        },
{
    let mut validation = jsonwebtoken::Validation::new(jsonwebtoken::Algorithm::HS256);
    validation.set_issuer(&[issuer]);
    validation.validate_exp = false;
    let key = jsonwebtoken::DecodingKey::from_secret(secret);
    let decoded = jsonwebtoken::decode::<serde_json::Map<String, serde_json::Value>>(token, &key, &validation).ok()?;
    Some(decoded.claims.into_iter().map(|(k, v)| match v {
        serde_json::Value::String(s) => (k, ClaimValue::Text(s)),
        serde_json::Value::Number(n) => (k, ClaimValue::Number(n.as_u64())),
        _ => (k, ClaimValue::Other),
    }).collect())
}

/// The members can be encoded and read back under `issuer`: distinct keys,
/// each a string or a number that fits a `u64`; an `iss` that is `issuer`,
/// a numeric `exp`, and no `aud`.
pub open spec fn reads_back(m: Seq<(Seq<char>, (Option<Seq<char>>, Option<Option<u64>>))>, issuer: Seq<char>) -> bool {
    &&& forall|i: int, j: int| 0 <= i < j < m.len() ==> #[trigger] m[i].0 != #[trigger] m[j].0
    &&& forall|i: int| 0 <= i < m.len() ==> ((#[trigger] m[i]).1.0 is Some && m[i].1.1 is None) || (m[i].1.0 is None
        && m[i].1.1 matches Some(Some(_)))
    &&& member_value(m, "iss"@) == Some((Some(issuer), None::<Option<u64>>))
    &&& member_value(m, "exp"@) matches Some((None, Some(Some(_))))
    &&& member_value(m, "aud"@) is None
}

/// `jsonwebtoken::encode(&Header::default(), &claims, &EncodingKey::from_secret(secret))`
/// where the claims are a `serde_json::Map` of the members (strings as
/// strings, numbers as numbers).
/// Trusted: encoding succeeds for the default HS256 header and an HMAC key
/// (the crate's only error paths are an algorithm of another family and a
/// serialization that a map of strings and numbers never fails); the token
/// is a function of the members and the secret; and decoding it with the
/// same secret (see [`jwt_decode_claims`]) gives back a claims object with
/// the same members, when they read back under the issuer.
#[verifier::external_body]
pub(crate) fn jwt_encode(members: Vec<(String, ClaimValue)>, secret: &[u8]) -> (r: Option<String>)
    ensures
        r is Some,
        r->0@ == jwt_encoded(members_view(members@), secret@),
        forall|issuer: Seq<char>|
            reads_back(members_view(members@), issuer) ==> (#[trigger] jwt_decoded_claims(r->0@, secret@, issuer) is Some
                && forall|k: Seq<char>| member_value(jwt_decoded_claims(r->0@, secret@, issuer)->0, k) == member_value(
                members_view(members@),
                k,
            )),
{
    let mut claims = serde_json::Map::new();
    for (key, value) in members {
        let value = match value {
            ClaimValue::Text(s) => serde_json::Value::String(s),
            ClaimValue::Number(Some(n)) => serde_json::Value::from(n),
            ClaimValue::Number(None) => serde_json::Value::Null,
            ClaimValue::Other => serde_json::Value::Null,
        };
        claims.insert(key, value);
    }
    let key = jsonwebtoken::EncodingKey::from_secret(secret);
    jsonwebtoken::encode(&jsonwebtoken::Header::default(), &claims, &key).ok()
}

} // verus!
