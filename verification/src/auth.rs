//! Panel authentication: the token authority and its configuration, JWT
//! issuing, credential and TOTP checks, bearer header parsing, the
//! per-account login throttle and the login flow.

use std::sync::Arc;

use vstd::hash_map::StringHashMap;
use vstd::prelude::*;
use vstd::utf8::encode_utf8;

use crate::base32::base32_nopad;
use crate::crypto::{jwt_encode, jwt_encoded, unix_now};
use crate::status::{error_response, ok_response, ApiResponse, Code, Status};
use crate::token::{
    issued_members, issued_members_exec, issued_outcome, lemma_issued_members, lemma_issued_token_validates,
    validates_as_issued, validation,
};
use crate::text::{
    all_ws, chars_of, dec, eq_str, lower_seq, parse_unsigned, parse_unsigned_exec, to_lower, has_char, has_char_exec, is_blank, is_whitespace, is_ws, push_char,
    push_str, push_u64, starts_with_seq, string_of, trim, trim_seq,
};

verus! {

pub const DEFAULT_ISSUER: &'static str = "rustpanel";
pub const DEFAULT_TOKEN_TTL_SECONDS: u64 = 86_400;
pub const MIN_SECRET_BYTES: usize = 32;
pub const BEARER_PREFIX: &'static str = "Bearer ";
pub const REFRESH_SUBJECT_PREFIX: &'static str = "refresh:";

/// Claims carried in a panel token.
#[derive(Clone, Debug, PartialEq, Eq)]
pub struct JwtClaims {
    pub sub: String,
    pub iss: String,
    pub iat: u64,
    pub exp: u64,
    pub role: String,
}

/// A signed token and when it expires.
#[derive(Clone, Debug, PartialEq, Eq)]
pub struct IssuedToken {
    pub token: String,
    pub expires_at: u64,
}

/// The subject of an accepted bearer token.
#[derive(Clone, Debug, PartialEq, Eq)]
pub struct AuthenticatedSubject {
    pub subject: String,
}

/// Why an authentication step failed.
#[derive(Clone, Copy, Debug, PartialEq, Eq, Structural)]
pub enum AuthError {
    EmptySubject,
    ExpiredOrInvalidToken,
    InvalidAdminPassword,
    InvalidTotpSecret,
    InvalidTokenTtl,
    JwtSecretTooShort { min_bytes: usize },
    MissingProductionAdminPassword,
    MissingProductionSecret,
    TimeOverflow,
}

pub open spec fn auth_error_text(e: AuthError) -> Seq<char> {
    match e {
        AuthError::EmptySubject => "subject must not be empty"@,
        AuthError::ExpiredOrInvalidToken => "token is expired or invalid"@,
        AuthError::InvalidAdminPassword => "admin password must not be empty"@,
        AuthError::InvalidTotpSecret => "TOTP secret must be valid base32"@,
        AuthError::InvalidTokenTtl => "JWT TTL must be greater than zero"@,
        AuthError::JwtSecretTooShort { min_bytes } => "JWT secret must be at least "@ + dec(
            min_bytes as nat,
        ) + " bytes"@,
        AuthError::MissingProductionAdminPassword => "RUSTPANEL_ADMIN_PASSWORD is required in production"@,
        AuthError::MissingProductionSecret => "RUSTPANEL_JWT_SECRET is required in production"@,
        AuthError::TimeOverflow => "JWT timestamp overflow"@,
    }
}

impl AuthError {
    /// The human readable text of the error.
    pub fn to_message(&self) -> (r: String)
        ensures
            r@ == auth_error_text(*self),
    {
        match self {
            AuthError::EmptySubject => "subject must not be empty".to_string(),
            AuthError::ExpiredOrInvalidToken => "token is expired or invalid".to_string(),
            AuthError::InvalidAdminPassword => "admin password must not be empty".to_string(),
            AuthError::InvalidTotpSecret => "TOTP secret must be valid base32".to_string(),
            AuthError::InvalidTokenTtl => "JWT TTL must be greater than zero".to_string(),
            AuthError::JwtSecretTooShort { min_bytes } => {
                let mut s = "JWT secret must be at least ".to_string();
                push_u64(&mut s, *min_bytes as u64);
                push_str(&mut s, " bytes");
                s
            },
            AuthError::MissingProductionAdminPassword => "RUSTPANEL_ADMIN_PASSWORD is required in production".to_string(),
            AuthError::MissingProductionSecret => "RUSTPANEL_JWT_SECRET is required in production".to_string(),
            AuthError::TimeOverflow => "JWT timestamp overflow".to_string(),
        }
    }
}

/// The byte at `j`, or 0 past the end.
pub open spec fn byte_or_zero(s: Seq<u8>, j: int) -> u8 {
    if 0 <= j < s.len() {
        s[j]
    } else {
        0
    }
}

/// Equality of two byte strings in time that depends only on their lengths.
pub fn constant_time_eq(left: &[u8], right: &[u8]) -> (r: bool)
    ensures
        r == (left@ == right@),
{
    let llen = left.len();
    let rlen = right.len();
    let max_len = if llen >= rlen { llen } else { rlen };
    let mut diff: usize = llen ^ rlen;
    assert((llen ^ rlen == 0usize) == (llen == rlen)) by (bit_vector);
    let mut index: usize = 0;
    while index < max_len
        invariant
            llen == left@.len(),
            rlen == right@.len(),
            max_len == if llen >= rlen { llen } else { rlen },
            index <= max_len,
            (diff == 0) == (llen == rlen && forall|j: int|
                0 <= j < index ==> byte_or_zero(left@, j) == byte_or_zero(right@, j)),
        decreases max_len - index,
    {
        let lb: u8 = if index < llen { left[index] } else { 0 };
        let rb: u8 = if index < rlen { right[index] } else { 0 };
        assert(lb == byte_or_zero(left@, index as int));
        assert(rb == byte_or_zero(right@, index as int));
        let x: usize = (lb ^ rb) as usize;
        assert(((lb ^ rb) as usize == 0usize) == (lb == rb)) by (bit_vector);
        assert(((diff | x) == 0usize) == (diff == 0usize && x == 0usize)) by (bit_vector);
        diff = diff | x;
        index += 1;
    }
    proof {
        if diff == 0 {
            assert forall|j: int| 0 <= j < left@.len() implies left@[j] == right@[j] by {
                assert(byte_or_zero(left@, j) == byte_or_zero(right@, j));
            }
            assert(left@ =~= right@);
        }
        if left@ == right@ {
            assert forall|j: int| 0 <= j < index implies byte_or_zero(left@, j) == byte_or_zero(
                right@,
                j,
            ) by {}
        }
    }
    diff == 0
}

/// The signing key, issuer and token lifetime.
#[derive(Clone, Debug)]
pub struct JwtAuthority {
    secret: Vec<u8>,
    issuer: String,
    ttl_seconds: u64,
}

impl JwtAuthority {
    pub closed spec fn secret_spec(&self) -> Seq<u8> {
        self.secret@
    }

    pub closed spec fn issuer_spec(&self) -> Seq<char> {
        self.issuer@
    }

    pub closed spec fn ttl_spec(&self) -> u64 {
        self.ttl_seconds
    }

    /// An authority; the secret must have at least 32 bytes and the token
    /// lifetime must be positive.
    pub fn new(secret: Vec<u8>, issuer: String, ttl_seconds: u64) -> (r: Result<Self, AuthError>)
        ensures
            secret@.len() < MIN_SECRET_BYTES ==> r == Err::<Self, AuthError>(
                AuthError::JwtSecretTooShort { min_bytes: MIN_SECRET_BYTES },
            ),
            secret@.len() >= MIN_SECRET_BYTES && ttl_seconds == 0 ==> r == Err::<Self, AuthError>(
                AuthError::InvalidTokenTtl,
            ),
            secret@.len() >= MIN_SECRET_BYTES && ttl_seconds > 0 ==> (r matches Ok(a) && a.secret_spec()
                == secret@ && a.issuer_spec() == issuer@ && a.ttl_spec() == ttl_seconds),
    {
        if secret.len() < MIN_SECRET_BYTES {
            return Err(AuthError::JwtSecretTooShort { min_bytes: MIN_SECRET_BYTES });
        }
        if ttl_seconds == 0 {
            return Err(AuthError::InvalidTokenTtl);
        }
        Ok(JwtAuthority { secret, issuer, ttl_seconds })
    }

    /// The signing secret.
    pub fn secret(&self) -> (r: &[u8])
        ensures
            r@ == self.secret_spec(),
    {
        self.secret.as_slice()
    }

    /// The issuer written into and required of tokens.
    pub fn issuer(&self) -> (r: &str)
        ensures
            r@ == self.issuer_spec(),
    {
        self.issuer.as_str()
    }

    /// Token lifetime in seconds.
    pub fn ttl_seconds(&self) -> (r: u64)
        ensures
            r == self.ttl_spec(),
    {
        self.ttl_seconds
    }

    /// Signs a token for `subject` issued at `issued_at` with `role`.
    pub fn issue_at(&self, subject: &str, issued_at: u64, role: &str) -> (r: Result<
        IssuedToken,
        AuthError,
    >)
        ensures
            all_ws(subject@) ==> r == Err::<IssuedToken, AuthError>(AuthError::EmptySubject),
            !all_ws(subject@) && issued_at + self.ttl_spec() > u64::MAX ==> r == Err::<
                IssuedToken,
                AuthError,
            >(AuthError::TimeOverflow),
            !all_ws(subject@) && issued_at + self.ttl_spec() <= u64::MAX ==> (r matches Ok(t)
                && t.expires_at == issued_at + self.ttl_spec() && t.token@ == jwt_encoded(
                issued_members(subject@, self.issuer_spec(), issued_at, t.expires_at, role@),
                self.secret_spec(),
            )),
            r matches Ok(t) ==> validates_as_issued(*self, t.token@, subject@, issued_at, t.expires_at, role@),
    {
        if is_blank(subject) {
            return Err(AuthError::EmptySubject);
        }
        if issued_at > u64::MAX - self.ttl_seconds {
            return Err(AuthError::TimeOverflow);
        }
        let expires_at = issued_at + self.ttl_seconds;
        let members = issued_members_exec(subject, self.issuer.as_str(), issued_at, expires_at, role);
        let token = match jwt_encode(members, self.secret.as_slice()) {
            Some(t) => t,
            None => {
                return Err(AuthError::ExpiredOrInvalidToken);
            },
        };
        proof {
            lemma_issued_members(subject@, self.issuer@, issued_at, expires_at, role@);
            assert forall|now: u64|
                #[trigger] validation(self.secret_spec(), self.issuer_spec(), token@, now) == issued_outcome(
                    subject@,
                    self.issuer_spec(),
                    issued_at,
                    expires_at,
                    role@,
                    now,
                ) by {
                lemma_issued_token_validates(
                    self.secret_spec(),
                    token@,
                    subject@,
                    self.issuer_spec(),
                    issued_at,
                    expires_at,
                    role@,
                    now,
                );
            }
        }
        Ok(IssuedToken { token, expires_at })
    }

    /// Signs an admin token for `subject` at the current time.
    pub fn issue(&self, subject: &str) -> (r: Result<IssuedToken, AuthError>)
        ensures
            all_ws(subject@) ==> r is Err,
            r is Err ==> r == Err::<IssuedToken, AuthError>(AuthError::TimeOverflow) || (all_ws(subject@)
                && r == Err::<IssuedToken, AuthError>(AuthError::EmptySubject)),
            r matches Ok(t) ==> issued_for(*self, t, subject@, "admin"@),
    {
        match unix_now() {
            Some(now) => self.issue_at(subject, now, "admin"),
            None => Err(AuthError::TimeOverflow),
        }
    }

    /// Signs a token with `role` for `subject` at the current time.
    pub fn issue_with_role(&self, subject: &str, role: &str) -> (r: Result<IssuedToken, AuthError>)
        ensures
            all_ws(subject@) ==> r is Err,
            r is Err ==> r == Err::<IssuedToken, AuthError>(AuthError::TimeOverflow) || (all_ws(subject@)
                && r == Err::<IssuedToken, AuthError>(AuthError::EmptySubject)),
            r matches Ok(t) ==> issued_for(*self, t, subject@, role@),
    {
        match unix_now() {
            Some(now) => self.issue_at(subject, now, role),
            None => Err(AuthError::TimeOverflow),
        }
    }
}

/// The last check of decoded claims: the subject must not be blank.
pub fn check_claims(claims: JwtClaims) -> (r: Result<JwtClaims, AuthError>)
    ensures
        all_ws(claims.sub@) ==> r == Err::<JwtClaims, AuthError>(AuthError::EmptySubject),
        !all_ws(claims.sub@) ==> r == Ok::<JwtClaims, AuthError>(claims),
{
    if is_blank(claims.sub.as_str()) {
        return Err(AuthError::EmptySubject);
    }
    Ok(claims)
}

/// The signing secret used outside production when none is configured.
pub const DEV_ONLY_SECRET: &'static str = "rustpanel-dev-only-secret-change-before-production";
/// The administrator name when none is configured.
pub const DEFAULT_ADMIN_USERNAME: &'static str = "admin";
/// The administrator password outside production when none is configured.
pub const DEFAULT_ADMIN_PASSWORD: &'static str = "rustpanel";

/// The deployment is production: `RUSTPANEL_ENV` (else `APP_ENV`) says
/// `production` in any case.
pub fn is_production_env(value: Option<&str>) -> (r: bool)
    ensures
        r == match value {
            Some(v) => lower_seq(v@) == "production"@,
            None => false,
        },
{
    match value {
        Some(v) => {
            let l = to_lower(v);
            eq_str(l.as_str(), "production")
        },
        None => false,
    }
}

impl JwtAuthority {
    /// The authority that the configuration gives: the configured secret
    /// (in production one is required; elsewhere a development secret
    /// stands in), the configured issuer or the default, and the configured
    /// lifetime when it reads as a number, else a day.
    pub fn from_env(secret: Option<&str>, issuer: Option<&str>, ttl_seconds: Option<&str>, production: bool) -> (r: Result<Self, AuthError>)
        ensures
            secret is None && production ==> r == Err::<Self, AuthError>(AuthError::MissingProductionSecret),
            !(secret is None && production) ==> ({
                let key = match secret { Some(s) => s@, None => DEV_ONLY_SECRET@ };
                let iss = match issuer { Some(s) => s@, None => DEFAULT_ISSUER@ };
                let ttl: u64 = match ttl_seconds {
                    Some(t) => match parse_unsigned(t@, u64::MAX as nat) {
                        Some(n) => n as u64,
                        None => DEFAULT_TOKEN_TTL_SECONDS,
                    },
                    None => DEFAULT_TOKEN_TTL_SECONDS,
                };
                &&& encode_utf8(key).len() < MIN_SECRET_BYTES ==> r == Err::<Self, AuthError>(
                    AuthError::JwtSecretTooShort { min_bytes: MIN_SECRET_BYTES })
                &&& encode_utf8(key).len() >= MIN_SECRET_BYTES && ttl == 0 ==> r == Err::<Self, AuthError>(AuthError::InvalidTokenTtl)
                &&& encode_utf8(key).len() >= MIN_SECRET_BYTES && ttl > 0 ==> (r matches Ok(a)
                    && a.secret_spec() == encode_utf8(key) && a.issuer_spec() == iss && a.ttl_spec() == ttl)
            }),
    {
        let key: &str = match secret {
            Some(s) => s,
            None => {
                if production {
                    return Err(AuthError::MissingProductionSecret);
                }
                DEV_ONLY_SECRET
            },
        };
        let iss = match issuer {
            Some(s) => s.to_string(),
            None => DEFAULT_ISSUER.to_string(),
        };
        let ttl: u64 = match ttl_seconds {
            Some(t) => match parse_unsigned_exec(t, u64::MAX) {
                Some(n) => n,
                None => DEFAULT_TOKEN_TTL_SECONDS,
            },
            None => DEFAULT_TOKEN_TTL_SECONDS,
        };
        let bytes = vstd::slice::slice_to_vec(key.as_bytes());
        JwtAuthority::new(bytes, iss, ttl)
    }
}

/// The administrator login that the configuration gives: the configured
/// name or `admin`; the configured password (required in production, else
/// the default one), which must not be blank.
pub fn panel_credentials_from_env(username: Option<&str>, password: Option<&str>, production: bool) -> (r: Result<PanelCredentials, AuthError>)
    ensures
        password is None && production ==> r == Err::<PanelCredentials, AuthError>(AuthError::MissingProductionAdminPassword),
        !(password is None && production) ==> ({
            let pw = match password { Some(p) => p@, None => DEFAULT_ADMIN_PASSWORD@ };
            let name = match username { Some(u) => u@, None => DEFAULT_ADMIN_USERNAME@ };
            &&& all_ws(pw) ==> r == Err::<PanelCredentials, AuthError>(AuthError::InvalidAdminPassword)
            &&& !all_ws(pw) ==> (r matches Ok(c) && c.username@ == name && c.password@ == pw)
        }),
{
    let pw = match password {
        Some(p) => p.to_string(),
        None => {
            if production {
                return Err(AuthError::MissingProductionAdminPassword);
            }
            DEFAULT_ADMIN_PASSWORD.to_string()
        },
    };
    let name = match username {
        Some(u) => u.to_string(),
        None => DEFAULT_ADMIN_USERNAME.to_string(),
    };
    panel_credentials(name, pw)
}

/// The configured administrator login.
#[derive(Clone, Debug, PartialEq, Eq)]
pub struct PanelCredentials {
    pub username: String,
    pub password: String,
}

impl PanelCredentials {
    /// Both the user name and the password equal, compared in constant time.
    pub fn matches(&self, username: &str, password: &str) -> (r: bool)
        ensures
            r == (self.username@ == username@ && self.password@ == password@),
    {
        let a = constant_time_eq(self.username.as_str().as_bytes(), username.as_bytes());
        let b = constant_time_eq(self.password.as_str().as_bytes(), password.as_bytes());
        proof {
            vstd::utf8::encode_utf8_decode_utf8(self.username@);
            vstd::utf8::encode_utf8_decode_utf8(username@);
            vstd::utf8::encode_utf8_decode_utf8(self.password@);
            vstd::utf8::encode_utf8_decode_utf8(password@);
        }
        a && b
    }
}

/// Credentials from configured values; a blank password is refused.
pub fn panel_credentials(username: String, password: String) -> (r: Result<PanelCredentials, AuthError>)
    ensures
        all_ws(password@) ==> r == Err::<PanelCredentials, AuthError>(AuthError::InvalidAdminPassword),
        !all_ws(password@) ==> (r matches Ok(c) && c.username@ == username@ && c.password@
            == password@),
{
    if is_blank(password.as_str()) {
        return Err(AuthError::InvalidAdminPassword);
    }
    Ok(PanelCredentials { username, password })
}

/// The gRPC interceptor that requires a valid bearer token.
#[derive(Clone, Debug)]
pub struct AuthInterceptor {
    authority: Arc<JwtAuthority>,
}

impl AuthInterceptor {
    pub closed spec fn authority_spec(&self) -> JwtAuthority {
        *self.authority
    }

    /// An interceptor that validates tokens with `authority`.
    pub fn new(authority: JwtAuthority) -> (r: Self)
        ensures
            r.authority_spec() == authority,
    {
        AuthInterceptor { authority: Arc::new(authority) }
    }

    /// The authority tokens are validated with.
    pub fn authority(&self) -> (r: &JwtAuthority)
        ensures
            *r == self.authority_spec(),
    {
        &self.authority
    }

    /// The verdict on a request once its bearer token was validated: the
    /// token's subject is let through; any validation failure is answered
    /// as unauthenticated without saying why.
    pub fn authenticate(&self, validated: Result<JwtClaims, AuthError>) -> (r: Result<AuthenticatedSubject, Status>)
        ensures
            validated matches Ok(c) ==> (r matches Ok(s) && s.subject == c.sub),
            validated is Err ==> (r matches Err(e) && e.code == Code::Unauthenticated
                && e.message@ == "invalid bearer token"@),
    {
        match validated {
            Ok(claims) => Ok(AuthenticatedSubject { subject: claims.sub }),
            Err(_) => Err(Status::new(Code::Unauthenticated, "invalid bearer token")),
        }
    }
}

/// What a bearer `authorization` header yields: the token after
/// `Bearer `, which must be non-blank and free of white space.
pub open spec fn bearer_token_spec(value: Option<Seq<char>>) -> Option<Seq<char>> {
    match value {
        None => None,
        Some(v) => if starts_with_seq(v, BEARER_PREFIX@) {
            let token = v.skip(BEARER_PREFIX@.len() as int);
            if trim_seq(token).len() == 0 || exists|i: int| 0 <= i < token.len() && is_ws(#[trigger] token[i]) {
                None
            } else {
                Some(token)
            }
        } else {
            None
        },
    }
}

/// The token of a `Bearer` authorization header (already decoded as ASCII
/// text); each refusal is an unauthenticated status.
pub fn bearer_token(value: Option<&str>) -> (r: Result<String, Status>)
    ensures
        match bearer_token_spec(
            match value {
                Some(v) => Some(v@),
                None => None,
            },
        ) {
            Some(t) => r matches Ok(s) && s@ == t,
            None => r matches Err(e) && e.code == Code::Unauthenticated,
        },
{
    let header = match value {
        Some(v) => v,
        None => {
            return Err(Status::new(Code::Unauthenticated, "missing authorization header"));
        },
    };
    if !crate::text::starts_with(header, BEARER_PREFIX) {
        return Err(Status::new(Code::Unauthenticated, "authorization header must use Bearer scheme"));
    }
    let v = chars_of(header);
    let p = chars_of(BEARER_PREFIX);
    let token = string_of(&v, p.len(), v.len());
    assert(token@ == v@.skip(BEARER_PREFIX@.len() as int));
    let tv = chars_of(token.as_str());
    let mut i: usize = 0;
    while i < tv.len()
        invariant
            i <= tv.len(),
            tv@ == token@,
            value == Some(header),
            token@ == header@.skip(BEARER_PREFIX@.len() as int),
            starts_with_seq(header@, BEARER_PREFIX@),
            forall|j: int| 0 <= j < i ==> !is_ws(#[trigger] tv@[j]),
        decreases tv.len() - i,
    {
        if is_whitespace(tv[i]) {
            assert(is_ws(token@[i as int]));
            return Err(Status::new(Code::Unauthenticated, "bearer token is empty or malformed"));
        }
        i += 1;
    }
    if is_blank(token.as_str()) {
        return Err(Status::new(Code::Unauthenticated, "bearer token is empty or malformed"));
    }
    Ok(token)
}


pub const TOTP_STEP_SECONDS: u64 = 30;
pub const TOTP_DIGITS: u32 = 6;

/// The eight big-endian bytes of `c` (`u64::to_be_bytes`).
pub open spec fn be_bytes(c: u64) -> Seq<u8> {
    seq![
        (c >> 56u64) as u8,
        (c >> 48u64) as u8,
        (c >> 40u64) as u8,
        (c >> 32u64) as u8,
        (c >> 24u64) as u8,
        (c >> 16u64) as u8,
        (c >> 8u64) as u8,
        c as u8,
    ]
}

/// RFC 4226 dynamic truncation of a 20-byte HMAC-SHA1 digest.
pub open spec fn dynamic_truncation(d: Seq<u8>) -> u32 {
    let o = (d[19] & 0x0fu8) as int;
    (((d[o] & 0x7fu8) as u32) << 24u32) | ((d[o + 1] as u32) << 16u32) | ((d[o + 2] as u32)
        << 8u32) | (d[o + 3] as u32)
}

/// `n` as exactly six decimal digits, zero padded (for `n < 10^6`).
pub open spec fn six_digits(n: nat) -> Seq<char> {
    seq![
        crate::text::digit_char(n / 100000),
        crate::text::digit_char(n / 10000),
        crate::text::digit_char(n / 1000),
        crate::text::digit_char(n / 100),
        crate::text::digit_char(n / 10),
        crate::text::digit_char(n),
    ]
}

/// The six-digit TOTP code of `secret` for time step `counter`.
pub open spec fn totp_spec(secret: Seq<u8>, counter: u64) -> Seq<char> {
    six_digits(
        (dynamic_truncation(crate::crypto::hmac_sha1(secret, be_bytes(counter))) % 1_000_000) as nat,
    )
}

/// The time steps a code is accepted for: the current one and one either side.
pub open spec fn totp_window(timestamp_seconds: u64, c: u64) -> bool {
    let counter = timestamp_seconds / TOTP_STEP_SECONDS;
    let lo = if counter > 0 { (counter - 1) as u64 } else { 0 };
    let hi = if counter < u64::MAX { (counter + 1) as u64 } else { u64::MAX };
    lo <= c <= hi
}

pub open spec fn verify_totp_spec(secret: Seq<u8>, code: Seq<char>, timestamp_seconds: u64) -> bool {
    &&& code.len() == TOTP_DIGITS
    &&& crate::text::all_digits(code)
    &&& exists|c: u64| totp_window(timestamp_seconds, c) && #[trigger] totp_spec(secret, c) == code
}

/// A code generated for the current time step is accepted at that time.
pub proof fn law_current_code_verifies(secret: Seq<u8>, timestamp_seconds: u64)
    ensures
        verify_totp_spec(secret, totp_spec(secret, (timestamp_seconds / TOTP_STEP_SECONDS) as u64), timestamp_seconds),
{
    let c = (timestamp_seconds / TOTP_STEP_SECONDS) as u64;
    let code = totp_spec(secret, c);
    assert(totp_window(timestamp_seconds, c));
    assert forall|i: int| 0 <= i < code.len() implies crate::text::is_ascii_digit(#[trigger] code[i]) by {}
}

/// Clock drift of one step either way is tolerated: at time `t`, in step
/// `c = t / 30`, the code of step `c - 1` (when there is one) and the code of
/// step `c + 1` are both accepted.
pub proof fn law_adjacent_codes_verify(secret: Seq<u8>, t: u64)
    ensures
        t / 30 > 0 ==> verify_totp_spec(secret, totp_spec(secret, (t / 30 - 1) as u64), t),
        verify_totp_spec(secret, totp_spec(secret, (t / 30 + 1) as u64), t),
{
    let c = t / 30;
    assert(c < u64::MAX);
    if c > 0 {
        let p = (c - 1) as u64;
        let code = totp_spec(secret, p);
        assert(totp_window(t, p));
        assert forall|i: int| 0 <= i < code.len() implies crate::text::is_ascii_digit(#[trigger] code[i]) by {}
    }
    let n = (c + 1) as u64;
    let code = totp_spec(secret, n);
    assert(totp_window(t, n));
    assert forall|i: int| 0 <= i < code.len() implies crate::text::is_ascii_digit(#[trigger] code[i]) by {}
}

/// The TOTP code for one time step. It never fails: HMAC accepts keys of
/// every length.
pub fn totp_code(secret: &[u8], counter: u64) -> (r: Result<String, AuthError>)
    ensures
        r matches Ok(s) && s@ == totp_spec(secret@, counter),
{
    let mut msg: Vec<u8> = Vec::new();
    msg.push((counter >> 56u64) as u8);
    msg.push((counter >> 48u64) as u8);
    msg.push((counter >> 40u64) as u8);
    msg.push((counter >> 32u64) as u8);
    msg.push((counter >> 24u64) as u8);
    msg.push((counter >> 16u64) as u8);
    msg.push((counter >> 8u64) as u8);
    msg.push(counter as u8);
    assert(msg@ =~= be_bytes(counter));
    let digest = crate::crypto::hmac_sha1_digest(secret, msg.as_slice());
    let last = digest[19];
    assert(last & 0x0fu8 <= 15u8) by (bit_vector);
    let offset = (last & 0x0f) as usize;
    let binary: u32 = (((digest[offset] & 0x7f) as u32) << 24u32) | ((digest[offset + 1] as u32)
        << 16u32) | ((digest[offset + 2] as u32) << 8u32) | (digest[offset + 3] as u32);
    let n = binary % 1_000_000;
    let mut out = String::new();
    push_char(&mut out, (((n / 100000) % 10) as u8 + 48) as char);
    push_char(&mut out, (((n / 10000) % 10) as u8 + 48) as char);
    push_char(&mut out, (((n / 1000) % 10) as u8 + 48) as char);
    push_char(&mut out, (((n / 100) % 10) as u8 + 48) as char);
    push_char(&mut out, (((n / 10) % 10) as u8 + 48) as char);
    push_char(&mut out, ((n % 10) as u8 + 48) as char);
    assert(out@ =~= six_digits(n as nat));
    Ok(out)
}

/// Whether `code` is the six-digit code of the current time step or of an
/// adjacent one; the comparison runs in constant time.
pub fn verify_totp(secret: &[u8], code: &str, timestamp_seconds: u64) -> (r: bool)
    ensures
        r == verify_totp_spec(secret@, code@, timestamp_seconds),
{
    let v = chars_of(code);
    if v.len() != 6 {
        return false;
    }
    let mut k: usize = 0;
    while k < v.len()
        invariant
            k <= v.len(),
            v@ == code@,
            forall|j: int| 0 <= j < k ==> crate::text::is_ascii_digit(#[trigger] v@[j]),
        decreases v.len() - k,
    {
        if !crate::text::is_digit(v[k]) {
            return false;
        }
        k += 1;
    }
    let counter = timestamp_seconds / TOTP_STEP_SECONDS;
    let lo = if counter > 0 { counter - 1 } else { 0 };
    let hi = if counter < u64::MAX { counter + 1 } else { u64::MAX };
    let mut c = lo;
    let mut found = false;
    loop
        invariant
            lo <= c <= hi,
            lo == if timestamp_seconds / TOTP_STEP_SECONDS > 0 { (timestamp_seconds / TOTP_STEP_SECONDS - 1) as u64 } else { 0 },
            hi == if timestamp_seconds / TOTP_STEP_SECONDS < u64::MAX { (timestamp_seconds / TOTP_STEP_SECONDS + 1) as u64 } else { u64::MAX },
            found == exists|d: u64| lo <= d < c && #[trigger] totp_spec(secret@, d) == code@,
        decreases hi - c,
    {
        let expected = match totp_code(secret, c) {
            Ok(e) => e,
            Err(_) => String::new(),
        };
        let same = constant_time_eq(expected.as_str().as_bytes(), code.as_bytes());
        proof {
            vstd::utf8::encode_utf8_decode_utf8(expected@);
            vstd::utf8::encode_utf8_decode_utf8(code@);
        }
        let ghost before = found;
        found = found || same;
        proof {
            if same {
                assert(totp_spec(secret@, c) == code@);
            }
            assert(found == exists|d: u64| lo <= d < c + 1 && #[trigger] totp_spec(secret@, d) == code@) by {
                if (exists|d: u64| lo <= d < c + 1 && #[trigger] totp_spec(secret@, d) == code@) && !before {
                    let d = choose|d: u64| lo <= d < c + 1 && #[trigger] totp_spec(secret@, d) == code@;
                    assert(d == c);
                }
            }
        }
        if c == hi {
            proof {
                assert forall|d: u64| totp_window(timestamp_seconds, d) implies (lo <= d < c + 1) by {}
            }
            return found;
        }
        c += 1;
    }
}

/// The characters a TOTP secret is decoded from: white space and `=`
/// removed, the rest upper-cased.
pub open spec fn totp_normalize(s: Seq<char>) -> Seq<char>
    decreases s.len(),
{
    if s.len() == 0 {
        Seq::empty()
    } else {
        totp_normalize(s.drop_last()) + if is_ws(s.last()) || s.last() == '=' {
            Seq::<char>::empty()
        } else {
            crate::crypto::unicode_upper(s.last())
        }
    }
}

/// Decodes a base32 TOTP secret, ignoring spaces, padding and case.
pub fn decode_totp_secret(secret: &str) -> (r: Result<Vec<u8>, AuthError>)
    ensures
        (exists|x: Seq<u8>| #[trigger] base32_nopad(x) == totp_normalize(secret@)) ==> (r matches Ok(v)
            && base32_nopad(v@) == totp_normalize(secret@)),
        !(exists|x: Seq<u8>| #[trigger] base32_nopad(x) == totp_normalize(secret@)) ==> r == Err::<
            Vec<u8>,
            AuthError,
        >(AuthError::InvalidTotpSecret),
{
    let v = chars_of(secret);
    let mut normalized = String::new();
    let mut i: usize = 0;
    while i < v.len()
        invariant
            i <= v.len(),
            v@ == secret@,
            normalized@ == totp_normalize(v@.take(i as int)),
        decreases v.len() - i,
    {
        assert(v@.take(i + 1).drop_last() == v@.take(i as int));
        let c = v[i];
        if !is_whitespace(c) && c != '=' {
            let u = crate::crypto::char_to_upper(c);
            push_str(&mut normalized, u.as_str());
        } else {
            assert(normalized@ + Seq::<char>::empty() == normalized@);
        }
        i += 1;
    }
    assert(v@.take(i as int) == secret@);
    match crate::crypto::base32_nopad_decode(normalized.as_str()) {
        Some(d) => Ok(d),
        None => Err(AuthError::InvalidTotpSecret),
    }
}


/// Accounts tracked at once; beyond that expired entries go first, then the
/// entry whose last failure is oldest.
pub const MAX_TRACKED_ACCOUNTS: usize = 512;

/// A failure streak is forgotten after this long without a new failure.
pub const THROTTLE_FORGET_SECONDS: u64 = 900;

/// The failure record of one account.
#[derive(Clone, Copy, Debug, PartialEq, Eq, Structural)]
pub struct ThrottleEntry {
    pub failures: u32,
    pub last_failure: u64,
    pub locked_until: u64,
}

pub open spec fn sat_sub(a: u64, b: u64) -> u64 {
    if a >= b { (a - b) as u64 } else { 0 }
}

pub open spec fn sat_add(a: u64, b: u64) -> u64 {
    if a + b <= u64::MAX { (a + b) as u64 } else { u64::MAX }
}

/// An entry survives a clean-up at `now` while it is locked or its last
/// failure is recent.
pub open spec fn keeps(e: ThrottleEntry, now: u64) -> bool {
    e.locked_until > now || sat_sub(now, e.last_failure) < THROTTLE_FORGET_SECONDS
}

pub open spec fn kept_entries(m: Map<Seq<char>, ThrottleEntry>, now: u64) -> Map<Seq<char>, ThrottleEntry> {
    Map::new(|k: Seq<char>| m.contains_key(k) && keeps(m[k], now), |k: Seq<char>| m[k])
}

/// `k` has the oldest last failure of `m`.
pub open spec fn is_oldest(m: Map<Seq<char>, ThrottleEntry>, k: Seq<char>) -> bool {
    m.contains_key(k) && forall|o: Seq<char>| #[trigger] m.contains_key(o) ==> m[k].last_failure <= m[o].last_failure
}

/// The lock time after `overflow` failures beyond the threshold: the base
/// doubled per extra failure (at most six times), saturating, then capped.
pub open spec fn lock_seconds(base: u64, max_lock: u64, overflow: u32) -> u64 {
    let shift: u64 = if overflow >= 6 { 64 } else if overflow == 5 { 32 } else if overflow == 4 { 16 } else if overflow == 3 { 8 } else if overflow == 2 { 4 } else if overflow == 1 { 2 } else { 1 };
    let scaled = if base * shift <= u64::MAX { (base * shift) as u64 } else { u64::MAX };
    if scaled <= max_lock { scaled } else { max_lock }
}

/// The entry after one more failure at `now`.
pub open spec fn failed_entry(prev: Option<ThrottleEntry>, now: u64, max_failures: u32, base: u64, max_lock: u64) -> ThrottleEntry {
    let e = match prev {
        Some(e) => e,
        None => ThrottleEntry { failures: 0, last_failure: 0, locked_until: 0 },
    };
    let f0: u32 = if sat_sub(now, e.last_failure) >= THROTTLE_FORGET_SECONDS { 0 } else { e.failures };
    let f: u32 = if f0 < u32::MAX { (f0 + 1) as u32 } else { u32::MAX };
    ThrottleEntry {
        failures: f,
        last_failure: now,
        locked_until: if f >= max_failures {
            sat_add(now, lock_seconds(base, max_lock, (f - max_failures) as u32))
        } else {
            e.locked_until
        },
    }
}

/// `after` is `before` once a failure of `user` at `now` is recorded:
/// stale entries are dropped, the user's entry is advanced by
/// [`failed_entry`], and when the table is full and the user new, the entry
/// with the oldest failure makes room.
pub open spec fn failure_recorded(
    before: Map<Seq<char>, ThrottleEntry>,
    after: Map<Seq<char>, ThrottleEntry>,
    user: Seq<char>,
    now: u64,
    max_failures: u32,
    base: u64,
    max_lock: u64,
) -> bool {
    let kept = kept_entries(before, now);
    let entry = failed_entry(
        if kept.contains_key(user) { Some(kept[user]) } else { None },
        now,
        max_failures,
        base,
        max_lock,
    );
    if kept.len() >= MAX_TRACKED_ACCOUNTS && !kept.contains_key(user) {
        exists|k: Seq<char>| is_oldest(kept, k) && after == kept.remove(k).insert(user, entry)
    } else {
        after == kept.insert(user, entry)
    }
}

/// Remaining lock seconds of `user` at `now`, if locked.
pub open spec fn locked_for_spec(m: Map<Seq<char>, ThrottleEntry>, user: Seq<char>, now: u64) -> Option<u64> {
    if m.contains_key(user) && m[user].locked_until > now {
        Some((m[user].locked_until - now) as u64)
    } else {
        None
    }
}

/// Per-account login throttle: after `max_failures` failures in a row an
/// account is locked, for longer with every further failure.
pub struct LoginThrottle {
    entries: StringHashMap<ThrottleEntry>,
    keys: Vec<String>,
    max_failures: u32,
    base_lock_seconds: u64,
    max_lock_seconds: u64,
}

impl View for LoginThrottle {
    type V = Map<Seq<char>, ThrottleEntry>;

    closed spec fn view(&self) -> Map<Seq<char>, ThrottleEntry> {
        self.entries@
    }
}

/// Position of the first string in `keys` equal to `s`, or `keys.len()`.
fn position_of(keys: &Vec<String>, s: &str) -> (r: usize)
    ensures
        r <= keys@.len(),
        r < keys@.len() ==> keys@[r as int]@ == s@,
        forall|j: int| 0 <= j < r ==> keys@[j]@ != s@,
{
    let mut i: usize = 0;
    while i < keys.len()
        invariant
            i <= keys@.len(),
            forall|j: int| 0 <= j < i ==> keys@[j]@ != s@,
        decreases keys@.len() - i,
    {
        if crate::text::eq_str(keys[i].as_str(), s) {
            return i;
        }
        i += 1;
    }
    i
}

impl LoginThrottle {
    pub closed spec fn wf(&self) -> bool {
        &&& crate::text::views(self.keys@).no_duplicates()
        &&& crate::text::views(self.keys@).to_set() == self.entries@.dom()
    }

    pub closed spec fn max_failures_spec(&self) -> u32 {
        self.max_failures
    }

    pub closed spec fn base_spec(&self) -> u64 {
        self.base_lock_seconds
    }

    pub closed spec fn max_lock_spec(&self) -> u64 {
        self.max_lock_seconds
    }

    pub proof fn lemma_finite(&self)
        requires
            self.wf(),
        ensures
            self@.dom().finite(),
    {
        crate::text::views(self.keys@).unique_seq_to_set();
    }

    /// An empty throttle.
    pub fn new(max_failures: u32, base_lock_seconds: u64, max_lock_seconds: u64) -> (r: Self)
        ensures
            r.wf(),
            r@ == Map::<Seq<char>, ThrottleEntry>::empty(),
            r.max_failures_spec() == max_failures,
            r.base_spec() == base_lock_seconds,
            r.max_lock_spec() == max_lock_seconds,
    {
        let r = LoginThrottle {
            entries: StringHashMap::new(),
            keys: Vec::new(),
            max_failures,
            base_lock_seconds,
            max_lock_seconds,
        };
        assert(crate::text::views(r.keys@).to_set() =~= Set::empty());
        r
    }

    /// The throttle that the configuration gives: the failure threshold
    /// (`RUSTPANEL_LOGIN_MAX_FAILURES`, 5 unless it reads as a positive
    /// `u32`), the base lock (`RUSTPANEL_LOGIN_LOCK_SECONDS`, 60 unless it
    /// reads as a positive `u64`), and a lock cap of fifteen base locks.
    pub fn from_env(max_failures: Option<&str>, lock_seconds: Option<&str>) -> (r: Self)
        ensures
            r.wf(),
            r@ == Map::<Seq<char>, ThrottleEntry>::empty(),
            r.max_failures_spec() == match max_failures {
                Some(v) => match parse_unsigned(v@, u32::MAX as nat) {
                    Some(n) => if n > 0 { n as u32 } else { 5u32 },
                    None => 5u32,
                },
                None => 5u32,
            },
            r.base_spec() == match lock_seconds {
                Some(v) => match parse_unsigned(v@, u64::MAX as nat) {
                    Some(n) => if n > 0 { n as u64 } else { 60u64 },
                    None => 60u64,
                },
                None => 60u64,
            },
            r.max_lock_spec() == if r.base_spec() * 15 <= u64::MAX { (r.base_spec() * 15) as u64 } else { u64::MAX },
    {
        let failures: u32 = match max_failures {
            Some(v) => match parse_unsigned_exec(v, u32::MAX as u64) {
                Some(n) => if n > 0 { n as u32 } else { 5 },
                None => 5,
            },
            None => 5,
        };
        let base: u64 = match lock_seconds {
            Some(v) => match parse_unsigned_exec(v, u64::MAX) {
                Some(n) => if n > 0 { n } else { 60 },
                None => 60,
            },
            None => 60,
        };
        let max_lock: u64 = if base <= u64::MAX / 15 { base * 15 } else { u64::MAX };
        LoginThrottle::new(failures, base, max_lock)
    }

    /// How many accounts are tracked.
    pub fn len(&self) -> (r: usize)
        requires
            self.wf(),
        ensures
            r == self@.len(),
    {
        proof {
            crate::text::views(self.keys@).unique_seq_to_set();
        }
        self.keys.len()
    }

    /// Remaining lock seconds of `username` at `now`; `None` when not locked.
    pub fn locked_for(&self, username: &str, now: u64) -> (r: Option<u64>)
        ensures
            r == locked_for_spec(self@, username@, now),
    {
        match self.entries.get(username) {
            Some(e) => {
                if e.locked_until > now {
                    Some(e.locked_until - now)
                } else {
                    None
                }
            },
            None => None,
        }
    }

    /// A successful login clears the account's record.
    pub fn record_success(&mut self, username: &str)
        requires
            old(self).wf(),
        ensures
            final(self).wf(),
            final(self)@ == old(self)@.remove(username@),
            final(self).max_failures_spec() == old(self).max_failures_spec(),
            final(self).base_spec() == old(self).base_spec(),
            final(self).max_lock_spec() == old(self).max_lock_spec(),
    {
        if self.entries.contains_key(username) {
            let ghost kv = crate::text::views(self.keys@);
            let i = position_of(&self.keys, username);
            proof {
                if i >= self.keys@.len() {
                    assert(kv.to_set().contains(username@));
                    let j = choose|j: int| 0 <= j < kv.len() && kv[j] == username@;
                    assert(self.keys@[j]@ == username@);
                    assert(false);
                }
                assert(kv[i as int] == username@);
            }
            self.keys.remove(i);
            proof {
                assert(crate::text::views(self.keys@) =~= kv.remove(i as int));
                assert forall|a: int, b: int|
                    0 <= a < b < kv.remove(i as int).len() implies kv.remove(i as int)[a] != kv.remove(i as int)[b] by {
                    let a2 = if a < i { a } else { a + 1 };
                    let b2 = if b < i { b } else { b + 1 };
                    assert(kv[a2] != kv[b2]);
                }
                assert forall|k: Seq<char>| kv.remove(i as int).contains(k) <==> kv.to_set().remove(username@).contains(k) by {
                    if kv.contains(k) && k != username@ {
                        let j = choose|j: int| 0 <= j < kv.len() && kv[j] == k;
                        assert(j != i);
                        let j2 = if j < i { j } else { j - 1 };
                        assert(kv.remove(i as int)[j2] == k);
                    }
                    if kv.remove(i as int).contains(k) {
                        let j = choose|j: int| 0 <= j < kv.remove(i as int).len() && kv.remove(i as int)[j] == k;
                        let j2 = if j < i { j } else { j + 1 };
                        assert(kv[j2] == k);
                        assert(j2 != i);
                    }
                }
            }
        }
        self.entries.remove(username);
        assert(crate::text::views(self.keys@).to_set() =~= self.entries@.dom());
    }

    /// Records one failed login of `username` at `now`: stale entries are
    /// dropped, the oldest entry makes room when the table is full, and the
    /// account's streak grows, locking it once the threshold is reached.
    pub fn record_failure(&mut self, username: &str, now: u64)
        requires
            old(self).wf(),
        ensures
            final(self).wf(),
            final(self).max_failures_spec() == old(self).max_failures_spec(),
            final(self).base_spec() == old(self).base_spec(),
            final(self).max_lock_spec() == old(self).max_lock_spec(),
            old(self)@.len() <= MAX_TRACKED_ACCOUNTS ==> final(self)@.len() <= MAX_TRACKED_ACCOUNTS,
            failure_recorded(old(self)@, final(self)@, username@, now, old(self).max_failures_spec(),
                old(self).base_spec(), old(self).max_lock_spec()),
    {
        let ghost m0 = self@;
        let ghost mf0 = self.max_failures;
        let ghost b0 = self.base_lock_seconds;
        let ghost ml0 = self.max_lock_seconds;
        proof {
            self.lemma_finite();
        }
        // Drop stale entries.
        let ghost kv0 = crate::text::views(self.keys@);
        let mut kept_keys: Vec<String> = Vec::new();
        let mut i: usize = 0;
        proof {
            assert(kv0.subrange(0, kv0.len() as int) == kv0);
            assert(self.entries@ =~= Map::new(
                |k: Seq<char>| m0.contains_key(k) && (keeps(m0[k], now) || kv0.subrange(0, kv0.len() as int).contains(k)),
                |k: Seq<char>| m0[k],
            ));
            assert(crate::text::views(kept_keys@) =~= Seq::<Seq<char>>::empty());
        }
        while i < self.keys.len()
            invariant
                i <= self.keys@.len(),
                self.max_failures == mf0,
                self.base_lock_seconds == b0,
                self.max_lock_seconds == ml0,
                kv0 == crate::text::views(self.keys@),
                kv0.no_duplicates(),
                kv0.to_set() == m0.dom(),
                self.entries@ == Map::new(
                    |k: Seq<char>| m0.contains_key(k) && (keeps(m0[k], now) || kv0.subrange(i as int, kv0.len() as int).contains(k)),
                    |k: Seq<char>| m0[k],
                ),
                crate::text::views(kept_keys@).no_duplicates(),
                forall|k: Seq<char>| crate::text::views(kept_keys@).contains(k) <==> (kv0.take(i as int).contains(k) && keeps(m0[k], now)),
            decreases self.keys@.len() - i,
        {
            let key = self.keys[i].clone();
            assert(kv0[i as int] == key@);
            assert(kv0.to_set().contains(key@));
            assert(kv0.subrange(i as int, kv0.len() as int)[0] == kv0[i as int]);
            let e = *self.entries.get(key.as_str()).unwrap();
            let keep = e.locked_until > now || (if now >= e.last_failure { now - e.last_failure } else { 0 }) < THROTTLE_FORGET_SECONDS;
            let ghost old_kept = crate::text::views(kept_keys@);
            if keep {
                kept_keys.push(key);
                proof {
                    assert(crate::text::views(kept_keys@) == old_kept.push(kv0[i as int]));
                    assert(!kv0.take(i as int).contains(kv0[i as int]));
                    assert(!old_kept.contains(kv0[i as int]));
                }
            } else {
                self.entries.remove(key.as_str());
            }
            proof {
                assert(kv0.take(i + 1) == kv0.take(i as int).push(kv0[i as int]));
                assert(e == m0[kv0[i as int]]);
                assert(keep == keeps(m0[kv0[i as int]], now));
                assert(!kv0.take(i as int).contains(kv0[i as int]));
                let nk = crate::text::views(kept_keys@);
                assert(keep ==> nk == old_kept.push(kv0[i as int]));
                assert(!keep ==> nk == old_kept);
                assert forall|k: Seq<char>| nk.contains(k) <==> (kv0.take(i + 1).contains(k) && keeps(m0[k], now)) by {
                    if k == kv0[i as int] {
                        assert(kv0.take(i + 1)[i as int] == k);
                        if keep {
                            assert(nk[nk.len() - 1] == k);
                        } else {
                            assert(!old_kept.contains(k));
                        }
                    } else {
                        if kv0.take(i + 1).contains(k) {
                            let j = choose|j: int| 0 <= j < i + 1 && #[trigger] kv0.take(i + 1)[j] == k;
                            assert(j != i);
                            assert(kv0.take(i as int)[j] == k);
                            assert(kv0.take(i as int).contains(k));
                        }
                        if kv0.take(i as int).contains(k) {
                            let j = choose|j: int| 0 <= j < i && #[trigger] kv0.take(i as int)[j] == k;
                            assert(kv0.take(i + 1)[j] == k);
                        }
                        if nk.contains(k) {
                            let j = choose|j: int| 0 <= j < nk.len() && #[trigger] nk[j] == k;
                            assert(j < old_kept.len());
                            assert(old_kept[j] == k);
                        }
                        if old_kept.contains(k) {
                            let j = choose|j: int| 0 <= j < old_kept.len() && #[trigger] old_kept[j] == k;
                            assert(nk[j] == k);
                        }
                    }
                }
                assert forall|k: Seq<char>| #![trigger kv0.subrange(i as int, kv0.len() as int).contains(k)]
                    kv0.subrange(i as int, kv0.len() as int).contains(k) <==> (k == kv0[i as int] || kv0.subrange(i + 1, kv0.len() as int).contains(k)) by {
                    if kv0.subrange(i as int, kv0.len() as int).contains(k) && k != kv0[i as int] {
                        let j = choose|j: int| 0 <= j < kv0.len() - i && #[trigger] kv0.subrange(i as int, kv0.len() as int)[j] == k;
                        assert(j > 0);
                        assert(kv0.subrange(i + 1, kv0.len() as int)[j - 1] == k);
                    }
                    if kv0.subrange(i + 1, kv0.len() as int).contains(k) {
                        let j = choose|j: int| 0 <= j < kv0.len() - i - 1 && #[trigger] kv0.subrange(i + 1, kv0.len() as int)[j] == k;
                        assert(kv0.subrange(i as int, kv0.len() as int)[j + 1] == k);
                    }
                    if k == kv0[i as int] {
                        assert(kv0.subrange(i as int, kv0.len() as int)[0] == k);
                    }
                }
                assert(self.entries@ =~= Map::new(
                    |k: Seq<char>| m0.contains_key(k) && (keeps(m0[k], now) || kv0.subrange(i + 1, kv0.len() as int).contains(k)),
                    |k: Seq<char>| m0[k],
                ));
            }
            i += 1;
        }
        self.keys = kept_keys;
        let ghost kept = kept_entries(m0, now);
        proof {
            assert(kv0.take(kv0.len() as int) == kv0);
            assert(self.entries@ =~= kept);
            assert(crate::text::views(self.keys@).to_set() =~= self.entries@.dom());
            self.lemma_finite();
        }
        // Make room by dropping the entry with the oldest failure.
        let full = self.len() >= MAX_TRACKED_ACCOUNTS && !self.entries.contains_key(username);
        proof {
            crate::text::views(self.keys@).unique_seq_to_set();
        }
        let ghost mut evicted_key: Seq<char> = Seq::empty();
        if full {
            let ghost kv = crate::text::views(self.keys@);
            let mut best: usize = 0;
            assert(kv[0] == self.keys@[0]@);
            assert(kv.to_set().contains(kv[0]));
            let mut best_last = self.entries.get(self.keys[0].as_str()).unwrap().last_failure;
            let mut j: usize = 1;
            while j < self.keys.len()
                invariant
                    self.wf(),
                    self.max_failures == mf0,
                    self.base_lock_seconds == b0,
                    self.max_lock_seconds == ml0,
                    self.entries@ == kept,
                    kv == crate::text::views(self.keys@),
                    1 <= j <= self.keys@.len(),
                    best < j,
                    best_last == kept[kv[best as int]].last_failure,
                    forall|q: int| 0 <= q < j ==> best_last <= kept[#[trigger] kv[q]].last_failure,
                decreases self.keys@.len() - j,
            {
                assert(kv[j as int] == self.keys@[j as int]@);
                assert(kv.to_set().contains(kv[j as int]));
                let lf = self.entries.get(self.keys[j].as_str()).unwrap().last_failure;
                if lf < best_last {
                    best = j;
                    best_last = lf;
                }
                j += 1;
            }
            let victim = self.keys[best].clone();
            proof {
                evicted_key = victim@;
                assert(kv[best as int] == victim@);
                assert forall|o: Seq<char>| #[trigger] kept.contains_key(o) implies kept[victim@].last_failure <= kept[o].last_failure by {
                    assert(kv.to_set().contains(o));
                    let q = choose|q: int| 0 <= q < kv.len() && kv[q] == o;
                }
                assert(is_oldest(kept, victim@));
            }
            self.record_success(victim.as_str());
        }
        let ghost base_map = self@;
        proof {
            if full {
                assert(base_map == kept.remove(evicted_key));
            } else {
                assert(base_map == kept);
            }
            assert(base_map.contains_key(username@) == kept.contains_key(username@));
        }
        let prev = match self.entries.get(username) {
            Some(e) => Some(*e),
            None => None,
        };
        let mut e = match prev {
            Some(e) => e,
            None => ThrottleEntry { failures: 0, last_failure: 0, locked_until: 0 },
        };
        let since = if now >= e.last_failure { now - e.last_failure } else { 0 };
        if since >= THROTTLE_FORGET_SECONDS {
            e.failures = 0;
        }
        e.failures = if e.failures < u32::MAX { e.failures + 1 } else { u32::MAX };
        e.last_failure = now;
        if e.failures >= self.max_failures {
            let overflow = e.failures - self.max_failures;
            let shift: u64 = if overflow >= 6 { 64 } else if overflow == 5 { 32 } else if overflow == 4 { 16 } else if overflow == 3 { 8 } else if overflow == 2 { 4 } else if overflow == 1 { 2 } else { 1 };
            let scaled = if self.base_lock_seconds <= u64::MAX / shift { self.base_lock_seconds * shift } else { u64::MAX };
            proof {
                assert(self.base_lock_seconds <= u64::MAX / shift ==> self.base_lock_seconds * shift <= u64::MAX) by (nonlinear_arith)
                    requires shift > 0;
                assert(self.base_lock_seconds > u64::MAX / shift ==> self.base_lock_seconds * shift > u64::MAX) by (nonlinear_arith)
                    requires shift > 0;
            }
            let lock = if scaled <= self.max_lock_seconds { scaled } else { self.max_lock_seconds };
            e.locked_until = if now <= u64::MAX - lock { now + lock } else { u64::MAX };
        }
        let key = username.to_string();
        // Insert or update, remembering a new key.
        if !self.entries.contains_key(username) {
            let ghost old_keys = crate::text::views(self.keys@);
            self.keys.push(key.clone());
            proof {
                broadcast use vstd::seq_lib::group_seq_properties;
                assert(crate::text::views(self.keys@) == old_keys.push(key@));
                assert(!old_keys.contains(key@));
                assert(crate::text::views(self.keys@).to_set() =~= old_keys.to_set().insert(key@));
            }
        }
        self.entries.insert(key, e);
        proof {
            assert(crate::text::views(self.keys@).to_set() =~= self.entries@.dom());
            let entry = failed_entry(
                if kept.contains_key(username@) { Some(kept[username@]) } else { None },
                now,
                self.max_failures,
                self.base_lock_seconds,
                self.max_lock_seconds,
            );
            assert(e == entry);
            if full {
                assert(self@ == kept.remove(evicted_key).insert(username@, entry));
            }
            assert(kept.dom().subset_of(m0.dom()));
            vstd::set_lib::lemma_len_subset(kept.dom(), m0.dom());
            if full {
                assert(kept.dom().contains(evicted_key));
                assert(kept.remove(evicted_key).dom() == kept.dom().remove(evicted_key));
            }
        }
    }
}


/// After a successful login the account is not locked, whatever its record
/// was before.
pub proof fn law_success_unlocks(m: Map<Seq<char>, ThrottleEntry>, user: Seq<char>, now: u64)
    ensures
        locked_for_spec(m.remove(user), user, now) is None,
{
}

/// The lock time never exceeds the cap and never shrinks as failures pile up.
pub proof fn law_lock_grows_and_is_capped(base: u64, max_lock: u64, o1: u32, o2: u32)
    requires
        o1 <= o2,
    ensures
        lock_seconds(base, max_lock, o1) <= max_lock,
        lock_seconds(base, max_lock, o1) <= lock_seconds(base, max_lock, o2),
{
    let s1: u64 = if o1 >= 6 { 64 } else if o1 == 5 { 32 } else if o1 == 4 { 16 } else if o1 == 3 { 8 } else if o1 == 2 { 4 } else if o1 == 1 { 2 } else { 1 };
    let s2: u64 = if o2 >= 6 { 64 } else if o2 == 5 { 32 } else if o2 == 4 { 16 } else if o2 == 3 { 8 } else if o2 == 2 { 4 } else if o2 == 1 { 2 } else { 1 };
    assert(s1 <= s2);
    assert(base * s1 <= base * s2) by (nonlinear_arith)
        requires s1 <= s2;
}

/// A locked account reports the time left until its lock ends.
pub proof fn law_locked_for_counts_down(m: Map<Seq<char>, ThrottleEntry>, user: Seq<char>, now: u64)
    requires
        m.contains_key(user),
        m[user].locked_until > now,
    ensures
        locked_for_spec(m, user, now) == Some((m[user].locked_until - now) as u64),
        locked_for_spec(m, user, m[user].locked_until) is None,
{
}


/// Failed logins within this many seconds count towards an alert.
pub const LOGIN_FAIL_WINDOW_SECONDS: u64 = 600;
/// Failed logins within the window that raise an alert.
pub const LOGIN_FAIL_THRESHOLD: usize = 5;
/// Seconds between two alerts.
pub const LOGIN_ALERT_COOLDOWN_SECONDS: u64 = 3600;

/// What a login attempt whose throttle lock is not in force comes to.
#[derive(Clone, Copy, Debug, PartialEq, Eq, Structural)]
pub enum LoginDecision {
    /// Neither the panel credentials nor a user account accept the password.
    BadCredentials,
    /// A second factor is required but no TOTP secret is configured.
    TotpNotConfigured,
    /// The second factor is missing or wrong.
    TwoFactorFailed,
    /// The clock could not be read to check the second factor.
    ClockFailed,
    /// The login succeeds.
    Accept,
}

/// The decision on a login: a known role is needed; a second factor is
/// needed when the security settings ask for it or a TOTP secret is
/// configured, and then the secret must exist and the trimmed code must
/// match the clock's time step or an adjacent one.
pub open spec fn login_decision_spec(role_found: bool, two_factor_required: bool, totp_secret: Option<Seq<u8>>, totp_code: Seq<char>, clock: Option<u64>) -> LoginDecision {
    if !role_found {
        LoginDecision::BadCredentials
    } else if two_factor_required || totp_secret is Some {
        match totp_secret {
            None => LoginDecision::TotpNotConfigured,
            Some(secret) => if all_ws(totp_code) {
                LoginDecision::TwoFactorFailed
            } else {
                match clock {
                    None => LoginDecision::ClockFailed,
                    Some(now) => if verify_totp_spec(secret, trim_seq(totp_code), now) {
                        LoginDecision::Accept
                    } else {
                        LoginDecision::TwoFactorFailed
                    },
                }
            },
        }
    } else {
        LoginDecision::Accept
    }
}

pub fn login_decision(role_found: bool, two_factor_required: bool, totp_secret: Option<&[u8]>, totp_code: &str, clock: Option<u64>) -> (r: LoginDecision)
    ensures
        r == login_decision_spec(role_found, two_factor_required, match totp_secret { Some(s) => Some(s@), None => None }, totp_code@, clock),
{
    if !role_found {
        return LoginDecision::BadCredentials;
    }
    if two_factor_required || totp_secret.is_some() {
        let secret = match totp_secret {
            Some(s) => s,
            None => {
                return LoginDecision::TotpNotConfigured;
            },
        };
        if is_blank(totp_code) {
            return LoginDecision::TwoFactorFailed;
        }
        let now = match clock {
            Some(t) => t,
            None => {
                return LoginDecision::ClockFailed;
            },
        };
        let code = trim(totp_code);
        if !verify_totp(secret, code.as_str(), now) {
            return LoginDecision::TwoFactorFailed;
        }
    }
    LoginDecision::Accept
}

/// The subject of a refresh token: its subject without the refresh prefix;
/// a subject without the prefix is no refresh token.
pub fn refresh_subject(subject: &str) -> (r: Option<String>)
    ensures
        starts_with_seq(subject@, REFRESH_SUBJECT_PREFIX@) ==> (r matches Some(s)
            && s@ == subject@.skip(REFRESH_SUBJECT_PREFIX@.len() as int)),
        !starts_with_seq(subject@, REFRESH_SUBJECT_PREFIX@) ==> r is None,
{
    if !crate::text::starts_with(subject, REFRESH_SUBJECT_PREFIX) {
        return None;
    }
    let v = chars_of(subject);
    let p = chars_of(REFRESH_SUBJECT_PREFIX);
    assert(v@.subrange(p@.len() as int, v@.len() as int) == subject@.skip(REFRESH_SUBJECT_PREFIX@.len() as int));
    Some(crate::text::string_of(&v, p.len(), v.len()))
}

/// The access token and the refresh token of a successful login, both with
/// the user's role; the refresh token's subject carries the refresh prefix.
pub fn issue_login_tokens(authority: &JwtAuthority, username: &str, role: &str) -> (r: Result<(IssuedToken, IssuedToken), AuthError>)
    ensures
        all_ws(username@) ==> r is Err,
        r is Err ==> r == Err::<(IssuedToken, IssuedToken), AuthError>(AuthError::TimeOverflow) || (all_ws(username@)
            && r == Err::<(IssuedToken, IssuedToken), AuthError>(AuthError::EmptySubject)),
        r matches Ok(p) ==> issued_for(*authority, p.0, username@, role@),
        r matches Ok(p) ==> issued_for(*authority, p.1, REFRESH_SUBJECT_PREFIX@ + username@, role@),
{
    let access = match authority.issue_with_role(username, role) {
        Ok(t) => t,
        Err(e) => {
            return Err(e);
        },
    };
    let mut refresh_subject = REFRESH_SUBJECT_PREFIX.to_string();
    refresh_subject.append(username);
    proof {
        reveal_strlit("refresh:");
        assert(refresh_subject@[0] == 'r');
        assert(!is_ws(refresh_subject@[0]));
    }
    let refresh = match authority.issue_with_role(refresh_subject.as_str(), role) {
        Ok(t) => t,
        Err(e) => {
            return Err(e);
        },
    };
    Ok((access, refresh))
}

/// `t` is a token that `authority` signed for the subject and role at some
/// moment, expiring one TTL later, and that validates under `authority` to
/// those claims until then.
pub open spec fn issued_for(authority: JwtAuthority, t: IssuedToken, subject: Seq<char>, role: Seq<char>) -> bool {
    exists|at: u64|
        at + authority.ttl_spec() <= u64::MAX && t.expires_at == at + authority.ttl_spec() && t.token@
            == jwt_encoded(issued_members(subject, authority.issuer_spec(), at, t.expires_at, role), authority.secret_spec())
            && #[trigger] validates_as_issued(authority, t.token@, subject, at, t.expires_at, role)
}

/// Whether a failure at `then` still counts at `now`.
pub open spec fn recent_failure(now: u64) -> spec_fn(u64) -> bool {
    |t: u64| (if now >= t { now - t } else { 0 }) <= LOGIN_FAIL_WINDOW_SECONDS
}

/// The failure window, the alert time and the alert after a failed login at
/// `now`: the failure is added and those outside the window are forgotten;
/// when the window holds at least the threshold and no alert went out
/// within the cool-down, the alert time moves to `now` and the number of
/// failures is reported. A clock that went back behind the last alert counts
/// as no time since it.
pub open spec fn note_failure_spec(failures: Seq<u64>, last_alert: u64, now: u64) -> (Seq<u64>, u64, Option<usize>) {
    let kept = failures.push(now).filter(recent_failure(now));
    if kept.len() < LOGIN_FAIL_THRESHOLD {
        (kept, last_alert, None)
    } else if last_alert != 0 && (if now >= last_alert { now - last_alert } else { 0 }) < LOGIN_ALERT_COOLDOWN_SECONDS {
        (kept, last_alert, None)
    } else {
        (kept, now, Some(kept.len() as usize))
    }
}

/// Records a failed login at `now`, as [`note_failure_spec`] says.
pub fn note_login_failure(failures: &mut Vec<u64>, last_alert: &mut u64, now: u64) -> (r: Option<usize>)
    ensures
        (final(failures)@, *final(last_alert), r) == note_failure_spec(old(failures)@, *old(last_alert), now),
{
    failures.push(now);
    let ghost orig = failures@;
    let mut rest: Vec<u64> = Vec::new();
    std::mem::swap(&mut rest, failures);
    let mut kept: Vec<u64> = Vec::new();
    let ghost mut i: int = 0;
    assert(orig.skip(0) == orig);
    assert(orig.take(0) == Seq::<u64>::empty());
    while rest.len() > 0
        invariant
            0 <= i <= orig.len(),
            rest@ == orig.skip(i),
            kept@ == orig.take(i).filter(recent_failure(now)),
        decreases rest.len(),
    {
        let t = rest.remove(0);
        proof {
            assert(t == orig[i]);
            assert(orig.take(i + 1) == orig.take(i).push(t));
            orig.take(i).lemma_filter_push(t, recent_failure(now));
            assert(orig.skip(i + 1) == orig.skip(i).remove(0));
        }
        let age = if now >= t { now - t } else { 0 };
        if age <= LOGIN_FAIL_WINDOW_SECONDS {
            kept.push(t);
        }
        proof {
            i = i + 1;
        }
    }
    assert(orig.take(i) == orig);
    *failures = kept;
    let count = failures.len();
    if count < LOGIN_FAIL_THRESHOLD {
        return None;
    }
    if *last_alert != 0 && (now < *last_alert || now - *last_alert < LOGIN_ALERT_COOLDOWN_SECONDS) {
        return None;
    }
    *last_alert = now;
    Some(count)
}


/// What a login attempt comes to.
#[derive(Clone, Debug)]
pub enum LoginOutcome {
    /// The account is locked for this many more seconds.
    Locked(u64),
    /// Refused for the reason given; never [`LoginDecision::Accept`].
    Refused(LoginDecision),
    /// The access and the refresh token of an accepted login.
    Accepted(IssuedToken, IssuedToken),
    /// The login was accepted but a token could not be signed.
    TokenFailed(AuthError),
}

/// The answer to a login that is not refused outright: the response
/// header, the access and refresh tokens, the access token's expiry and
/// whether a second factor is still required.
#[derive(Clone, Debug)]
pub struct LoginResponse {
    pub status: ApiResponse,
    pub access_token: String,
    pub refresh_token: String,
    pub expires_at: u64,
    pub requires_two_factor: bool,
}

/// The message of a login refused because the account is locked.
pub open spec fn locked_message(remaining: u64) -> Seq<char> {
    "登录失败次数过多,请 "@ + dec(remaining as nat) + " 秒后再试"@
}

/// What a login outcome is answered with. A locked account is told how
/// long it stays locked; wrong credentials, an unreadable clock and a token
/// that could not be signed are unauthenticated; a required second factor
/// without a configured secret is a failed precondition; a wrong or missing
/// second factor is answered with a 401 header that asks for it; an
/// accepted login carries its tokens.
pub fn login_response(o: &LoginOutcome) -> (r: Result<LoginResponse, Status>)
    requires
        !(*o matches LoginOutcome::Refused(LoginDecision::Accept)),
    ensures
        match *o {
            LoginOutcome::Locked(remaining) => r matches Err(e) && e.code == Code::ResourceExhausted
                && e.message@ == locked_message(remaining),
            LoginOutcome::Refused(LoginDecision::BadCredentials) => r matches Err(e) && e.code
                == Code::Unauthenticated && e.message@ == "invalid username or password"@,
            LoginOutcome::Refused(LoginDecision::TotpNotConfigured) => r matches Err(e) && e.code
                == Code::FailedPrecondition && e.message@ == "TOTP secret is not configured"@,
            LoginOutcome::Refused(LoginDecision::ClockFailed) => r matches Err(e) && e.code == Code::Unauthenticated
                && e.message@ == auth_error_text(AuthError::TimeOverflow),
            LoginOutcome::Refused(_) => r matches Ok(x) && x.status.code == 401 && x.status.message@
                == "two factor code required"@ && x.access_token@.len() == 0 && x.refresh_token@.len() == 0
                && x.expires_at == 0 && x.requires_two_factor,
            LoginOutcome::Accepted(access, refresh) => r matches Ok(x) && x.status.code == 0 && x.status.message@
                == "login ok"@ && x.access_token@ == access.token@ && x.refresh_token@ == refresh.token@
                && x.expires_at == access.expires_at && !x.requires_two_factor,
            LoginOutcome::TokenFailed(e) => r matches Err(s) && s.code == Code::Unauthenticated && s.message@
                == auth_error_text(e),
        },
{
    match o {
        LoginOutcome::Locked(remaining) => {
            let mut m = String::new();
            push_str(&mut m, "登录失败次数过多,请 ");
            push_u64(&mut m, *remaining);
            push_str(&mut m, " 秒后再试");
            Err(Status::new(Code::ResourceExhausted, m.as_str()))
        },
        LoginOutcome::Refused(LoginDecision::BadCredentials) => Err(
            Status::new(Code::Unauthenticated, "invalid username or password"),
        ),
        LoginOutcome::Refused(LoginDecision::TotpNotConfigured) => Err(
            Status::failed_precondition("TOTP secret is not configured"),
        ),
        LoginOutcome::Refused(LoginDecision::ClockFailed) => {
            let m = AuthError::TimeOverflow.to_message();
            Err(Status::new(Code::Unauthenticated, m.as_str()))
        },
        LoginOutcome::Refused(_) => Ok(
            LoginResponse {
                status: error_response(401, "two factor code required"),
                access_token: String::new(),
                refresh_token: String::new(),
                expires_at: 0,
                requires_two_factor: true,
            },
        ),
        LoginOutcome::Accepted(access, refresh) => Ok(
            LoginResponse {
                status: ok_response("login ok"),
                access_token: access.token.clone(),
                refresh_token: refresh.token.clone(),
                expires_at: access.expires_at,
                requires_two_factor: false,
            },
        ),
        LoginOutcome::TokenFailed(e) => {
            let m = e.to_message();
            Err(Status::new(Code::Unauthenticated, m.as_str()))
        },
    }
}

/// The login state of the authentication service: the per-account throttle
/// and the recent failures behind the brute-force alert.
pub struct LoginState {
    pub throttle: LoginThrottle,
    pub failures: Vec<u64>,
    pub last_alert: u64,
}

/// The role a login resolves to: `admin` for the configured credentials,
/// else the role of a matching user account, if any.
pub open spec fn login_role(credentials: PanelCredentials, username: Seq<char>, password: Seq<char>, user_role: Option<Seq<char>>) -> Option<Seq<char>> {
    if credentials.username@ == username && credentials.password@ == password {
        Some("admin"@)
    } else {
        user_role
    }
}

/// Handles a login at `now` (the clock, or 0 when it cannot be read;
/// `clock` is the checked reading used for the second factor). A locked
/// account is refused before anything else is checked. Otherwise the
/// decision of [`login_decision_spec`] on the resolved role is taken: a bad
/// password or a failed second factor counts as a failure for the throttle
/// and for the alert window (whose alert, if any, is returned beside the
/// outcome); a missing TOTP secret or an unreadable clock changes nothing;
/// an accepted login clears the account's failures and gets its two tokens.
pub fn login(
    state: &mut LoginState,
    authority: &JwtAuthority,
    credentials: &PanelCredentials,
    username: &str,
    password: &str,
    user_role: Option<&str>,
    two_factor_required: bool,
    totp_secret: Option<&[u8]>,
    totp_code: &str,
    now: u64,
    clock: Option<u64>,
) -> (r: (LoginOutcome, Option<usize>))
    requires
        old(state).throttle.wf(),
    ensures
        final(state).throttle.wf(),
        final(state).throttle.max_failures_spec() == old(state).throttle.max_failures_spec(),
        final(state).throttle.base_spec() == old(state).throttle.base_spec(),
        final(state).throttle.max_lock_spec() == old(state).throttle.max_lock_spec(),
        locked_for_spec(old(state).throttle@, username@, now) matches Some(remaining) ==> {
            &&& r.0 == LoginOutcome::Locked(remaining)
            &&& r.1 is None
            &&& final(state).throttle@ == old(state).throttle@
            &&& final(state).failures@ == old(state).failures@
            &&& final(state).last_alert == old(state).last_alert
        },
        locked_for_spec(old(state).throttle@, username@, now) is None ==> {
            let role = login_role(*credentials, username@, password@, match user_role { Some(s) => Some(s@), None => None });
            let d = login_decision_spec(role is Some, two_factor_required,
                match totp_secret { Some(s) => Some(s@), None => None }, totp_code@, clock);
            &&& (d == LoginDecision::BadCredentials || d == LoginDecision::TwoFactorFailed) ==> {
                &&& r.0 == LoginOutcome::Refused(d)
                &&& failure_recorded(old(state).throttle@, final(state).throttle@, username@, now,
                    old(state).throttle.max_failures_spec(), old(state).throttle.base_spec(),
                    old(state).throttle.max_lock_spec())
                &&& (final(state).failures@, final(state).last_alert, r.1)
                    == note_failure_spec(old(state).failures@, old(state).last_alert, now)
            }
            &&& (d == LoginDecision::TotpNotConfigured || d == LoginDecision::ClockFailed) ==> {
                &&& r.0 == LoginOutcome::Refused(d)
                &&& r.1 is None
                &&& final(state).throttle@ == old(state).throttle@
                &&& final(state).failures@ == old(state).failures@
                &&& final(state).last_alert == old(state).last_alert
            }
            &&& d == LoginDecision::Accept ==> {
                &&& r.1 is None
                &&& final(state).throttle@ == old(state).throttle@.remove(username@)
                &&& final(state).failures@ == old(state).failures@
                &&& final(state).last_alert == old(state).last_alert
                &&& (all_ws(username@) ==> r.0 is TokenFailed)
                &&& (r.0 is Accepted || r.0 is TokenFailed)
                &&& (r.0 matches LoginOutcome::Accepted(access, refresh) ==> {
                    &&& issued_for(*authority, access, username@, role.unwrap())
                    &&& issued_for(*authority, refresh, REFRESH_SUBJECT_PREFIX@ + username@, role.unwrap())
                })
            }
        },
{
    if let Some(remaining) = state.throttle.locked_for(username, now) {
        return (LoginOutcome::Locked(remaining), None);
    }
    let role: Option<String> = if credentials.matches(username, password) {
        Some("admin".to_string())
    } else {
        match user_role {
            Some(r) => Some(r.to_string()),
            None => None,
        }
    };
    let d = login_decision(role.is_some(), two_factor_required, totp_secret, totp_code, clock);
    match d {
        LoginDecision::BadCredentials | LoginDecision::TwoFactorFailed => {
            state.throttle.record_failure(username, now);
            let alert = note_login_failure(&mut state.failures, &mut state.last_alert, now);
            (LoginOutcome::Refused(d), alert)
        },
        LoginDecision::TotpNotConfigured | LoginDecision::ClockFailed => {
            (LoginOutcome::Refused(d), None)
        },
        LoginDecision::Accept => {
            state.throttle.record_success(username);
            let role = match role {
                Some(r) => r,
                None => {
                    return (LoginOutcome::Refused(LoginDecision::BadCredentials), None);
                },
            };
            match issue_login_tokens(authority, username, role.as_str()) {
                Ok((access, refresh)) => (LoginOutcome::Accepted(access, refresh), None),
                Err(e) => (LoginOutcome::TokenFailed(e), None),
            }
        },
    }
}

} // verus!
