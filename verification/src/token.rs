//! Reading a panel token back: `jsonwebtoken` decodes the token and checks
//! its header, signature and issuer; the claims are read from the members
//! it hands over, and the expiry and the subject are checked here. Tokens
//! that the panel issues read back as issued.

use vstd::prelude::*;

use crate::auth::{
    bearer_token, bearer_token_spec, check_claims, AuthError, AuthInterceptor, AuthenticatedSubject, JwtAuthority,
    JwtClaims,
};
use crate::crypto::{
    claim_value_view, jwt_decode_claims, jwt_decoded_claims, reads_back, unix_now, ClaimValue,
};
use crate::status::{Code, Status};
use crate::text::{all_ws, eq_str};

verus! {

/// A parsed claims object: subject, issuer, issue time, expiry, role.
pub type ClaimsView = (Seq<char>, Seq<char>, u64, u64, Seq<char>);

/// The fields of claims.
pub open spec fn claims_view(c: JwtClaims) -> ClaimsView {
    (c.sub@, c.iss@, c.iat, c.exp, c.role@)
}

/// Seconds by which a token may be past its expiry and still be accepted.
pub const EXPIRY_LEEWAY_SECONDS: u64 = 60;

/// The token has expired at `now`: its expiry lies more than the leeway
/// before `now`.
pub open spec fn expired_at(exp: u64, now: u64) -> bool {
    exp + EXPIRY_LEEWAY_SECONDS < now
}

/// The claims a token carries under `secret` and `issuer`: those that
/// `jsonwebtoken` decodes (checking the header, the HS256 signature and the
/// issuer), read as [`claims_of_members`] says.
pub open spec fn token_claims(secret: Seq<u8>, issuer: Seq<char>, t: Seq<char>) -> Option<ClaimsView> {
    match jwt_decoded_claims(t, secret, issuer) {
        Some(m) => claims_of_members(m),
        None => None,
    }
}

/// What validating `t` under `secret` and `issuer` at `now` gives: the
/// token's claims when their issuer is `issuer` and they have not expired,
/// unless their subject is blank; every other failure is one error.
pub open spec fn validation(secret: Seq<u8>, issuer: Seq<char>, t: Seq<char>, now: u64) -> Result<ClaimsView, AuthError> {
    match token_claims(secret, issuer, t) {
        Some(v) => if v.1 == issuer && !expired_at(v.3, now) {
            if all_ws(v.0) {
                Err(AuthError::EmptySubject)
            } else {
                Ok(v)
            }
        } else {
            Err(AuthError::ExpiredOrInvalidToken)
        },
        None => Err(AuthError::ExpiredOrInvalidToken),
    }
}

/// What a token issued with these claims validates to at `now`: the claims,
/// until it has expired.
pub open spec fn issued_outcome(sub: Seq<char>, iss: Seq<char>, iat: u64, exp: u64, role: Seq<char>, now: u64) -> Result<
    ClaimsView,
    AuthError,
> {
    if expired_at(exp, now) {
        Err(AuthError::ExpiredOrInvalidToken)
    } else {
        Ok((sub, iss, iat, exp, role))
    }
}

/// At every moment, `token` validates under `a` as a token issued with
/// these claims and `a`'s issuer.
pub open spec fn validates_as_issued(a: JwtAuthority, token: Seq<char>, sub: Seq<char>, iat: u64, exp: u64, role: Seq<char>) -> bool {
    forall|now: u64|
        #[trigger] validation(a.secret_spec(), a.issuer_spec(), token, now) == issued_outcome(
            sub,
            a.issuer_spec(),
            iat,
            exp,
            role,
            now,
        )
}

/// `r` is the outcome `v` with the claims held as strings.
pub open spec fn same_outcome(r: Result<JwtClaims, AuthError>, v: Result<ClaimsView, AuthError>) -> bool {
    match v {
        Ok(c) => r matches Ok(x) && claims_view(x) == c,
        Err(e) => r == Err::<JwtClaims, AuthError>(e),
    }
}

/// The value of the claim named `key`, the first one when several are.
pub open spec fn member_value(
    m: Seq<(Seq<char>, (Option<Seq<char>>, Option<Option<u64>>))>,
    key: Seq<char>,
) -> Option<(Option<Seq<char>>, Option<Option<u64>>)>
    decreases m.len(),
{
    if m.len() == 0 {
        None
    } else if m[0].0 == key {
        Some(m[0].1)
    } else {
        member_value(m.drop_first(), key)
    }
}

/// A claim that must be a string.
pub open spec fn text_claim(v: Option<(Option<Seq<char>>, Option<Option<u64>>)>) -> Option<Seq<char>> {
    match v {
        Some((Some(s), _)) => Some(s),
        _ => None,
    }
}

/// A claim that must be a number that fits a `u64`.
pub open spec fn number_claim(v: Option<(Option<Seq<char>>, Option<Option<u64>>)>) -> Option<u64> {
    match v {
        Some((_, Some(Some(n)))) => Some(n),
        _ => None,
    }
}

/// The claims read from the members of a claims object as `JwtClaims`
/// takes them: `sub` and `iss` strings, `iat` and `exp` numbers that fit a
/// `u64`, and `role` a string or, when absent, empty; other members are
/// ignored.
pub open spec fn claims_of_members(m: Seq<(Seq<char>, (Option<Seq<char>>, Option<Option<u64>>))>) -> Option<ClaimsView> {
    let role = match member_value(m, "role"@) {
        None => Some(Seq::<char>::empty()),
        Some(v) => text_claim(Some(v)),
    };
    match (
        text_claim(member_value(m, "sub"@)),
        text_claim(member_value(m, "iss"@)),
        number_claim(member_value(m, "iat"@)),
        number_claim(member_value(m, "exp"@)),
        role,
    ) {
        (Some(sub), Some(iss), Some(iat), Some(exp), Some(role)) => Some((sub, iss, iat, exp, role)),
        _ => None,
    }
}

/// The view of the members that the token decoder hands over.
pub open spec fn members_view(m: Seq<(String, ClaimValue)>) -> Seq<(Seq<char>, (Option<Seq<char>>, Option<Option<u64>>))> {
    m.map_values(|p: (String, ClaimValue)| (p.0@, claim_value_view(p.1)))
}

fn find_member<'a>(members: &'a Vec<(String, ClaimValue)>, key: &str) -> (r: Option<&'a ClaimValue>)
    ensures
        match member_value(members_view(members@), key@) {
            Some(v) => r matches Some(x) && claim_value_view(*x) == v,
            None => r is None,
        },
{
    let ghost m = members_view(members@);
    let mut i: usize = 0;
    assert(m.skip(0) =~= m);
    while i < members.len()
        invariant
            i <= members@.len(),
            m == members_view(members@),
            member_value(m, key@) == member_value(m.skip(i as int), key@),
        decreases members@.len() - i,
    {
        assert(m.skip(i as int)[0] == m[i as int]);
        assert(m.skip(i as int).drop_first() =~= m.skip(i + 1));
        if eq_str(members[i].0.as_str(), key) {
            return Some(&members[i].1);
        }
        i += 1;
    }
    None
}

fn text_of(v: Option<&ClaimValue>) -> (r: Option<String>)
    ensures
        match text_claim(
            match v {
                Some(x) => Some(claim_value_view(*x)),
                None => None,
            },
        ) {
            Some(s) => r matches Some(t) && t@ == s,
            None => r is None,
        },
{
    match v {
        Some(ClaimValue::Text(s)) => Some(s.clone()),
        _ => None,
    }
}

fn number_of(v: Option<&ClaimValue>) -> (r: Option<u64>)
    ensures
        r == number_claim(
            match v {
                Some(x) => Some(claim_value_view(*x)),
                None => None,
            },
        ),
{
    match v {
        Some(ClaimValue::Number(Some(n))) => Some(*n),
        _ => None,
    }
}

/// The claims of the members of a claims object (see [`claims_of_members`]).
pub fn claims_from_members(members: &Vec<(String, ClaimValue)>) -> (r: Option<JwtClaims>)
    ensures
        match claims_of_members(members_view(members@)) {
            Some(c) => r matches Some(x) && claims_view(x) == c,
            None => r is None,
        },
{
    proof {
        reveal_strlit("sub");
        reveal_strlit("iss");
        reveal_strlit("iat");
        reveal_strlit("exp");
        reveal_strlit("role");
    }
    let sub = text_of(find_member(members, "sub"));
    let iss = text_of(find_member(members, "iss"));
    let iat = number_of(find_member(members, "iat"));
    let exp = number_of(find_member(members, "exp"));
    let role_member = find_member(members, "role");
    let role = match role_member {
        None => Some(String::new()),
        Some(_) => text_of(role_member),
    };
    match (sub, iss, iat, exp, role) {
        (Some(sub), Some(iss), Some(iat), Some(exp), Some(role)) => Some(JwtClaims { sub, iss, iat, exp, role }),
        _ => None,
    }
}

/// The members of the claims the panel issues, in the order it writes them.
pub open spec fn issued_members(sub: Seq<char>, iss: Seq<char>, iat: u64, exp: u64, role: Seq<char>) -> Seq<
    (Seq<char>, (Option<Seq<char>>, Option<Option<u64>>)),
> {
    seq![
        ("sub"@, (Some(sub), None::<Option<u64>>)),
        ("iss"@, (Some(iss), None::<Option<u64>>)),
        ("iat"@, (None::<Seq<char>>, Some(Some(iat)))),
        ("exp"@, (None::<Seq<char>>, Some(Some(exp)))),
        ("role"@, (Some(role), None::<Option<u64>>)),
    ]
}

/// The members of issued claims read back under their own issuer, and read
/// as those claims.
pub proof fn lemma_issued_members(sub: Seq<char>, iss: Seq<char>, iat: u64, exp: u64, role: Seq<char>)
    ensures
        reads_back(issued_members(sub, iss, iat, exp, role), iss),
        claims_of_members(issued_members(sub, iss, iat, exp, role)) == Some((sub, iss, iat, exp, role)),
{
    reveal_strlit("sub");
    reveal_strlit("iss");
    reveal_strlit("iat");
    reveal_strlit("exp");
    reveal_strlit("role");
    reveal_strlit("aud");
    reveal_with_fuel(member_value, 7);
    let m = issued_members(sub, iss, iat, exp, role);
    let m1 = m.drop_first();
    let m2 = m1.drop_first();
    let m3 = m2.drop_first();
    let m4 = m3.drop_first();
    let m5 = m4.drop_first();
    assert(m1[0] == m[1] && m2[0] == m[2] && m3[0] == m[3] && m4[0] == m[4] && m5.len() == 0);
    assert("sub"@[0] == 's' && "iss"@[0] == 'i' && "iat"@[0] == 'i' && "exp"@[0] == 'e' && "role"@[0] == 'r');
    assert("aud"@[0] == 'a' && "iss"@[1] == 's' && "iat"@[1] == 'a');
    assert(member_value(m, "sub"@) == Some((Some(sub), None::<Option<u64>>)));
    assert(member_value(m, "iss"@) == Some((Some(iss), None::<Option<u64>>)));
    assert(member_value(m, "iat"@) == Some((None::<Seq<char>>, Some(Some(iat)))));
    assert(member_value(m, "exp"@) == Some((None::<Seq<char>>, Some(Some(exp)))));
    assert(member_value(m, "role"@) == Some((Some(role), None::<Option<u64>>)));
    assert(member_value(m, "aud"@) is None);
}

/// A token whose claims object reads back as the issued members validates,
/// until it expires, to the issued claims.
pub proof fn lemma_issued_token_validates(
    secret: Seq<u8>,
    token: Seq<char>,
    sub: Seq<char>,
    iss: Seq<char>,
    iat: u64,
    exp: u64,
    role: Seq<char>,
    now: u64,
)
    requires
        !all_ws(sub),
        jwt_decoded_claims(token, secret, iss) matches Some(m) && forall|k: Seq<char>| member_value(m, k)
            == member_value(issued_members(sub, iss, iat, exp, role), k),
    ensures
        validation(secret, iss, token, now) == issued_outcome(sub, iss, iat, exp, role, now),
{
    lemma_issued_members(sub, iss, iat, exp, role);
    let m = jwt_decoded_claims(token, secret, iss)->0;
    let i = issued_members(sub, iss, iat, exp, role);
    assert(member_value(m, "sub"@) == member_value(i, "sub"@));
    assert(member_value(m, "iss"@) == member_value(i, "iss"@));
    assert(member_value(m, "iat"@) == member_value(i, "iat"@));
    assert(member_value(m, "exp"@) == member_value(i, "exp"@));
    assert(member_value(m, "role"@) == member_value(i, "role"@));
    assert(claims_of_members(m) == claims_of_members(i));
}

/// The claims the panel issues as members to encode.
pub(crate) fn issued_members_exec(sub: &str, iss: &str, iat: u64, exp: u64, role: &str) -> (r: Vec<(String, ClaimValue)>)
    ensures
        members_view(r@) == issued_members(sub@, iss@, iat, exp, role@),
{
    let r = vec![
        ("sub".to_string(), ClaimValue::Text(sub.to_string())),
        ("iss".to_string(), ClaimValue::Text(iss.to_string())),
        ("iat".to_string(), ClaimValue::Number(Some(iat))),
        ("exp".to_string(), ClaimValue::Number(Some(exp))),
        ("role".to_string(), ClaimValue::Text(role.to_string())),
    ];
    assert(members_view(r@) =~= issued_members(sub@, iss@, iat, exp, role@));
    r
}

impl JwtAuthority {
    /// The claims of `token` at `now`: `jsonwebtoken` decodes the token,
    /// checking its header, its HS256 signature under this authority's
    /// secret and its issuer, and its claims are read as
    /// [`claims_of_members`] says (a missing role reads as empty); the
    /// expiry must be at most the leeway before `now`, and the subject not
    /// blank.
    pub fn validate_at(&self, token: &str, now: u64) -> (r: Result<JwtClaims, AuthError>)
        ensures
            same_outcome(r, validation(self.secret_spec(), self.issuer_spec(), token@, now)),
    {
        let claims = match jwt_decode_claims(token, self.secret(), self.issuer()) {
            Some(members) => match claims_from_members(&members) {
                Some(c) => c,
                None => {
                    return Err(AuthError::ExpiredOrInvalidToken);
                },
            },
            None => {
                return Err(AuthError::ExpiredOrInvalidToken);
            },
        };
        if !eq_str(claims.iss.as_str(), self.issuer()) {
            return Err(AuthError::ExpiredOrInvalidToken);
        }
        if claims.exp < now && now - claims.exp > EXPIRY_LEEWAY_SECONDS {
            return Err(AuthError::ExpiredOrInvalidToken);
        }
        check_claims(claims)
    }

    /// The claims of `token` at the current time, as `validate_at` gives
    /// them; a clock set before the epoch refuses every token.
    pub fn validate(&self, token: &str) -> (r: Result<JwtClaims, AuthError>)
        ensures
            r == Err::<JwtClaims, AuthError>(AuthError::ExpiredOrInvalidToken) || exists|now: u64|
                same_outcome(r, #[trigger] validation(self.secret_spec(), self.issuer_spec(), token@, now)),
            token_claims(self.secret_spec(), self.issuer_spec(), token@) is None ==> r == Err::<
                JwtClaims,
                AuthError,
            >(AuthError::ExpiredOrInvalidToken),
            r matches Ok(c) ==> token_claims(self.secret_spec(), self.issuer_spec(), token@) == Some(claims_view(c)),
    {
        match unix_now() {
            Some(now) => self.validate_at(token, now),
            None => Err(AuthError::ExpiredOrInvalidToken),
        }
    }
}

/// The header's text, if any.
pub open spec fn header_view(header: Option<&str>) -> Option<Seq<char>> {
    match header {
        Some(v) => Some(v@),
        None => None,
    }
}

impl AuthInterceptor {
    /// The verdict on a request whose `authorization` header (as ASCII text)
    /// is `header`, at `now`: the bearer token must validate under this
    /// interceptor's authority, and its subject is let through; any failure
    /// is answered as unauthenticated.
    pub fn authenticate_header_at(&self, header: Option<&str>, now: u64) -> (r: Result<AuthenticatedSubject, Status>)
        ensures
            match bearer_token_spec(header_view(header)) {
                None => r matches Err(e) && e.code == Code::Unauthenticated,
                Some(t) => match validation(
                    self.authority_spec().secret_spec(),
                    self.authority_spec().issuer_spec(),
                    t,
                    now,
                ) {
                    Ok(v) => r matches Ok(s) && s.subject@ == v.0,
                    Err(_) => r matches Err(e) && e.code == Code::Unauthenticated && e.message@
                        == "invalid bearer token"@,
                },
            },
    {
        let token = match bearer_token(header) {
            Ok(t) => t,
            Err(e) => {
                return Err(e);
            },
        };
        let validated = self.authority().validate_at(token.as_str(), now);
        self.authenticate(validated)
    }

    /// The verdict on a request's `authorization` header at the current
    /// time, as `authenticate_header_at` gives it; a clock set before the
    /// epoch lets nothing through.
    pub fn authenticate_header(&self, header: Option<&str>) -> (r: Result<AuthenticatedSubject, Status>)
        ensures
            bearer_token_spec(header_view(header)) is None ==> (r matches Err(e) && e.code == Code::Unauthenticated),
            r matches Ok(s) ==> exists|t: Seq<char>, now: u64|
                bearer_token_spec(header_view(header)) == Some(t) && (#[trigger] validation(
                    self.authority_spec().secret_spec(),
                    self.authority_spec().issuer_spec(),
                    t,
                    now,
                ) matches Ok(v) && s.subject@ == v.0),
            r matches Err(e) ==> e.code == Code::Unauthenticated,
    {
        match unix_now() {
            Some(now) => self.authenticate_header_at(header, now),
            None => Err(Status::new(Code::Unauthenticated, "invalid bearer token")),
        }
    }
}

/// A bearer header that carries a token issued by an interceptor's
/// authority validates, until the token expires, to the claims it was
/// issued with, so the interceptor lets the token's subject through (see
/// [`AuthInterceptor::authenticate_header_at`]).
pub proof fn law_issued_token_authenticates(
    i: AuthInterceptor,
    header: Seq<char>,
    token: Seq<char>,
    sub: Seq<char>,
    iat: u64,
    exp: u64,
    role: Seq<char>,
    now: u64,
)
    requires
        bearer_token_spec(Some(header)) == Some(token),
        validates_as_issued(i.authority_spec(), token, sub, iat, exp, role),
        !expired_at(exp, now),
    ensures
        validation(i.authority_spec().secret_spec(), i.authority_spec().issuer_spec(), token, now) == Ok::<
            ClaimsView,
            AuthError,
        >((sub, i.authority_spec().issuer_spec(), iat, exp, role)),
{
    assert(validation(i.authority_spec().secret_spec(), i.authority_spec().issuer_spec(), token, now)
        == issued_outcome(sub, i.authority_spec().issuer_spec(), iat, exp, role, now));
}

} // verus!
