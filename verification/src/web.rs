//! HTTP-side helpers: where a request's token comes from, query-string
//! decoding, gRPC detection, upload names, and the rules that serve the
//! embedded web assets (paths, SPA fallback, ETags, gzip, cache headers).

use vstd::prelude::*;
use vstd::string::StringSliceAdditionalSpecFns;

use crate::text::{
    chars_of, contains, eq_str, has_char, has_char_exec, has_sub, is_alnum, is_ascii_alnum,
    is_blank, lower_seq, pieces, push_char, split_char, starts_with, starts_with_seq, string_of,
    to_lower, trim, trim_seq, views, all_ws,
};

verus! {

pub const BEARER_PREFIX: &'static str = "Bearer ";

/// The value of an ASCII hex digit.
pub open spec fn hex_spec(b: u8) -> Option<u8> {
    if 48 <= b <= 57 {
        Some((b - 48) as u8)
    } else if 97 <= b <= 102 {
        Some((b - 97 + 10) as u8)
    } else if 65 <= b <= 70 {
        Some((b - 65 + 10) as u8)
    } else {
        None
    }
}

pub fn hex_value(byte: u8) -> (r: Option<u8>)
    ensures
        r == hex_spec(byte),
{
    if 48 <= byte && byte <= 57 {
        Some(byte - 48)
    } else if 97 <= byte && byte <= 102 {
        Some(byte - 97 + 10)
    } else if 65 <= byte && byte <= 70 {
        Some(byte - 65 + 10)
    } else {
        None
    }
}

/// Query-string decoding of the bytes: `%XX` with two hex digits is that
/// byte, `+` is a space, every
/// other byte stands for itself; each byte becomes the character of the
/// same number.
pub open spec fn url_decode_spec(b: Seq<u8>) -> Seq<char>
    decreases b.len(),
{
    if b.len() == 0 {
        Seq::empty()
    } else if b[0] == 37 && b.len() > 2 && hex_spec(b[1]) is Some && hex_spec(b[2]) is Some {
        seq![((hex_spec(b[1])->0 * 16 + hex_spec(b[2])->0) as u8) as char] + url_decode_spec(b.skip(3))
    } else if b[0] == 43 {
        seq![' '] + url_decode_spec(b.drop_first())
    } else {
        seq![b[0] as char] + url_decode_spec(b.drop_first())
    }
}

pub fn urlencoding_decode(input: &str) -> (r: String)
    ensures
        r@ == url_decode_spec(input.spec_bytes()),
{
    let bytes = input.as_bytes();
    let mut out = String::new();
    let mut idx: usize = 0;
    assert(bytes@.skip(0) == bytes@);
    while idx < bytes.len()
        invariant
            idx <= bytes@.len(),
            bytes@ == input.spec_bytes(),
            out@ + url_decode_spec(bytes@.skip(idx as int)) == url_decode_spec(bytes@),
        decreases bytes@.len() - idx,
    {
        let ghost rest = bytes@.skip(idx as int);
        let byte = bytes[idx];
        assert(rest[0] == byte);
        if byte == 37 && bytes.len() - idx > 2 {
            assert(rest[1] == bytes@[idx + 1]);
            assert(rest[2] == bytes@[idx + 2]);
            match (hex_value(bytes[idx + 1]), hex_value(bytes[idx + 2])) {
                (Some(hi), Some(lo)) => {
                    let c = ((hi * 16 + lo) as u8) as char;
                    assert(rest.skip(3) == bytes@.skip(idx + 3));
                    push_char(&mut out, c);
                    idx += 3;
                    continue;
                },
                _ => {},
            }
        }
        assert(rest.drop_first() == bytes@.skip(idx + 1));
        if byte == 43 {
            push_char(&mut out, ' ');
        } else {
            push_char(&mut out, byte as char);
        }
        idx += 1;
    }
    assert(bytes@.skip(idx as int).len() == 0);
    out
}

/// The token of an `Authorization: Bearer <token>` header, trimmed, when
/// not empty.
pub open spec fn header_token(header: Seq<char>) -> Option<Seq<char>> {
    if starts_with_seq(header, BEARER_PREFIX@) && !all_ws(header.skip(7)) {
        Some(trim_seq(header.skip(7)))
    } else {
        None
    }
}

/// The first non-empty decoded `token=` value among the `&`-separated pairs.
pub open spec fn query_token(pairs: Seq<Seq<char>>) -> Option<Seq<char>>
    decreases pairs.len(),
{
    if pairs.len() == 0 {
        None
    } else {
        let p = pairs[0];
        if starts_with_seq(p, "token="@) && url_decode_spec(utf8_of(p.skip(6))).len() > 0 {
            Some(url_decode_spec(utf8_of(p.skip(6))))
        } else {
            query_token(pairs.drop_first())
        }
    }
}

/// The UTF-8 bytes of a text.
pub open spec fn utf8_of(s: Seq<char>) -> Seq<u8> {
    vstd::utf8::encode_utf8(s)
}

fn header_bearer(text: &str) -> (r: Option<String>)
    ensures
        match header_token(text@) {
            Some(t) => r matches Some(s) && s@ == t,
            None => r is None,
        },
{
    proof { reveal_strlit("Bearer "); }
    if !starts_with(text, BEARER_PREFIX) {
        return None;
    }
    let v = chars_of(text);
    let rest = string_of(&v, 7, v.len());
    assert(rest@ == text@.skip(7));
    if is_blank(rest.as_str()) {
        return None;
    }
    Some(trim(rest.as_str()))
}

/// A request's bearer token: from the `Authorization` header when it holds
/// a non-empty bearer token, else the first non-empty `token=` query value.
pub fn extract_token(authorization: Option<&str>, query: Option<&str>) -> (r: Option<String>)
    ensures
        ({
            let from_header = match authorization {
                Some(h) => header_token(h@),
                None => None,
            };
            match from_header {
                Some(t) => r matches Some(s) && s@ == t,
                None => match query {
                    None => r is None,
                    Some(q) => match query_token(pieces(q@, '&')) {
                        Some(t) => r matches Some(s) && s@ == t,
                        None => r is None,
                    },
                },
            }
        }),
{
    match authorization {
        Some(text) => {
            match header_bearer(text) {
                Some(t) => {
                    return Some(t);
                },
                None => {},
            }
        },
        None => {},
    }
    let q = match query {
        Some(q) => q,
        None => {
            return None;
        },
    };
    let ghost from_header = match authorization {
        Some(h) => header_token(h@),
        None => None,
    };
    assert(from_header is None);
    let pairs = split_char(q, '&');
    let ghost ps = views(pairs@);
    let mut i: usize = 0;
    proof { reveal_strlit("token="); }
    assert(ps.skip(0) == ps);
    while i < pairs.len()
        invariant
            i <= pairs@.len(),
            ps == views(pairs@),
            ps == pieces(q@, '&'),
            query == Some(q),
            from_header is None,
            from_header == match authorization {
                Some(h) => header_token(h@),
                None => None,
            },
            query_token(ps.skip(i as int)) == query_token(ps),
        decreases pairs@.len() - i,
    {
        proof { reveal_strlit("token="); }
        let p = pairs[i].as_str();
        assert(ps.skip(i as int)[0] == p@);
        assert(ps.skip(i as int).drop_first() == ps.skip(i + 1));
        if starts_with(p, "token=") {
            let v = chars_of(p);
            let value = string_of(&v, 6, v.len());
            assert(value@ == p@.skip(6));
            let decoded = urlencoding_decode(value.as_str());
            if !decoded.as_str().is_empty() {
                return Some(decoded);
            }
        }
        i += 1;
    }
    None
}

/// A gRPC request announces itself with an `application/grpc` content type
/// (which covers `application/grpc-web`).
pub fn is_grpc_content_type(content_type: &str) -> (r: bool)
    ensures
        r == (starts_with_seq(content_type@, "application/grpc"@) || starts_with_seq(content_type@, "application/grpc-web"@)),
{
    starts_with(content_type, "application/grpc") || starts_with(content_type, "application/grpc-web")
}

/// An upload's file name with everything but ASCII letters, digits, `.`,
/// `-` and `_` turned into `_`.
pub open spec fn upload_char(c: char) -> char {
    if is_ascii_alnum(c) || c == '.' || c == '-' || c == '_' { c } else { '_' }
}

pub fn sanitize_upload_name(name: &str) -> (r: String)
    ensures
        r@ == name@.map_values(|c: char| upload_char(c)),
{
    let v = chars_of(name);
    let mut out = String::new();
    let mut i: usize = 0;
    while i < v.len()
        invariant
            i <= v@.len(),
            v@ == name@,
            out@ == v@.take(i as int).map_values(|c: char| upload_char(c)),
        decreases v@.len() - i,
    {
        let c = v[i];
        let k = if is_alnum(c) || c == '.' || c == '-' || c == '_' { c } else { '_' };
        push_char(&mut out, k);
        assert(v@.take(i + 1).map_values(|c: char| upload_char(c)) =~= v@.take(i as int).map_values(|c: char| upload_char(c)).push(k));
        i += 1;
    }
    assert(v@.take(i as int) == v@);
    out
}

/// `s` without the `/` characters at its start.
pub open spec fn strip_leading_slashes(s: Seq<char>) -> Seq<char>
    decreases s.len(),
{
    if s.len() > 0 && s[0] == '/' { strip_leading_slashes(s.drop_first()) } else { s }
}

/// The embedded asset a request path names: leading slashes dropped, the
/// empty path being `index.html`.
pub open spec fn asset_path_spec(path: Seq<char>) -> Seq<char> {
    if strip_leading_slashes(path).len() == 0 { "index.html"@ } else { strip_leading_slashes(path) }
}

pub fn normalize_path(path: &str) -> (r: String)
    ensures
        r@ == asset_path_spec(path@),
{
    let v = chars_of(path);
    let mut lo: usize = 0;
    assert(v@.skip(0) == v@);
    while lo < v.len() && v[lo] == '/'
        invariant
            lo <= v@.len(),
            v@ == path@,
            strip_leading_slashes(v@.skip(lo as int)) == strip_leading_slashes(path@),
        decreases v@.len() - lo,
    {
        assert(v@.skip(lo as int).drop_first() == v@.skip(lo + 1));
        lo += 1;
    }
    assert(v@.subrange(lo as int, v@.len() as int) == v@.skip(lo as int));
    if lo == v.len() {
        "index.html".to_string()
    } else {
        string_of(&v, lo, v.len())
    }
}

/// Paths without a `.` are routes of the single-page app.
pub fn should_fallback_to_spa(path: &str) -> (r: bool)
    ensures
        r == !has_char(path@, '.'),
{
    !has_char_exec(&chars_of(path), '.')
}

/// `index.html` is revalidated every time; the hashed assets are cached
/// for a year.
pub fn cache_control(path: &str) -> (r: &'static str)
    ensures
        path@ == "index.html"@ ==> r@ == "no-cache"@,
        path@ != "index.html"@ ==> r@ == "public, max-age=31536000, immutable"@,
{
    if eq_str(path, "index.html") { "no-cache" } else { "public, max-age=31536000, immutable" }
}

pub open spec fn hex_digit(n: u8) -> char {
    if n < 10 { ((n + 48) as u8) as char } else { ((n - 10 + 97) as u8) as char }
}

/// The ETag of an asset: the first 16 bytes of its SHA-256 in lower-case
/// hex, in double quotes.
pub open spec fn etag_spec(hash: Seq<u8>) -> Seq<char> {
    seq!['"'] + Seq::new(32, |i: int| if i % 2 == 0 { hex_digit(hash[i / 2] / 16) } else { hex_digit(hash[i / 2] % 16) }) + seq!['"']
}

fn hex_char(n: u8) -> (r: char)
    requires
        n < 16,
    ensures
        r == hex_digit(n),
{
    if n < 10 { ((n + 48) as u8) as char } else { ((n - 10 + 97) as u8) as char }
}

pub fn etag_for(hash: &[u8; 32]) -> (r: String)
    ensures
        r@ == etag_spec(hash@),
{
    let ghost body = Seq::new(32, |i: int| if i % 2 == 0 { hex_digit(hash@[i / 2] / 16) } else { hex_digit(hash@[i / 2] % 16) });
    let mut out = String::new();
    push_char(&mut out, '"');
    let mut i: usize = 0;
    while i < 16
        invariant
            i <= 16,
            body == Seq::new(32, |i: int| if i % 2 == 0 { hex_digit(hash@[i / 2] / 16) } else { hex_digit(hash@[i / 2] % 16) }),
            out@ == seq!['"'] + body.take(2 * i as int),
        decreases 16 - i,
    {
        let b = hash[i];
        let ghost before = out@;
        push_char(&mut out, hex_char(b / 16));
        push_char(&mut out, hex_char(b % 16));
        proof {
            let k = 2 * i as int;
            assert(k / 2 == i as int && (k + 1) / 2 == i as int && k % 2 == 0 && (k + 1) % 2 == 1) by (nonlinear_arith)
                requires k == 2 * i as int;
            assert(b == hash@[i as int]);
            assert(body[k] == hex_digit(b / 16));
            assert(body[k + 1] == hex_digit(b % 16));
            assert(body.take(k + 2) =~= body.take(k).push(hex_digit(b / 16)).push(hex_digit(b % 16)));
        }
        i += 1;
    }
    assert(body.take(32) == body);
    push_char(&mut out, '"');
    out
}

/// `s` without the `W/` prefixes at its start.
pub open spec fn strip_weak(s: Seq<char>) -> Seq<char>
    decreases s.len(),
{
    if s.len() >= 2 && s[0] == 'W' && s[1] == '/' { strip_weak(s.skip(2)) } else { s }
}

/// An `If-None-Match` value matches when one of its comma-separated,
/// trimmed candidates (weak prefix dropped) is the ETag or `*`.
pub open spec fn etag_matches_spec(value: Seq<char>, etag: Seq<char>) -> bool {
    exists|i: int| 0 <= i < pieces(value, ',').len()
        && (strip_weak(trim_seq(#[trigger] pieces(value, ',')[i])) == etag || strip_weak(trim_seq(pieces(value, ',')[i])) == "*"@)
}

fn strip_weak_exec(s: &str) -> (r: String)
    ensures
        r@ == strip_weak(s@),
{
    let v = chars_of(s);
    let mut lo: usize = 0;
    assert(v@.skip(0) == v@);
    while v.len() - lo >= 2 && v[lo] == 'W' && v[lo + 1] == '/'
        invariant
            lo <= v@.len(),
            v@ == s@,
            strip_weak(v@.skip(lo as int)) == strip_weak(s@),
        decreases v@.len() - lo,
    {
        assert(v@.skip(lo as int).skip(2) == v@.skip(lo + 2));
        lo += 2;
    }
    assert(v@.subrange(lo as int, v@.len() as int) == v@.skip(lo as int));
    string_of(&v, lo, v.len())
}

pub fn request_matches_etag(if_none_match: Option<&str>, etag: &str) -> (r: bool)
    ensures
        r == match if_none_match {
            Some(v) => etag_matches_spec(v@, etag@),
            None => false,
        },
{
    let value = match if_none_match {
        Some(v) => v,
        None => {
            return false;
        },
    };
    let candidates = split_char(value, ',');
    let ghost cs = views(candidates@);
    let mut i: usize = 0;
    while i < candidates.len()
        invariant
            i <= candidates@.len(),
            cs == views(candidates@),
            cs == pieces(value@, ','),
            if_none_match == Some(value),
            forall|j: int| 0 <= j < i ==> !(strip_weak(trim_seq(#[trigger] cs[j])) == etag@ || strip_weak(trim_seq(cs[j])) == "*"@),
        decreases candidates@.len() - i,
    {
        let t = trim(candidates[i].as_str());
        let c = strip_weak_exec(t.as_str());
        if eq_str(c.as_str(), etag) || eq_str(c.as_str(), "*") {
            assert(strip_weak(trim_seq(pieces(value@, ',')[i as int])) == etag@
                || strip_weak(trim_seq(pieces(value@, ',')[i as int])) == "*"@);
            assert(etag_matches_spec(value@, etag@));
            return true;
        }
        i += 1;
    }
    false
}

/// A client accepts gzip when its `Accept-Encoding` mentions `gzip` in any
/// case.
pub fn accepts_gzip(accept_encoding: Option<&str>) -> (r: bool)
    ensures
        r == match accept_encoding {
            Some(v) => has_sub(lower_seq(v@), "gzip"@),
            None => false,
        },
{
    match accept_encoding {
        Some(v) => {
            let l = to_lower(v);
            contains(l.as_str(), "gzip")
        },
        None => false,
    }
}

/// Assets smaller than this are sent as they are.
pub const MIN_GZIP_BYTES: usize = 1024;

/// Whether a compressed copy is worth sending: the asset is large enough,
/// the client accepts gzip, and compression made it smaller.
pub fn use_compressed(raw_len: usize, accepts: bool, compressed_len: usize) -> (r: bool)
    ensures
        r == (raw_len >= MIN_GZIP_BYTES && accepts && compressed_len < raw_len),
{
    raw_len >= MIN_GZIP_BYTES && accepts && compressed_len < raw_len
}


/// The asset to serve in place of a missing one: the SPA entry page for a
/// path without an extension (a client-side route), none otherwise.
pub fn fallback_asset(normalized: &str) -> (r: Option<&'static str>)
    ensures
        !has_char(normalized@, '.') ==> (r matches Some(p) && p@ == "index.html"@),
        has_char(normalized@, '.') ==> r is None,
{
    if should_fallback_to_spa(normalized) { Some("index.html") } else { None }
}

/// The status and caching headers of an asset answer.
#[derive(Clone, Debug)]
pub struct AssetHeaders {
    /// 304 when the client's copy is current, else 200.
    pub status: u16,
    pub cache_control: &'static str,
    pub etag: String,
    /// Whether the answer varies with `Accept-Encoding` (only a full one).
    pub vary_encoding: bool,
}

/// How an existing asset is answered: "not modified" with its ETag and
/// cache policy when the request's `If-None-Match` matches, else in full.
pub fn asset_reply(path: &str, etag: String, if_none_match: Option<&str>) -> (r: AssetHeaders)
    ensures
        ({
            let hit = match if_none_match {
                Some(v) => etag_matches_spec(v@, etag@),
                None => false,
            };
            &&& r.status == if hit { 304u16 } else { 200u16 }
            &&& r.vary_encoding == !hit
            &&& r.etag@ == etag@
            &&& r.cache_control@ == if path@ == "index.html"@ { "no-cache"@ } else { "public, max-age=31536000, immutable"@ }
        }),
{
    let hit = request_matches_etag(if_none_match, etag.as_str());
    AssetHeaders {
        status: if hit { 304 } else { 200 },
        cache_control: cache_control(path),
        etag,
        vary_encoding: !hit,
    }
}

/// The name of a site to deploy to: the trimmed name, which must not be
/// empty (a bad request otherwise, with this message).
pub fn deploy_site_name(name: &str) -> (r: Result<String, String>)
    ensures
        trim_seq(name@).len() == 0 ==> (r matches Err(m) && m@ == "name is required"@),
        trim_seq(name@).len() > 0 ==> (r matches Ok(n) && n@ == trim_seq(name@)),
{
    let t = trim(name);
    if t.as_str().is_empty() {
        Err("name is required".to_string())
    } else {
        Ok(t)
    }
}

/// The message of a deploy to a site that does not exist or has no webroot.
pub fn site_not_found_message(name: &str) -> (r: String)
    ensures
        r@ == "site `"@ + name@ + "` not found or has no webroot configured"@,
{
    let mut s = "site `".to_string();
    s.append(name);
    s.append("` not found or has no webroot configured");
    s
}

/// The file an uploaded site archive is received into (under the
/// temporary directory).
pub fn deploy_upload_file_name(site: &str, now: u64) -> (r: String)
    ensures
        r@ == "rustpanel-deploy-"@ + site@ + "-"@ + crate::text::dec(now as nat) + ".zip"@,
{
    let mut s = "rustpanel-deploy-".to_string();
    s.append(site);
    s.append("-");
    crate::text::push_u64(&mut s, now);
    s.append(".zip");
    s
}

/// A multipart field carries the archive when it has a file name or is
/// named `archive`; the first such field is taken.
pub fn is_archive_field(file_name: Option<&str>, field_name: Option<&str>) -> (r: bool)
    ensures
        r == (file_name is Some || (field_name matches Some(n) && n@ == "archive"@)),
{
    match (file_name, field_name) {
        (Some(_), _) => true,
        (None, Some(n)) => eq_str(n, "archive"),
        (None, None) => false,
    }
}

/// `t` without its trailing `/` and `/.` steps.
pub open spec fn strip_tail(t: Seq<char>) -> Seq<char>
    decreases t.len(),
{
    if t.len() > 0 && t.last() == '/' {
        strip_tail(t.drop_last())
    } else if t.len() >= 2 && t.last() == '.' && t[t.len() - 2] == '/' {
        strip_tail(t.take(t.len() - 2))
    } else {
        t
    }
}

/// The position of the last `c` in `t`, or -1.
pub open spec fn last_index(t: Seq<char>, c: char) -> int
    decreases t.len(),
{
    if t.len() == 0 {
        -1
    } else if t.last() == c {
        t.len() - 1
    } else {
        last_index(t.drop_last(), c)
    }
}

/// What `Path::with_extension(ext)` gives for a path text: the path up to
/// the stem of its last step (the step without its last `.` and what
/// follows, unless that `.` starts it), then `.` and `ext`; a path whose
/// last step is missing, `.` or `..` stays as it is.
pub open spec fn with_extension_spec(path: Seq<char>, ext: Seq<char>) -> Seq<char> {
    let t = strip_tail(path);
    let start = last_index(t, '/') + 1;
    let name = t.skip(start);
    if name.len() == 0 || name == "."@ || name == ".."@ {
        path
    } else {
        let k = last_index(name, '.');
        let stem = if k > 0 {
            name.take(k)
        } else {
            name
        };
        t.take(start) + stem + "."@ + ext
    }
}

fn last_index_exec(v: &Vec<char>, hi: usize, c: char) -> (r: usize)
    requires
        hi <= v@.len(),
    ensures
        r <= hi,
        r as int - 1 == last_index(v@.take(hi as int), c),
{
    let mut j = hi;
    while j > 0 && v[j - 1] != c
        invariant
            j <= hi <= v@.len(),
            last_index(v@.take(hi as int), c) == last_index(v@.take(j as int), c),
        decreases j,
    {
        assert(v@.take(j as int).drop_last() == v@.take(j - 1));
        j -= 1;
    }
    j
}

/// The path with its extension replaced (see [`with_extension_spec`]).
pub fn with_extension(path: &str, ext: &str) -> (r: String)
    ensures
        r@ == with_extension_spec(path@, ext@),
{
    let v = chars_of(path);
    let mut hi = v.len();
    assert(v@.take(hi as int) == v@);
    while hi > 0 && (v[hi - 1] == '/' || (hi >= 2 && v[hi - 1] == '.' && v[hi - 2] == '/'))
        invariant
            hi <= v@.len(),
            strip_tail(v@.take(hi as int)) == strip_tail(v@),
        decreases hi,
    {
        let ghost t = v@.take(hi as int);
        if v[hi - 1] == '/' {
            assert(t.drop_last() == v@.take(hi - 1));
            hi -= 1;
        } else {
            assert(t.take(t.len() - 2) == v@.take(hi - 2));
            hi -= 2;
        }
    }
    let ghost t = v@.take(hi as int);
    assert(strip_tail(t) == t);
    let start = last_index_exec(&v, hi, '/');
    let name = string_of(&v, start, hi);
    assert(name@ == t.skip(start as int));
    proof {
        reveal_strlit(".");
        reveal_strlit("..");
    }
    if hi == start || eq_str(name.as_str(), ".") || eq_str(name.as_str(), "..") {
        return path.to_string();
    }
    let nv = chars_of(name.as_str());
    let k = last_index_exec(&nv, nv.len(), '.');
    assert(nv@.take(nv@.len() as int) == nv@);
    let stem_end = if k > 1 { k - 1 } else { nv.len() };
    let stem = string_of(&nv, 0, stem_end);
    let mut out = string_of(&v, 0, start);
    assert(out@ == t.take(start as int));
    out.append(stem.as_str());
    out.append(".");
    out.append(ext);
    out
}

/// The directory an uploaded site is unpacked into before it replaces the
/// webroot: beside it, with the extension `staging-` and the time.
pub fn staging_dir(webroot: &str, now: u64) -> (r: String)
    ensures
        r@ == with_extension_spec(webroot@, "staging-"@ + crate::text::dec(now as nat)),
{
    let mut ext = "staging-".to_string();
    crate::text::push_u64(&mut ext, now);
    with_extension(webroot, ext.as_str())
}

/// The previous webroot reported after a deploy: its path when it was kept,
/// else empty.
pub fn previous_backup_text(kept: bool, backup_path: String) -> (r: String)
    ensures
        kept ==> r@ == backup_path@,
        !kept ==> r@.len() == 0,
{
    if kept {
        backup_path
    } else {
        String::new()
    }
}

} // verus!
