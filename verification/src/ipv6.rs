//! IPv6 address text: reading the colon-hexadecimal form into eight
//! segments, and writing segments back in the canonical form (lower-case
//! hexadecimal, the first longest run of two or more zero segments written
//! as `::`, IPv4-mapped addresses with a dotted tail).

use vstd::prelude::*;

use crate::capability::{parse_hex, parse_hex_exec};
use crate::text::{chars_of, dec, parse_unsigned, parse_unsigned_exec, pieces, push_char, push_str, push_u64, split_char, string_of, views};

verus! {

/// A group of one to four hexadecimal digits, read as a segment.
pub open spec fn hex_group(s: Seq<char>) -> Option<u16> {
    if 1 <= s.len() <= 4 && s[0] != '+' {
        match parse_hex(s, 0xffff) {
            Some(n) => Some(n as u16),
            None => None,
        }
    } else {
        None
    }
}

/// The segments of colon-separated groups, when every group reads.
pub open spec fn groups_seq(ps: Seq<Seq<char>>) -> Option<Seq<u16>>
    decreases ps.len(),
{
    if ps.len() == 0 {
        Some(Seq::empty())
    } else {
        match (groups_seq(ps.drop_last()), hex_group(ps.last())) {
            (Some(a), Some(g)) => Some(a.push(g)),
            _ => None,
        }
    }
}

/// The segments of a non-empty run of groups separated by single colons.
pub open spec fn groups_of(t: Seq<char>) -> Option<Seq<u16>> {
    groups_seq(pieces(t, ':'))
}

/// A decimal octet of a dotted IPv4 address: one to three digits, at most
/// 255, no leading zero unless it is the only digit.
pub open spec fn octet(s: Seq<char>) -> Option<u8> {
    if 1 <= s.len() <= 3 && s[0] != '+' && !(s.len() > 1 && s[0] == '0') {
        match parse_unsigned(s, 255) {
            Some(n) => Some(n as u8),
            None => None,
        }
    } else {
        None
    }
}

/// A dotted IPv4 address read as the two segments it stands for.
pub open spec fn ipv4_tail(s: Seq<char>) -> Option<(u16, u16)> {
    let ps = pieces(s, '.');
    if ps.len() == 4 {
        match (octet(ps[0]), octet(ps[1]), octet(ps[2]), octet(ps[3])) {
            (Some(a), Some(b), Some(c), Some(d)) => Some(((a * 256 + b) as u16, (c * 256 + d) as u16)),
            _ => None,
        }
    } else {
        None
    }
}

/// The segments of the last run of groups of an address: its last piece
/// may be a dotted IPv4 address, which stands for two segments.
pub open spec fn tail_groups(t: Seq<char>) -> Option<Seq<u16>> {
    let ps = pieces(t, ':');
    match ipv4_tail(ps.last()) {
        Some((h, l)) => match groups_seq(ps.drop_last()) {
            Some(a) => Some(a.push(h).push(l)),
            None => None,
        },
        None => groups_seq(ps),
    }
}

/// The first position from `i` where `::` stands, or the length.
pub open spec fn double_colon_from(t: Seq<char>, i: int) -> int
    decreases t.len() - i,
{
    if i < 0 || i + 1 >= t.len() {
        t.len() as int
    } else if t[i] == ':' && t[i + 1] == ':' {
        i
    } else {
        double_colon_from(t, i + 1)
    }
}

/// The groups on one side of `::`: none for an empty side.
pub open spec fn side_groups(t: Seq<char>) -> Option<Seq<u16>> {
    if t.len() == 0 {
        Some(Seq::empty())
    } else {
        groups_of(t)
    }
}

/// The eight segments of an IPv6 address text: eight groups, or groups
/// around one `::` that stands for at least one zero segment; the last
/// piece of the text may be a dotted IPv4 address (two segments).
pub open spec fn ipv6_segments(t: Seq<char>) -> Option<Seq<u16>> {
    let k = double_colon_from(t, 0);
    if k >= t.len() {
        match tail_groups(t) {
            Some(g) => if g.len() == 8 {
                Some(g)
            } else {
                None
            },
            None => None,
        }
    } else {
        let r = t.skip(k + 2);
        match (side_groups(t.take(k)), if r.len() == 0 { Some(Seq::empty()) } else { tail_groups(r) }) {
            (Some(a), Some(b)) => if a.len() + b.len() <= 7 {
                Some(a + Seq::new((8 - a.len() - b.len()) as nat, |i: int| 0u16) + b)
            } else {
                None
            },
            _ => None,
        }
    }
}

proof fn lemma_groups_none_extends(ps: Seq<Seq<char>>, i: int)
    requires
        0 <= i <= ps.len(),
        groups_seq(ps.take(i)) is None,
    ensures
        groups_seq(ps) is None,
    decreases ps.len() - i,
{
    if i < ps.len() {
        assert(ps.drop_last().take(i) == ps.take(i));
        lemma_groups_none_extends(ps.drop_last(), i);
    } else {
        assert(ps.take(i) == ps);
    }
}

fn hex_group_exec(s: &str) -> (r: Option<u16>)
    ensures
        r == hex_group(s@),
{
    let v = chars_of(s);
    if v.len() < 1 || v.len() > 4 || v[0] == '+' {
        return None;
    }
    match parse_hex_exec(s, 0xffff) {
        Some(n) => Some(n as u16),
        None => None,
    }
}

/// The segments of the first `n` pieces.
fn groups_of_pieces(ps: &Vec<String>, n: usize) -> (r: Option<Vec<u16>>)
    requires
        n <= ps@.len(),
    ensures
        match groups_seq(views(ps@).take(n as int)) {
            Some(g) => r matches Some(v) && v@ == g,
            None => r is None,
        },
{
    let ghost all = views(ps@).take(n as int);
    let mut out: Vec<u16> = Vec::new();
    let mut i: usize = 0;
    assert(all.take(0) =~= Seq::<Seq<char>>::empty());
    while i < n
        invariant
            i <= n <= ps@.len(),
            all == views(ps@).take(n as int),
            groups_seq(all.take(i as int)) == Some(out@),
        decreases n - i,
    {
        assert(all.take(i + 1).drop_last() == all.take(i as int));
        assert(all.take(i + 1).last() == ps@[i as int]@);
        match hex_group_exec(ps[i].as_str()) {
            Some(g) => {
                out.push(g);
            },
            None => {
                proof {
                    lemma_groups_none_extends(all, i + 1);
                }
                return None;
            },
        }
        i += 1;
    }
    assert(all.take(i as int) == all);
    Some(out)
}

/// The segments of groups separated by single colons.
fn groups_exec(t: &str) -> (r: Option<Vec<u16>>)
    ensures
        match groups_of(t@) {
            Some(g) => r matches Some(v) && v@ == g,
            None => r is None,
        },
{
    let ps = split_char(t, ':');
    assert(views(ps@).take(ps@.len() as int) == views(ps@));
    groups_of_pieces(&ps, ps.len())
}

fn octet_exec(s: &str) -> (r: Option<u8>)
    ensures
        r == octet(s@),
{
    let v = chars_of(s);
    if v.len() < 1 || v.len() > 3 || v[0] == '+' || (v.len() > 1 && v[0] == '0') {
        return None;
    }
    match parse_unsigned_exec(s, 255) {
        Some(n) => Some(n as u8),
        None => None,
    }
}

fn ipv4_tail_exec(s: &str) -> (r: Option<(u16, u16)>)
    ensures
        r == ipv4_tail(s@),
{
    let ps = split_char(s, '.');
    if ps.len() != 4 {
        return None;
    }
    assert(views(ps@)[0] == ps@[0]@ && views(ps@)[1] == ps@[1]@);
    assert(views(ps@)[2] == ps@[2]@ && views(ps@)[3] == ps@[3]@);
    match (octet_exec(ps[0].as_str()), octet_exec(ps[1].as_str()), octet_exec(ps[2].as_str()), octet_exec(ps[3].as_str())) {
        (Some(a), Some(b), Some(c), Some(d)) => Some(
            ((a as u16) * 256 + (b as u16), (c as u16) * 256 + (d as u16)),
        ),
        _ => None,
    }
}

/// The segments of the last run of groups (see [`tail_groups`]).
fn tail_groups_exec(t: &str) -> (r: Option<Vec<u16>>)
    ensures
        match tail_groups(t@) {
            Some(g) => r matches Some(v) && v@ == g,
            None => r is None,
        },
{
    let ps = split_char(t, ':');
    let n = ps.len();
    assert(views(ps@).last() == ps@[n - 1]@);
    match ipv4_tail_exec(ps[n - 1].as_str()) {
        Some((h, l)) => {
            assert(views(ps@).take(n - 1) == views(ps@).drop_last());
            match groups_of_pieces(&ps, n - 1) {
                Some(mut a) => {
                    a.push(h);
                    a.push(l);
                    Some(a)
                },
                None => None,
            }
        },
        None => {
            assert(views(ps@).take(n as int) == views(ps@));
            groups_of_pieces(&ps, n)
        },
    }
}

fn side_groups_exec(t: &str) -> (r: Option<Vec<u16>>)
    ensures
        match side_groups(t@) {
            Some(g) => r matches Some(v) && v@ == g,
            None => r is None,
        },
{
    if t.is_empty() {
        Some(Vec::new())
    } else {
        groups_exec(t)
    }
}

/// Reads an IPv6 address text into its eight segments.
#[verifier::rlimit(50)]
#[verifier::spinoff_prover]
pub fn parse_ipv6(text: &str) -> (r: Option<[u16; 8]>)
    ensures
        match ipv6_segments(text@) {
            Some(g) => r matches Some(a) && a@ == g,
            None => r is None,
        },
{
    let v = chars_of(text);
    let mut k: usize = 0;
    while v.len() - k > 1 && !(v[k] == ':' && v[k + 1] == ':')
        invariant
            k <= v@.len(),
            v@ == text@,
            double_colon_from(v@, k as int) == double_colon_from(v@, 0),
        decreases v@.len() - k,
    {
        k += 1;
    }
    let segs: Vec<u16> = if v.len() - k <= 1 {
        assert(double_colon_from(v@, 0) == v@.len());
        match tail_groups_exec(text) {
            Some(g) => if g.len() == 8 {
                g
            } else {
                return None;
            },
            None => {
                return None;
            },
        }
    } else {
        let left = string_of(&v, 0, k);
        let right = string_of(&v, k + 2, v.len());
        assert(left@ == text@.take(k as int));
        assert(right@ == text@.skip(k + 2));
        let a = match side_groups_exec(left.as_str()) {
            Some(a) => a,
            None => {
                return None;
            },
        };
        let b = match if right.as_str().is_empty() { Some(Vec::new()) } else { tail_groups_exec(right.as_str()) } {
            Some(b) => b,
            None => {
                return None;
            },
        };
        if a.len() > 7 || b.len() > 7 - a.len() {
            return None;
        }
        let mut out = a.clone();
        let zeros = 8 - a.len() - b.len();
        let mut z: usize = 0;
        while z < zeros
            invariant
                z <= zeros,
                zeros == 8 - a@.len() - b@.len(),
                out@ == a@ + Seq::new(z as nat, |i: int| 0u16),
            decreases zeros - z,
        {
            out.push(0);
            z += 1;
            assert(out@ =~= a@ + Seq::new(z as nat, |i: int| 0u16));
        }
        let mut j: usize = 0;
        let ghost mid = out@;
        while j < b.len()
            invariant
                j <= b@.len(),
                out@ == mid + b@.take(j as int),
            decreases b@.len() - j,
        {
            out.push(b[j]);
            j += 1;
            assert(out@ =~= mid + b@.take(j as int));
        }
        assert(b@.take(j as int) == b@);
        out
    };
    let r = [segs[0], segs[1], segs[2], segs[3], segs[4], segs[5], segs[6], segs[7]];
    assert(r@ =~= segs@);
    Some(r)
}

/// A value below sixteen as a lower-case hexadecimal digit.
pub open spec fn lower_hex_digit(d: nat) -> char {
    if d < 10 {
        (d + 48) as char
    } else {
        (d + 87) as char
    }
}

/// A number in lower-case hexadecimal without leading zeros (`{:x}`).
pub open spec fn hex_text(n: nat) -> Seq<char>
    decreases n,
{
    if n < 16 {
        seq![lower_hex_digit(n)]
    } else {
        hex_text(n / 16) + seq![lower_hex_digit(n % 16)]
    }
}

/// Segments in hexadecimal joined by `:`.
pub open spec fn join_hex(s: Seq<u16>) -> Seq<char>
    decreases s.len(),
{
    if s.len() == 0 {
        Seq::empty()
    } else if s.len() == 1 {
        hex_text(s[0] as nat)
    } else {
        hex_text(s[0] as nat) + ":"@ + join_hex(s.drop_first())
    }
}

/// The number of zero segments from `i` on.
pub open spec fn zero_run(s: Seq<u16>, i: int) -> nat
    decreases s.len() - i,
{
    if 0 <= i < s.len() && s[i] == 0 {
        1 + zero_run(s, i + 1)
    } else {
        0
    }
}

/// The start and length of the first longest run of zero segments that
/// starts at `i` or later (length 0 when there is none).
pub open spec fn longest_zero_run(s: Seq<u16>, i: int) -> (int, nat)
    decreases s.len() - i,
{
    if i < 0 || i >= s.len() {
        (s.len() as int, 0)
    } else {
        let here = zero_run(s, i);
        let later = longest_zero_run(s, i + 1);
        if here > 0 && here >= later.1 {
            (i, here)
        } else {
            later
        }
    }
}

/// The segments are an IPv4-mapped address (`::ffff:a.b.c.d`).
pub open spec fn ipv4_mapped(s: Seq<u16>) -> bool {
    s.len() == 8 && s[0] == 0 && s[1] == 0 && s[2] == 0 && s[3] == 0 && s[4] == 0 && s[5] == 0xffff
}

/// Two segments as a dotted IPv4 address.
pub open spec fn dotted(hi: u16, lo: u16) -> Seq<char> {
    dec((hi / 256) as nat) + "."@ + dec((hi % 256) as nat) + "."@ + dec((lo / 256) as nat) + "."@ + dec(
        (lo % 256) as nat,
    )
}

/// The canonical text of eight segments, as `Ipv6Addr`'s `Display` writes
/// it.
pub open spec fn ipv6_text(s: Seq<u16>) -> Seq<char> {
    if ipv4_mapped(s) {
        "::ffff:"@ + dotted(s[6], s[7])
    } else {
        let (start, len) = longest_zero_run(s, 0);
        if len > 1 {
            join_hex(s.take(start)) + "::"@ + join_hex(s.skip(start + len))
        } else {
            join_hex(s)
        }
    }
}

fn push_hex(out: &mut String, n: u16)
    ensures
        final(out)@ == old(out)@ + hex_text(n as nat),
    decreases n,
{
    if n >= 16 {
        push_hex(out, n / 16);
    }
    let d = n % 16;
    let c: char = if d < 10 { ((d + 48) as u8) as char } else { ((d + 87) as u8) as char };
    push_char(out, c);
}

fn push_groups(out: &mut String, s: &[u16; 8], lo: usize, hi: usize)
    requires
        lo <= hi <= 8,
    ensures
        final(out)@ == old(out)@ + join_hex(s@.subrange(lo as int, hi as int)),
    decreases hi - lo,
{
    let ghost part = s@.subrange(lo as int, hi as int);
    if lo == hi {
        assert(part.len() == 0);
        return;
    }
    push_hex(out, s[lo]);
    if hi - lo > 1 {
        proof {
            reveal_strlit(":");
        }
        push_char(out, ':');
        assert(part.drop_first() =~= s@.subrange(lo + 1, hi as int));
        push_groups(out, s, lo + 1, hi);
    }
}

fn zero_run_exec(s: &[u16; 8], i: usize) -> (r: usize)
    requires
        i <= 8,
    ensures
        r == zero_run(s@, i as int),
        r <= 8 - i,
    decreases 8 - i,
{
    if i < 8 && s[i] == 0 {
        1 + zero_run_exec(s, i + 1)
    } else {
        0
    }
}

fn longest_zero_run_exec(s: &[u16; 8], i: usize) -> (r: (usize, usize))
    requires
        i <= 8,
    ensures
        r.0 == longest_zero_run(s@, i as int).0,
        r.1 == longest_zero_run(s@, i as int).1,
        r.0 + r.1 <= 8,
    decreases 8 - i,
{
    if i >= 8 {
        (8, 0)
    } else {
        let here = zero_run_exec(s, i);
        let later = longest_zero_run_exec(s, i + 1);
        if here > 0 && here >= later.1 {
            (i, here)
        } else {
            later
        }
    }
}

/// Writes eight segments in the canonical text form.
pub fn format_ipv6(s: [u16; 8]) -> (r: String)
    ensures
        r@ == ipv6_text(s@),
{
    let mut out = String::new();
    if s[0] == 0 && s[1] == 0 && s[2] == 0 && s[3] == 0 && s[4] == 0 && s[5] == 0xffff {
        push_str(&mut out, "::ffff:");
        push_u64(&mut out, (s[6] / 256) as u64);
        push_str(&mut out, ".");
        push_u64(&mut out, (s[6] % 256) as u64);
        push_str(&mut out, ".");
        push_u64(&mut out, (s[7] / 256) as u64);
        push_str(&mut out, ".");
        push_u64(&mut out, (s[7] % 256) as u64);
        return out;
    }
    let (start, len) = longest_zero_run_exec(&s, 0);
    if len > 1 {
        push_groups(&mut out, &s, 0, start);
        push_str(&mut out, "::");
        push_groups(&mut out, &s, start + len, 8);
        assert(s@.subrange(0, start as int) == s@.take(start as int));
        assert(s@.subrange((start + len) as int, 8) == s@.skip((start + len) as int));
    } else {
        push_groups(&mut out, &s, 0, 8);
        assert(s@.subrange(0, 8) == s@);
    }
    out
}

} // verus!
