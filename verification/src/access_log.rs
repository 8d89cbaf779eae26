//! Combined-format web access log analysis: the request checks, line
//! parsing and bounded aggregation (distinct keys are capped so that memory
//! stays bounded).

use vstd::hash_set::StringHashSet;
use vstd::prelude::*;

use crate::count_table::{bump_capped_at, is_top_n, items_view, top_n_items, CountItem, CountTable};
use crate::status::{ok_response, ApiResponse, Code, Status};
use crate::text::{
    chars_of, contains, find_char_from, has_sub, index_of, last_index_of, lower_seq,
    parse_unsigned, parse_unsigned_exec, pieces, rfind_char, split_char, split_words, string_of,
    to_lower, trim, trim_seq, views, words,
};

verus! {

/// Upper bound on the distinct keys each counter keeps.
pub const DISTINCT_CAP: usize = 50_000;

/// Upper bound on the lines one analysis reads.
pub const MAX_LINES: u64 = 5_000_000;

pub const DEFAULT_TOP_N: u32 = 10;

pub const MAX_TOP_N: u32 = 100;

/// The gRPC access-log service.
#[derive(Clone, Debug, Default)]
pub struct AccessLogServiceImpl;

/// The fields read from one log line.
#[derive(Debug)]
pub struct ParsedEntry {
    pub ip: String,
    pub path: String,
    pub status: u16,
    pub bytes: u64,
    pub user_agent: String,
}

/// The fields of a parsed line as values.
pub struct EntrySpec {
    pub ip: Seq<char>,
    pub path: Seq<char>,
    pub status: nat,
    pub bytes: nat,
    pub user_agent: Seq<char>,
}

pub open spec fn entry_view(e: ParsedEntry) -> EntrySpec {
    EntrySpec {
        ip: e.ip@,
        path: e.path@,
        status: e.status as nat,
        bytes: e.bytes as nat,
        user_agent: e.user_agent@,
    }
}

/// The path of a request line `METHOD target proto`: the second word (or
/// `-`) without its query string.
pub open spec fn request_path_spec(request: Seq<char>) -> Seq<char> {
    let w = words(request);
    let target = if w.len() > 1 {
        w[1]
    } else {
        "-"@
    };
    pieces(target, '?')[0]
}

/// The text inside the last pair of double quotes of `line`, or empty.
pub open spec fn user_agent_spec(line: Seq<char>) -> Seq<char> {
    match last_index_of(line, '"') {
        Some(close) => match last_index_of(line.take(close as int), '"') {
            Some(open) => line.subrange(open + 1int, close as int),
            None => Seq::empty(),
        },
        None => Seq::empty(),
    }
}

/// What a combined-format line `IP - - [date] "METHOD /path proto" status
/// bytes "referer" "user-agent"` yields.
pub open spec fn parse_line_spec(raw: Seq<char>) -> Option<EntrySpec> {
    let line = trim_seq(raw);
    let fq = index_of(line, '"');
    let after = line.skip(fq + 1int);
    let re = index_of(after, '"');
    let tail = words(after.skip(re + 1int));
    if line.len() == 0 || words(line).len() == 0 || fq >= line.len() || re >= after.len()
        || tail.len() == 0 {
        None
    } else {
        match parse_unsigned(tail[0], 65535) {
            None => None,
            Some(status) => Some(
                EntrySpec {
                    ip: words(line)[0],
                    path: request_path_spec(after.take(re as int)),
                    status,
                    bytes: if tail.len() >= 2 {
                        match parse_unsigned(tail[1], 0xffff_ffff_ffff_ffff) {
                            Some(b) => b,
                            None => 0,
                        }
                    } else {
                        0
                    },
                    user_agent: user_agent_spec(line),
                },
            ),
        }
    }
}

/// Parses one combined-format access log line.
pub fn parse_line(line: &str) -> (r: Option<ParsedEntry>)
    ensures
        match parse_line_spec(line@) {
            Some(e) => r matches Some(p) && entry_view(p) == e,
            None => r is None,
        },
{
    let t = trim(line);
    let v = chars_of(t.as_str());
    if v.len() == 0 {
        return None;
    }
    let ws = split_words(t.as_str());
    if ws.len() == 0 {
        return None;
    }
    let ip = ws[0].clone();
    assert(ip@ == words(v@)[0]);
    let fq = find_char_from(&v, '"', 0);
    assert(v@.skip(0) == v@);
    if fq >= v.len() {
        return None;
    }
    let re = find_char_from(&v, '"', fq + 1);
    let ghost after = v@.skip(fq + 1);
    if re >= v.len() {
        return None;
    }
    let request = string_of(&v, fq + 1, re);
    assert(request@ == after.take(re - fq - 1));
    let rest = string_of(&v, re + 1, v.len());
    assert(rest@ == after.skip(re - fq - 1 + 1));
    let tail = split_words(rest.as_str());
    if tail.len() == 0 {
        return None;
    }
    assert(tail@[0]@ == words(rest@)[0]);
    let status = match parse_unsigned_exec(tail[0].as_str(), 65535) {
        Some(s) => s as u16,
        None => {
            return None;
        },
    };
    let bytes = if tail.len() >= 2 {
        assert(tail@[1]@ == words(rest@)[1]);
        match parse_unsigned_exec(tail[1].as_str(), 0xffff_ffff_ffff_ffff) {
            Some(b) => b,
            None => 0,
        }
    } else {
        0
    };
    let rw = split_words(request.as_str());
    let target = if rw.len() > 1 {
        assert(rw@[1]@ == words(request@)[1]);
        rw[1].clone()
    } else {
        "-".to_string()
    };
    let qs = split_char(target.as_str(), '?');
    let path = qs[0].clone();
    assert(path@ == pieces(target@, '?')[0]);
    assert(v@.take(v.len() as int) == v@);
    proof {
        crate::text::lemma_last_index_of(v@, '"');
        if let Some(close) = last_index_of(v@, '"') {
            assert(v@.take(close as int).take(close as int) == v@.take(close as int));
            crate::text::lemma_last_index_of(v@.take(close as int), '"');
        }
    }
    let user_agent = match rfind_char(&v, '"', v.len()) {
        Some(close) => match rfind_char(&v, '"', close) {
            Some(open) => string_of(&v, open + 1, close),
            None => String::new(),
        },
        None => String::new(),
    };
    Some(ParsedEntry { ip, path, status, bytes, user_agent })
}

pub open spec fn bot_needles() -> Seq<Seq<char>> {
    seq!["bot"@, "spider"@, "crawl"@, "slurp"@, "bingpreview"@]
}

/// The lower-cased user agent names a crawler.
pub open spec fn is_bot_spec(user_agent: Seq<char>) -> bool {
    exists|i: int| 0 <= i < bot_needles().len() && has_sub(lower_seq(user_agent), #[trigger] bot_needles()[i])
}

/// Whether the user agent looks like a crawler.
pub fn is_bot(user_agent: &str) -> (r: bool)
    ensures
        r == is_bot_spec(user_agent@),
{
    let lower = to_lower(user_agent);
    let l = lower.as_str();
    let r = contains(l, "bot") || contains(l, "spider") || contains(l, "crawl") || contains(l, "slurp")
        || contains(l, "bingpreview");
    proof {
        let n = bot_needles();
        assert(n[0] == "bot"@ && n[1] == "spider"@ && n[2] == "crawl"@ && n[3] == "slurp"@ && n[4]
            == "bingpreview"@);
    }
    r
}

/// A user agent is a crawler exactly when its lower-cased text contains
/// `bot`, `spider`, `crawl`, `slurp` or `bingpreview`; so, e.g., every
/// `Baiduspider` agent is counted as a crawler.
pub proof fn law_crawler_words(user_agent: Seq<char>)
    ensures
        is_bot_spec(user_agent) == (has_sub(lower_seq(user_agent), "bot"@) || has_sub(lower_seq(user_agent), "spider"@)
            || has_sub(lower_seq(user_agent), "crawl"@) || has_sub(lower_seq(user_agent), "slurp"@) || has_sub(
            lower_seq(user_agent),
            "bingpreview"@,
        )),
{
    let n = bot_needles();
    let l = lower_seq(user_agent);
    if has_sub(l, "bot"@) {
        assert(has_sub(l, n[0]));
    }
    if has_sub(l, "spider"@) {
        assert(has_sub(l, n[1]));
    }
    if has_sub(l, "crawl"@) {
        assert(has_sub(l, n[2]));
    }
    if has_sub(l, "slurp"@) {
        assert(has_sub(l, n[3]));
    }
    if has_sub(l, "bingpreview"@) {
        assert(has_sub(l, n[4]));
    }
}

/// Adds `key` to the set while it holds fewer than `cap` keys; a new key
/// beyond that is dropped and the result marked approximate.
pub fn insert_capped_set_at(set: &mut StringHashSet, key: String, truncated: &mut bool, cap: usize)
    ensures
        old(set)@.contains(key@) ==> final(set)@ == old(set)@ && *final(truncated) == *old(truncated),
        !old(set)@.contains(key@) && old(set)@.len() < cap ==> final(set)@ == old(set)@.insert(key@)
            && *final(truncated) == *old(truncated),
        !old(set)@.contains(key@) && old(set)@.len() >= cap ==> final(set)@ == old(set)@
            && *final(truncated),
{
    if set.contains(key.as_str()) {
        return;
    }
    if set.len() < cap {
        set.insert(key);
    } else {
        *truncated = true;
    }
}

/// [`insert_capped_set_at`] with the module's distinct-key cap.
pub fn insert_capped_set(set: &mut StringHashSet, key: String, truncated: &mut bool)
    ensures
        old(set)@.contains(key@) ==> final(set)@ == old(set)@ && *final(truncated) == *old(truncated),
        !old(set)@.contains(key@) && old(set)@.len() < DISTINCT_CAP ==> final(set)@ == old(set)@.insert(
            key@,
        ) && *final(truncated) == *old(truncated),
        !old(set)@.contains(key@) && old(set)@.len() >= DISTINCT_CAP ==> final(set)@ == old(set)@
            && *final(truncated),
{
    insert_capped_set_at(set, key, truncated, DISTINCT_CAP)
}

/// [`bump_capped_at`] with the module's distinct-key cap.
pub fn bump_capped(map: &mut CountTable, key: String, truncated: &mut bool)
    requires
        old(map).wf(),
        old(map)@.contains_key(key@) ==> old(map)@[key@] < u64::MAX,
    ensures
        final(map).wf(),
        old(map)@.contains_key(key@) ==> final(map)@ == old(map)@.insert(key@, (old(map)@[key@]
            + 1) as u64) && *final(truncated) == *old(truncated),
        !old(map)@.contains_key(key@) && old(map)@.len() < DISTINCT_CAP ==> final(map)@
            == old(map)@.insert(key@, 1) && *final(truncated) == *old(truncated),
        !old(map)@.contains_key(key@) && old(map)@.len() >= DISTINCT_CAP ==> final(map)@
            == old(map)@ && *final(truncated),
{
    bump_capped_at(map, key, truncated, DISTINCT_CAP)
}

/// Running totals over the lines read so far.
pub struct Aggregate {
    pub total_requests: u64,
    pub total_bytes: u64,
    pub status_2xx: u64,
    pub status_3xx: u64,
    pub status_4xx: u64,
    pub status_5xx: u64,
    pub bot_requests: u64,
    pub parsed_lines: u64,
    pub skipped_lines: u64,
    pub truncated: bool,
    pub visitors: StringHashSet,
    pub paths: CountTable,
    pub ips: CountTable,
    pub user_agents: CountTable,
}

/// The summary of one analysis.
#[derive(Debug)]
pub struct AccessReport {
    pub status: ApiResponse,
    pub total_requests: u64,
    pub unique_visitors: u64,
    pub total_bytes: u64,
    pub status_2xx: u64,
    pub status_3xx: u64,
    pub status_4xx: u64,
    pub status_5xx: u64,
    pub bot_requests: u64,
    pub parsed_lines: u64,
    pub skipped_lines: u64,
    pub top_paths: Vec<CountItem>,
    pub top_ips: Vec<CountItem>,
    pub top_user_agents: Vec<CountItem>,
    pub truncated: bool,
}

/// The running totals as values.
#[verifier::ext_equal]
pub struct AggregateView {
    pub total_requests: u64,
    pub total_bytes: u64,
    pub status_2xx: u64,
    pub status_3xx: u64,
    pub status_4xx: u64,
    pub status_5xx: u64,
    pub bot_requests: u64,
    pub parsed_lines: u64,
    pub skipped_lines: u64,
    pub truncated: bool,
    pub visitors: Set<Seq<char>>,
    pub paths: Map<Seq<char>, u64>,
    pub ips: Map<Seq<char>, u64>,
    pub user_agents: Map<Seq<char>, u64>,
}

impl View for Aggregate {
    type V = AggregateView;

    open spec fn view(&self) -> AggregateView {
        AggregateView {
            total_requests: self.total_requests,
            total_bytes: self.total_bytes,
            status_2xx: self.status_2xx,
            status_3xx: self.status_3xx,
            status_4xx: self.status_4xx,
            status_5xx: self.status_5xx,
            bot_requests: self.bot_requests,
            parsed_lines: self.parsed_lines,
            skipped_lines: self.skipped_lines,
            truncated: self.truncated,
            visitors: self.visitors@,
            paths: self.paths@,
            ips: self.ips@,
            user_agents: self.user_agents@,
        }
    }
}

/// Nothing read yet.
pub open spec fn empty_aggregate() -> AggregateView {
    AggregateView {
        total_requests: 0,
        total_bytes: 0,
        status_2xx: 0,
        status_3xx: 0,
        status_4xx: 0,
        status_5xx: 0,
        bot_requests: 0,
        parsed_lines: 0,
        skipped_lines: 0,
        truncated: false,
        visitors: Set::empty(),
        paths: Map::empty(),
        ips: Map::empty(),
        user_agents: Map::empty(),
    }
}

/// A key that a capped table cannot take: new, and the table is full.
pub open spec fn overflows(m: Map<Seq<char>, u64>, key: Seq<char>) -> bool {
    !m.contains_key(key) && m.len() >= DISTINCT_CAP
}

/// A capped table after one more `key`: its count goes up by one, a new
/// key comes in with count 1 while there is room, and otherwise nothing
/// changes.
pub open spec fn bumped(m: Map<Seq<char>, u64>, key: Seq<char>) -> Map<Seq<char>, u64> {
    if m.contains_key(key) {
        m.insert(key, (m[key] + 1) as u64)
    } else if m.len() < DISTINCT_CAP {
        m.insert(key, 1)
    } else {
        m
    }
}

/// The visitors after one more address, capped the same way.
pub open spec fn visited(s: Set<Seq<char>>, ip: Seq<char>) -> Set<Seq<char>> {
    if s.contains(ip) || s.len() < DISTINCT_CAP {
        s.insert(ip)
    } else {
        s
    }
}

/// `1` when `b` holds.
pub open spec fn one_if(b: bool) -> int {
    if b {
        1
    } else {
        0
    }
}

/// The totals after one parsed entry: one more request and parsed line,
/// its bytes (saturating), its status class, whether it is a crawler, its
/// address among the visitors, and its address, path and (non-empty) user
/// agent counted in their tables; the result is approximate from the first
/// key a full table or visitor set cannot take.
pub open spec fn apply_spec(v: AggregateView, e: EntrySpec) -> AggregateView {
    AggregateView {
        total_requests: (v.total_requests + 1) as u64,
        total_bytes: if v.total_bytes + e.bytes <= u64::MAX {
            (v.total_bytes + e.bytes) as u64
        } else {
            u64::MAX
        },
        status_2xx: (v.status_2xx + one_if(200 <= e.status <= 299)) as u64,
        status_3xx: (v.status_3xx + one_if(300 <= e.status <= 399)) as u64,
        status_4xx: (v.status_4xx + one_if(400 <= e.status <= 499)) as u64,
        status_5xx: (v.status_5xx + one_if(500 <= e.status <= 599)) as u64,
        bot_requests: (v.bot_requests + one_if(is_bot_spec(e.user_agent))) as u64,
        parsed_lines: (v.parsed_lines + 1) as u64,
        skipped_lines: v.skipped_lines,
        truncated: v.truncated || (!v.visitors.contains(e.ip) && v.visitors.len() >= DISTINCT_CAP)
            || overflows(v.ips, e.ip) || overflows(v.paths, e.path) || (e.user_agent.len() > 0 && overflows(
            v.user_agents,
            e.user_agent,
        )),
        visitors: visited(v.visitors, e.ip),
        paths: bumped(v.paths, e.path),
        ips: bumped(v.ips, e.ip),
        user_agents: if e.user_agent.len() > 0 {
            bumped(v.user_agents, e.user_agent)
        } else {
            v.user_agents
        },
    }
}

/// The totals with one more skipped line (saturating).
pub open spec fn skip_spec(v: AggregateView) -> AggregateView {
    AggregateView {
        skipped_lines: if v.skipped_lines < u64::MAX {
            (v.skipped_lines + 1) as u64
        } else {
            v.skipped_lines
        },
        ..v
    }
}

/// The line budget is used up.
pub open spec fn budget_spent(v: AggregateView) -> bool {
    v.parsed_lines + v.skipped_lines >= MAX_LINES
}

/// The totals after one more line (`None` for a line that could not be
/// read as text): such a line is skipped; a text line once the budget is
/// used up stops the reading and marks the result as truncated; otherwise
/// the line is counted as [`apply_spec`] says when it parses, and skipped
/// when it does not.
pub open spec fn feed_spec(v: AggregateView, line: Option<Seq<char>>) -> AggregateView {
    match line {
        None => skip_spec(v),
        Some(l) => if budget_spent(v) {
            AggregateView { truncated: true, ..v }
        } else {
            match parse_line_spec(l) {
                Some(e) => apply_spec(v, e),
                None => skip_spec(v),
            }
        },
    }
}

/// The totals after reading `lines` from the start, and whether the reading
/// stopped at the line budget (the lines after that are not read).
pub open spec fn analysis(lines: Seq<Option<Seq<char>>>) -> (AggregateView, bool)
    decreases lines.len(),
{
    if lines.len() == 0 {
        (empty_aggregate(), false)
    } else {
        let (v, stopped) = analysis(lines.drop_last());
        if stopped {
            (v, true)
        } else {
            (feed_spec(v, lines.last()), lines.last() is Some && budget_spent(v))
        }
    }
}

/// The addresses of the lines that parse.
pub open spec fn parsed_ips(lines: Seq<Option<Seq<char>>>) -> Set<Seq<char>>
    decreases lines.len(),
{
    if lines.len() == 0 {
        Set::empty()
    } else {
        match lines.last() {
            Some(l) => match parse_line_spec(l) {
                Some(e) => parsed_ips(lines.drop_last()).insert(e.ip),
                None => parsed_ips(lines.drop_last()),
            },
            None => parsed_ips(lines.drop_last()),
        }
    }
}

/// When reading `lines` is not truncated, the visitors are exactly the
/// addresses of the lines that parse, so the unique-visitor count is the
/// number of distinct addresses among them.
pub proof fn law_visitors_are_parsed_addresses(lines: Seq<Option<Seq<char>>>)
    ensures
        !analysis(lines).0.truncated ==> analysis(lines).0.visitors == parsed_ips(lines),
        analysis(lines).1 ==> analysis(lines).0.truncated,
    decreases lines.len(),
{
    if lines.len() > 0 {
        let d = lines.drop_last();
        law_visitors_are_parsed_addresses(d);
        let (v, stopped) = analysis(d);
        if !stopped {
            let w = feed_spec(v, lines.last());
            if !w.truncated {
                assert(!v.truncated);
                match lines.last() {
                    Some(l) => {
                        if !budget_spent(v) {
                            match parse_line_spec(l) {
                                Some(e) => {
                                    assert(w.visitors == visited(v.visitors, e.ip));
                                    assert(v.visitors.contains(e.ip) || v.visitors.len() < DISTINCT_CAP);
                                    assert(w.visitors == parsed_ips(d).insert(e.ip));
                                },
                                None => {},
                            }
                        }
                    },
                    None => {},
                }
            }
        }
    }
}

pub open spec fn counts_bounded(m: Map<Seq<char>, u64>, bound: u64) -> bool {
    forall|k: Seq<char>| m.contains_key(k) ==> #[trigger] m[k] <= bound
}

impl Aggregate {
    /// Counters and tables are consistent: every line counted once, every
    /// count at most the number of parsed lines, at most `MAX_LINES` of them.
    pub open spec fn wf(&self) -> bool {
        &&& self.paths.wf()
        &&& self.ips.wf()
        &&& self.user_agents.wf()
        &&& self.parsed_lines <= MAX_LINES
        &&& self.total_requests == self.parsed_lines
        &&& self.status_2xx + self.status_3xx + self.status_4xx + self.status_5xx
            <= self.parsed_lines
        &&& self.bot_requests <= self.parsed_lines
        &&& counts_bounded(self.paths@, self.parsed_lines)
        &&& counts_bounded(self.ips@, self.parsed_lines)
        &&& counts_bounded(self.user_agents@, self.parsed_lines)
        &&& self.paths@.len() <= DISTINCT_CAP
        &&& self.ips@.len() <= DISTINCT_CAP
        &&& self.user_agents@.len() <= DISTINCT_CAP
        &&& self.visitors@.len() <= DISTINCT_CAP
        &&& self.visitors@.finite()
    }

    /// Nothing read yet.
    pub fn new() -> (r: Self)
        ensures
            r.wf(),
            r@ == empty_aggregate(),
            r.parsed_lines == 0,
            r.skipped_lines == 0,
            !r.truncated,
    {
        Aggregate {
            total_requests: 0,
            total_bytes: 0,
            status_2xx: 0,
            status_3xx: 0,
            status_4xx: 0,
            status_5xx: 0,
            bot_requests: 0,
            parsed_lines: 0,
            skipped_lines: 0,
            truncated: false,
            visitors: StringHashSet::new(),
            paths: CountTable::new(),
            ips: CountTable::new(),
            user_agents: CountTable::new(),
        }
    }
}

proof fn lemma_bound_after_bump(
    old_m: Map<Seq<char>, u64>,
    new_m: Map<Seq<char>, u64>,
    key: Seq<char>,
    bound: u64,
)
    requires
        counts_bounded(old_m, bound),
        bound < u64::MAX,
        new_m == old_m || new_m == old_m.insert(key, 1) || (old_m.contains_key(key) && new_m
            == old_m.insert(key, (old_m[key] + 1) as u64)),
    ensures
        counts_bounded(new_m, (bound + 1) as u64),
{
}

/// Counts one parsed entry: totals, status class, crawler, visitors and the
/// three ranked tables.
pub fn apply_entry(agg: &mut Aggregate, entry: ParsedEntry)
    requires
        old(agg).wf(),
        old(agg).parsed_lines + old(agg).skipped_lines < MAX_LINES,
    ensures
        final(agg).wf(),
        final(agg).parsed_lines == old(agg).parsed_lines + 1,
        final(agg).skipped_lines == old(agg).skipped_lines,
        final(agg)@ == apply_spec(old(agg)@, entry_view(entry)),
{
    let ghost p0 = agg.parsed_lines;
    proof {
        agg.paths.lemma_len();
        agg.ips.lemma_len();
        agg.user_agents.lemma_len();
    }
    agg.parsed_lines += 1;
    agg.total_requests += 1;
    agg.total_bytes = agg.total_bytes.saturating_add(entry.bytes);
    if 200 <= entry.status && entry.status <= 299 {
        agg.status_2xx += 1;
    } else if 300 <= entry.status && entry.status <= 399 {
        agg.status_3xx += 1;
    } else if 400 <= entry.status && entry.status <= 499 {
        agg.status_4xx += 1;
    } else if 500 <= entry.status && entry.status <= 599 {
        agg.status_5xx += 1;
    }
    if is_bot(entry.user_agent.as_str()) {
        agg.bot_requests += 1;
    }
    let ParsedEntry { ip, path, status, bytes, user_agent } = entry;
    let ip2 = ip.clone();
    insert_capped_set(&mut agg.visitors, ip2, &mut agg.truncated);
    let ghost ips0 = agg.ips@;
    bump_capped(&mut agg.ips, ip, &mut agg.truncated);
    proof {
        lemma_bound_after_bump(ips0, agg.ips@, ip@, p0);
    }
    let ghost paths0 = agg.paths@;
    bump_capped(&mut agg.paths, path, &mut agg.truncated);
    proof {
        lemma_bound_after_bump(paths0, agg.paths@, path@, p0);
    }
    let ghost ua0 = agg.user_agents@;
    if !user_agent.as_str().is_empty() {
        bump_capped(&mut agg.user_agents, user_agent, &mut agg.truncated);
    }
    proof {
        lemma_bound_after_bump(ua0, agg.user_agents@, user_agent@, p0);
        agg.paths.lemma_len();
        agg.ips.lemma_len();
        agg.user_agents.lemma_len();
    }
}

/// A line as text, if it could be read as text.
pub open spec fn line_view(line: Option<&str>) -> Option<Seq<char>> {
    match line {
        Some(l) => Some(l@),
        None => None,
    }
}

/// Feeds one line (`None` for a line that could not be read as text, which
/// counts as skipped), as [`feed_spec`] says. Returns `false` when the line budget is used up and
/// reading must stop.
pub fn feed_line(agg: &mut Aggregate, line: Option<&str>) -> (go_on: bool)
    requires
        old(agg).wf(),
    ensures
        final(agg).wf(),
        final(agg)@ == feed_spec(old(agg)@, line_view(line)),
        go_on == !(line is Some && budget_spent(old(agg)@)),
{
    match line {
        None => {
            agg.skipped_lines = agg.skipped_lines.saturating_add(1);
            true
        },
        Some(l) => {
            if agg.skipped_lines >= MAX_LINES - agg.parsed_lines {
                agg.truncated = true;
                return false;
            }
            match parse_line(l) {
                Some(entry) => apply_entry(agg, entry),
                None => {
                    agg.skipped_lines += 1;
                },
            }
            true
        },
    }
}

/// Clamps a requested top-N: 0 means the default, otherwise at most the max.
pub fn effective_top_n(requested: u32) -> (r: u32)
    ensures
        r == if requested == 0 { DEFAULT_TOP_N } else if requested < MAX_TOP_N { requested } else { MAX_TOP_N },
{
    if requested == 0 {
        DEFAULT_TOP_N
    } else if requested < MAX_TOP_N {
        requested
    } else {
        MAX_TOP_N
    }
}

/// The summary of what was read, with the `top_n` most frequent keys of
/// each table.
pub fn report(agg: &Aggregate, top_n: usize) -> (r: AccessReport)
    requires
        agg.wf(),
    ensures
        r.total_requests == agg.total_requests,
        r.unique_visitors == agg.visitors@.len(),
        r.total_bytes == agg.total_bytes,
        r.status_2xx == agg.status_2xx,
        r.status_3xx == agg.status_3xx,
        r.status_4xx == agg.status_4xx,
        r.status_5xx == agg.status_5xx,
        r.bot_requests == agg.bot_requests,
        r.parsed_lines == agg.parsed_lines,
        r.skipped_lines == agg.skipped_lines,
        r.truncated == agg.truncated,
        r.status.code == 0,
        r.status.message@ == if agg.truncated { "ok(数据量较大,结果为近似/已截断)"@ } else { "ok"@ },
        is_top_n(items_view(r.top_paths@), agg.paths@, top_n),
        is_top_n(items_view(r.top_ips@), agg.ips@, top_n),
        is_top_n(items_view(r.top_user_agents@), agg.user_agents@, top_n),
{
    let status = ok_response(if agg.truncated { "ok(数据量较大,结果为近似/已截断)" } else { "ok" });
    AccessReport {
        status,
        total_requests: agg.total_requests,
        unique_visitors: agg.visitors.len() as u64,
        total_bytes: agg.total_bytes,
        status_2xx: agg.status_2xx,
        status_3xx: agg.status_3xx,
        status_4xx: agg.status_4xx,
        status_5xx: agg.status_5xx,
        bot_requests: agg.bot_requests,
        parsed_lines: agg.parsed_lines,
        skipped_lines: agg.skipped_lines,
        top_paths: top_n_items(&agg.paths, top_n),
        top_ips: top_n_items(&agg.ips, top_n),
        top_user_agents: top_n_items(&agg.user_agents, top_n),
        truncated: agg.truncated,
    }
}


/// `r` reports the totals `v`: the same figures, the visitors counted, the
/// top `top_n` of each table, and the note on an approximate result.
pub open spec fn reports(r: AccessReport, v: AggregateView, top_n: usize) -> bool {
    &&& r.total_requests == v.total_requests
    &&& r.unique_visitors == v.visitors.len()
    &&& r.total_bytes == v.total_bytes
    &&& r.status_2xx == v.status_2xx
    &&& r.status_3xx == v.status_3xx
    &&& r.status_4xx == v.status_4xx
    &&& r.status_5xx == v.status_5xx
    &&& r.bot_requests == v.bot_requests
    &&& r.parsed_lines == v.parsed_lines
    &&& r.skipped_lines == v.skipped_lines
    &&& r.truncated == v.truncated
    &&& r.status.code == 0
    &&& r.status.message@ == if v.truncated { "ok(数据量较大,结果为近似/已截断)"@ } else { "ok"@ }
    &&& is_top_n(items_view(r.top_paths@), v.paths, top_n)
    &&& is_top_n(items_view(r.top_ips@), v.ips, top_n)
    &&& is_top_n(items_view(r.top_user_agents@), v.user_agents, top_n)
}

/// The lines of a log as text, where they could be read as text.
pub open spec fn lines_view(lines: Seq<Option<String>>) -> Seq<Option<Seq<char>>> {
    lines.map_values(|o: Option<String>| match o {
        Some(l) => Some(l@),
        None => None,
    })
}

proof fn lemma_stopped_stays(lines: Seq<Option<Seq<char>>>, i: int)
    requires
        0 <= i <= lines.len(),
        analysis(lines.take(i)).1,
    ensures
        analysis(lines) == analysis(lines.take(i)),
    decreases lines.len() - i,
{
    if i < lines.len() {
        assert(lines.drop_last().take(i) == lines.take(i));
        lemma_stopped_stays(lines.drop_last(), i);
    } else {
        assert(lines.take(i) == lines);
    }
}

/// Analyzes the lines of a log (`None` for a line that could not be read
/// as text), reading until the line budget stops it, and reports the top
/// `top_n` of each table: the report of [`analysis`] of the lines. Its
/// figures stay within the caps, and when it is not truncated the visitors
/// are the distinct addresses of the lines that parse
/// ([`law_visitors_are_parsed_addresses`]).
pub fn analyze_lines(lines: &Vec<Option<String>>, top_n: usize) -> (r: AccessReport)
    ensures
        reports(r, analysis(lines_view(lines@)).0, top_n),
        r.total_requests == r.parsed_lines,
        r.parsed_lines <= MAX_LINES,
        r.status_2xx + r.status_3xx + r.status_4xx + r.status_5xx <= r.total_requests,
        r.bot_requests <= r.total_requests,
        r.unique_visitors <= DISTINCT_CAP,
        r.top_paths@.len() <= top_n && r.top_ips@.len() <= top_n && r.top_user_agents@.len() <= top_n,
        !r.truncated ==> r.unique_visitors == parsed_ips(lines_view(lines@)).len(),
{
    let ghost lv = lines_view(lines@);
    let mut agg = Aggregate::new();
    let mut i: usize = 0;
    let mut go_on = true;
    assert(lv.take(0) =~= Seq::<Option<Seq<char>>>::empty());
    while i < lines.len() && go_on
        invariant
            agg.wf(),
            i <= lines@.len(),
            lv == lines_view(lines@),
            (agg@, !go_on) == analysis(lv.take(i as int)),
        decreases lines@.len() - i,
    {
        let line: Option<&str> = match &lines[i] {
            Some(l) => Some(l.as_str()),
            None => None,
        };
        proof {
            assert(lv.take(i + 1).drop_last() == lv.take(i as int));
            assert(lv.take(i + 1).last() == lv[i as int]);
            assert(lv[i as int] == line_view(line));
        }
        go_on = feed_line(&mut agg, line);
        i += 1;
    }
    proof {
        if go_on {
            assert(lv.take(i as int) == lv);
        } else {
            lemma_stopped_stays(lv, i as int);
        }
        law_visitors_are_parsed_addresses(lv);
    }
    report(&agg, top_n)
}

/// How reading the log failed, as far as the answer depends on it.
#[derive(Clone, Copy, Debug, PartialEq, Eq, Structural)]
pub enum ReadFailure {
    NotFound,
    PermissionDenied,
    Other,
}

/// The log to analyze: the trimmed request path, which must be absolute.
pub fn require_log_path(path: &str) -> (r: Result<String, Status>)
    ensures
        trim_seq(path@).len() > 0 && trim_seq(path@)[0] == '/' ==> (r matches Ok(p) && p@ == trim_seq(path@)),
        !(trim_seq(path@).len() > 0 && trim_seq(path@)[0] == '/') ==> (r matches Err(e)
            && e.code == Code::InvalidArgument && e.message@ == "path 必须是访问日志的绝对路径"@),
{
    let t = trim(path);
    let v = chars_of(t.as_str());
    if v.len() == 0 || v[0] != '/' {
        return Err(Status::invalid_argument("path 必须是访问日志的绝对路径"));
    }
    Ok(t)
}

/// The answer when the log cannot be read: a missing file and a refused
/// read have their own statuses; anything else is internal, with its
/// message.
pub fn read_failure_status(failure: ReadFailure, message: &str) -> (r: Status)
    ensures
        failure == ReadFailure::NotFound ==> r.code == Code::NotFound && r.message@ == "日志文件不存在"@,
        failure == ReadFailure::PermissionDenied ==> r.code == Code::PermissionDenied && r.message@ == "无权读取该日志文件"@,
        failure == ReadFailure::Other ==> r.code == Code::Internal && r.message@ == message@,
{
    match failure {
        ReadFailure::NotFound => Status::new(Code::NotFound, "日志文件不存在"),
        ReadFailure::PermissionDenied => Status::new(Code::PermissionDenied, "无权读取该日志文件"),
        ReadFailure::Other => Status::new(Code::Internal, message),
    }
}

} // verus!
