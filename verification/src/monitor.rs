//! Monitoring logic: `/proc/diskstats` lines, disk counter deltas, the
//! bounded sample history and its nearest process list, process-list limits,
//! report periods, and the traffic and security counts of a health report.

use vstd::prelude::*;

use crate::text::{eq_str, lower_seq, parse_unsigned, parse_unsigned_exec, split_words, to_lower, trim, trim_seq, views, words};

verus! {

pub const HISTORY_SAMPLE_INTERVAL_SECONDS: u64 = 60;
pub const HISTORY_RETENTION_SECONDS: u64 = 604800;
pub const HISTORY_MAX_SAMPLES: usize = 10080;
pub const PROCESS_SNAPSHOT_LIMIT: usize = 20;
pub const PROCESS_SNAPSHOT_MAX_LIMIT: usize = 100;
pub const SECTOR_BYTES: u64 = 512;

/// Bytes read and written by one disk since boot.
#[derive(Clone, Copy, Debug, Default, PartialEq, Eq)]
pub struct DiskCounter {
    pub read_bytes: u64,
    pub written_bytes: u64,
}

/// `a * b`, or `u64::MAX` where that overflows.
pub open spec fn saturating_mul_spec(a: u64, b: u64) -> u64 {
    if a * b > u64::MAX { u64::MAX } else { (a * b) as u64 }
}

fn saturating_mul(a: u64, b: u64) -> (r: u64)
    ensures
        r == saturating_mul_spec(a, b),
{
    match a.checked_mul(b) {
        Some(p) => p,
        None => u64::MAX,
    }
}

/// The disk name and counters of a `/proc/diskstats` line: the third field
/// is the name, the sixth and tenth count sectors read and written.
pub open spec fn diskstats_spec(line: Seq<char>) -> Option<(Seq<char>, DiskCounter)> {
    let f = words(line);
    if f.len() < 10 {
        None
    } else {
        match (parse_unsigned(f[5], u64::MAX as nat), parse_unsigned(f[9], u64::MAX as nat)) {
            (Some(r), Some(w)) => Some((f[2], DiskCounter {
                read_bytes: saturating_mul_spec(r as u64, SECTOR_BYTES),
                written_bytes: saturating_mul_spec(w as u64, SECTOR_BYTES),
            })),
            _ => None,
        }
    }
}

pub fn parse_linux_diskstats_line(line: &str) -> (r: Option<(String, DiskCounter)>)
    ensures
        match diskstats_spec(line@) {
            Some((name, c)) => r matches Some(p) && p.0@ == name && p.1 == c,
            None => r is None,
        },
{
    let fields = split_words(line);
    proof {
        assert(views(fields@).len() == fields@.len());
    }
    if fields.len() < 10 {
        return None;
    }
    assert(views(fields@)[2] == fields@[2]@);
    assert(views(fields@)[5] == fields@[5]@);
    assert(views(fields@)[9] == fields@[9]@);
    let read = match parse_unsigned_exec(fields[5].as_str(), u64::MAX) {
        Some(v) => v,
        None => {
            return None;
        },
    };
    let written = match parse_unsigned_exec(fields[9].as_str(), u64::MAX) {
        Some(v) => v,
        None => {
            return None;
        },
    };
    let name = fields[2].clone();
    Some((name, DiskCounter { read_bytes: saturating_mul(read, SECTOR_BYTES), written_bytes: saturating_mul(written, SECTOR_BYTES) }))
}

/// The counters of every disk, as read at one moment.
#[derive(Clone, Debug, Default)]
pub struct DiskCounters {
    pub counters: Vec<(String, DiskCounter)>,
}

/// The counters of the first entry named `name`.
pub open spec fn counter_of(counters: Seq<(String, DiskCounter)>, name: Seq<char>) -> Option<DiskCounter>
    decreases counters.len(),
{
    if counters.len() == 0 {
        None
    } else if counters[0].0@ == name {
        Some(counters[0].1)
    } else {
        counter_of(counters.drop_first(), name)
    }
}

fn find_counter(counters: &Vec<(String, DiskCounter)>, name: &str) -> (r: Option<DiskCounter>)
    ensures
        r == counter_of(counters@, name@),
{
    let mut i: usize = 0;
    assert(counters@.skip(0) == counters@);
    while i < counters.len()
        invariant
            i <= counters@.len(),
            counter_of(counters@.skip(i as int), name@) == counter_of(counters@, name@),
        decreases counters@.len() - i,
    {
        assert(counters@.skip(i as int)[0] == counters@[i as int]);
        if eq_str(counters[i].0.as_str(), name) {
            return Some(counters[i].1);
        }
        assert(counters@.skip(i as int).drop_first() == counters@.skip(i + 1));
        i += 1;
    }
    None
}

impl DiskCounters {
    /// Bytes read and written by the named disk since `previous`; zero when
    /// either reading lacks the disk, and never below zero.
    pub fn delta_for(&self, previous: &DiskCounters, disk_name: &str) -> (r: (u64, u64))
        ensures
            match (counter_of(self.counters@, disk_name@), counter_of(previous.counters@, disk_name@)) {
                (Some(c), Some(p)) => r == (
                    if c.read_bytes >= p.read_bytes { (c.read_bytes - p.read_bytes) as u64 } else { 0u64 },
                    if c.written_bytes >= p.written_bytes { (c.written_bytes - p.written_bytes) as u64 } else { 0u64 },
                ),
                _ => r == (0u64, 0u64),
            },
    {
        let current = match find_counter(&self.counters, disk_name) {
            Some(c) => c,
            None => {
                return (0, 0);
            },
        };
        let prev = match find_counter(&previous.counters, disk_name) {
            Some(c) => c,
            None => {
                return (0, 0);
            },
        };
        (
            if current.read_bytes >= prev.read_bytes { current.read_bytes - prev.read_bytes } else { 0 },
            if current.written_bytes >= prev.written_bytes { current.written_bytes - prev.written_bytes } else { 0 },
        )
    }
}

/// A sample and the second it describes.
#[derive(Clone, Debug)]
pub struct TimedSample<S> {
    pub timestamp_seconds: u64,
    pub sample: S,
}

/// The process list recorded at one sample.
#[derive(Clone, Debug)]
pub struct ProcessHistorySample<P> {
    pub timestamp_seconds: u64,
    pub processes: Vec<P>,
}

/// Samples taken at most once a minute, kept for a week and at most
/// [`HISTORY_MAX_SAMPLES`] of them.
#[derive(Debug)]
pub struct MonitorHistory<S, P> {
    pub metric_samples: Vec<TimedSample<S>>,
    pub process_samples: Vec<ProcessHistorySample<P>>,
    pub last_sample_seconds: u64,
}

impl<S, P> Default for MonitorHistory<S, P> {
    fn default() -> (r: Self)
        ensures
            r.metric_samples@.len() == 0 && r.process_samples@.len() == 0 && r.last_sample_seconds == 0,
    {
        MonitorHistory { metric_samples: Vec::new(), process_samples: Vec::new(), last_sample_seconds: 0 }
    }
}

/// Keeps the samples taken at or after `oldest`.
pub open spec fn fresh_metric<S>(oldest: u64) -> spec_fn(TimedSample<S>) -> bool {
    |s: TimedSample<S>| s.timestamp_seconds >= oldest
}

pub open spec fn fresh_process<P>(oldest: u64) -> spec_fn(ProcessHistorySample<P>) -> bool {
    |s: ProcessHistorySample<P>| s.timestamp_seconds >= oldest
}

/// The newest `max` entries of `s`.
pub open spec fn newest<T>(s: Seq<T>, max: nat) -> Seq<T> {
    if s.len() > max { s.skip(s.len() - max) } else { s }
}

/// The start of the retention window ending at `now`.
pub open spec fn oldest_kept(now: u64) -> u64 {
    if now >= HISTORY_RETENTION_SECONDS { (now - HISTORY_RETENTION_SECONDS) as u64 } else { 0 }
}

fn keep_fresh_metrics<S>(v: &mut Vec<TimedSample<S>>, oldest: u64)
    ensures
        final(v)@ == old(v)@.filter(fresh_metric::<S>(oldest)),
{
    let ghost orig = v@;
    let mut rest: Vec<TimedSample<S>> = Vec::new();
    std::mem::swap(&mut rest, v);
    let mut kept: Vec<TimedSample<S>> = Vec::new();
    let ghost mut i: int = 0;
    assert(orig.skip(0) == orig);
    assert(orig.take(0) == Seq::<TimedSample<S>>::empty());
    while rest.len() > 0
        invariant
            0 <= i <= orig.len(),
            rest@ == orig.skip(i),
            kept@ == orig.take(i).filter(fresh_metric::<S>(oldest)),
        decreases rest.len(),
    {
        let t = rest.remove(0);
        proof {
            assert(t == orig[i]);
            assert(orig.take(i + 1) == orig.take(i).push(t));
            orig.take(i).lemma_filter_push(t, fresh_metric::<S>(oldest));
            assert(orig.skip(i + 1) == orig.skip(i).remove(0));
        }
        if t.timestamp_seconds >= oldest {
            kept.push(t);
        }
        proof {
            i = i + 1;
        }
    }
    assert(orig.take(i) == orig);
    *v = kept;
}

fn keep_fresh_processes<P>(v: &mut Vec<ProcessHistorySample<P>>, oldest: u64)
    ensures
        final(v)@ == old(v)@.filter(fresh_process::<P>(oldest)),
{
    let ghost orig = v@;
    let mut rest: Vec<ProcessHistorySample<P>> = Vec::new();
    std::mem::swap(&mut rest, v);
    let mut kept: Vec<ProcessHistorySample<P>> = Vec::new();
    let ghost mut i: int = 0;
    assert(orig.skip(0) == orig);
    assert(orig.take(0) == Seq::<ProcessHistorySample<P>>::empty());
    while rest.len() > 0
        invariant
            0 <= i <= orig.len(),
            rest@ == orig.skip(i),
            kept@ == orig.take(i).filter(fresh_process::<P>(oldest)),
        decreases rest.len(),
    {
        let t = rest.remove(0);
        proof {
            assert(t == orig[i]);
            assert(orig.take(i + 1) == orig.take(i).push(t));
            orig.take(i).lemma_filter_push(t, fresh_process::<P>(oldest));
            assert(orig.skip(i + 1) == orig.skip(i).remove(0));
        }
        if t.timestamp_seconds >= oldest {
            kept.push(t);
        }
        proof {
            i = i + 1;
        }
    }
    assert(orig.take(i) == orig);
    *v = kept;
}

impl<S, P> MonitorHistory<S, P> {
    /// Drops what is older than the retention window, then the oldest
    /// entries beyond the cap.
    pub fn prune(&mut self, now_seconds: u64)
        ensures
            final(self).metric_samples@ == newest(
                old(self).metric_samples@.filter(fresh_metric::<S>(oldest_kept(now_seconds))),
                HISTORY_MAX_SAMPLES as nat,
            ),
            final(self).process_samples@ == newest(
                old(self).process_samples@.filter(fresh_process::<P>(oldest_kept(now_seconds))),
                HISTORY_MAX_SAMPLES as nat,
            ),
            final(self).last_sample_seconds == old(self).last_sample_seconds,
    {
        let oldest = if now_seconds >= HISTORY_RETENTION_SECONDS { now_seconds - HISTORY_RETENTION_SECONDS } else { 0 };
        keep_fresh_metrics(&mut self.metric_samples, oldest);
        keep_fresh_processes(&mut self.process_samples, oldest);
        if self.metric_samples.len() > HISTORY_MAX_SAMPLES {
            let drain = self.metric_samples.len() - HISTORY_MAX_SAMPLES;
            let tail = self.metric_samples.split_off(drain);
            self.metric_samples = tail;
        }
        if self.process_samples.len() > HISTORY_MAX_SAMPLES {
            let drain = self.process_samples.len() - HISTORY_MAX_SAMPLES;
            let tail = self.process_samples.split_off(drain);
            self.process_samples = tail;
        }
    }

    /// Records a sample unless the last one is less than a minute old (a
    /// history that never sampled takes any), then prunes.
    pub fn push(&mut self, sample: TimedSample<S>, processes: Vec<P>, now_seconds: u64)
        ensures
            old(self).last_sample_seconds != 0 && now_seconds >= old(self).last_sample_seconds
                && now_seconds - old(self).last_sample_seconds < HISTORY_SAMPLE_INTERVAL_SECONDS
                ==> *final(self) == *old(self),
            !(old(self).last_sample_seconds != 0 && now_seconds >= old(self).last_sample_seconds
                && now_seconds - old(self).last_sample_seconds < HISTORY_SAMPLE_INTERVAL_SECONDS) ==> {
                &&& final(self).last_sample_seconds == now_seconds
                &&& final(self).metric_samples@ == newest(
                    old(self).metric_samples@.push(sample).filter(fresh_metric::<S>(oldest_kept(now_seconds))),
                    HISTORY_MAX_SAMPLES as nat)
                &&& final(self).process_samples@ == newest(
                    old(self).process_samples@.push(ProcessHistorySample { timestamp_seconds: now_seconds, processes })
                        .filter(fresh_process::<P>(oldest_kept(now_seconds))),
                    HISTORY_MAX_SAMPLES as nat)
            },
    {
        if self.last_sample_seconds != 0 && now_seconds >= self.last_sample_seconds
            && now_seconds - self.last_sample_seconds < HISTORY_SAMPLE_INTERVAL_SECONDS {
            return;
        }
        self.last_sample_seconds = now_seconds;
        self.metric_samples.push(sample);
        self.process_samples.push(ProcessHistorySample { timestamp_seconds: now_seconds, processes });
        self.prune(now_seconds);
    }

    /// The samples taken within `[start_seconds, end_seconds]`, in order.
    pub fn metric_samples(&self, start_seconds: u64, end_seconds: u64) -> (r: Vec<&TimedSample<S>>)
        ensures
            r@.len() == self.metric_samples@.filter(in_window::<S>(start_seconds, end_seconds)).len(),
            forall|i: int| 0 <= i < r@.len() ==> *(#[trigger] r@[i]) == self.metric_samples@.filter(in_window::<S>(start_seconds, end_seconds))[i],
            forall|i: int| 0 <= i < r@.len() ==> start_seconds <= (#[trigger] r@[i]).timestamp_seconds <= end_seconds,
    {
        let ghost pred = in_window::<S>(start_seconds, end_seconds);
        let ghost all = self.metric_samples@;
        let mut out: Vec<&TimedSample<S>> = Vec::new();
        let mut i: usize = 0;
        while i < self.metric_samples.len()
            invariant
                i <= all.len(),
                all == self.metric_samples@,
                pred == in_window::<S>(start_seconds, end_seconds),
                out@.len() == all.take(i as int).filter(pred).len(),
                forall|j: int| 0 <= j < out@.len() ==> *(#[trigger] out@[j]) == all.take(i as int).filter(pred)[j],
            decreases all.len() - i,
        {
            let ghost before = all.take(i as int).filter(pred);
            let ghost x = all[i as int];
            proof {
                assert(all.take(i + 1) == all.take(i as int).push(x));
                all.take(i as int).lemma_filter_push(x, pred);
            }
            let s = &self.metric_samples[i];
            if start_seconds <= s.timestamp_seconds && s.timestamp_seconds <= end_seconds {
                assert(pred(x));
                assert(all.take(i + 1).filter(pred) == before.push(x));
                out.push(s);
            } else {
                assert(!pred(x));
                assert(all.take(i + 1).filter(pred) == before);
            }
            i += 1;
        }
        assert(all.take(i as int) == all);
        proof {
            let f = all.filter(pred);
            all.filter_lemma(pred);
            assert forall|j: int| 0 <= j < out@.len() implies start_seconds <= (#[trigger] out@[j]).timestamp_seconds <= end_seconds by {
                assert(f.contains(f[j]));
                assert(pred(f[j]));
            }
        }
        out
    }
}

/// The distance between two instants.
pub open spec fn distance(a: u64, b: u64) -> nat {
    if a >= b { (a - b) as nat } else { (b - a) as nat }
}

/// Entry `k` is the first of those recorded closest to `ts`.
pub open spec fn nearest_at<P>(s: Seq<ProcessHistorySample<P>>, k: int, ts: u64) -> bool {
    &&& 0 <= k < s.len()
    &&& forall|j: int| 0 <= j < k ==> distance((#[trigger] s[j]).timestamp_seconds, ts) > distance(s[k].timestamp_seconds, ts)
    &&& forall|j: int| k < j < s.len() ==> distance((#[trigger] s[j]).timestamp_seconds, ts) >= distance(s[k].timestamp_seconds, ts)
}

impl<S, P> MonitorHistory<S, P> {
    /// The first `limit` processes of the recorded list closest in time to
    /// `timestamp_seconds` (the earliest such list on a tie); none when no
    /// list was recorded.
    pub fn nearest_process_snapshot(&self, timestamp_seconds: u64, limit: usize) -> (r: Option<Vec<&P>>)
        ensures
            self.process_samples@.len() == 0 <==> r is None,
            r matches Some(v) ==> exists|k: int| #[trigger] nearest_at(self.process_samples@, k, timestamp_seconds) && {
                let ps = self.process_samples@[k].processes@;
                &&& v@.len() == if limit < ps.len() { limit as int } else { ps.len() as int }
                &&& forall|i: int| 0 <= i < v@.len() ==> *(#[trigger] v@[i]) == ps[i]
            },
    {
        let samples = &self.process_samples;
        if samples.len() == 0 {
            return None;
        }
        let ghost s = samples@;
        let mut best: usize = 0;
        let mut best_diff: u64 = if samples[0].timestamp_seconds >= timestamp_seconds {
            samples[0].timestamp_seconds - timestamp_seconds
        } else {
            timestamp_seconds - samples[0].timestamp_seconds
        };
        let mut i: usize = 1;
        while i < samples.len()
            invariant
                s == samples@,
                0 <= best < i <= s.len(),
                best_diff == distance(s[best as int].timestamp_seconds, timestamp_seconds),
                forall|j: int| 0 <= j < best ==> distance((#[trigger] s[j]).timestamp_seconds, timestamp_seconds) > best_diff,
                forall|j: int| best < j < i ==> distance((#[trigger] s[j]).timestamp_seconds, timestamp_seconds) >= best_diff,
            decreases s.len() - i,
        {
            let t = samples[i].timestamp_seconds;
            let d = if t >= timestamp_seconds { t - timestamp_seconds } else { timestamp_seconds - t };
            if d < best_diff {
                best = i;
                best_diff = d;
            }
            i += 1;
        }
        assert(nearest_at(s, best as int, timestamp_seconds));
        let procs = &samples[best].processes;
        let n = if limit < procs.len() { limit } else { procs.len() };
        let mut out: Vec<&P> = Vec::new();
        let mut j: usize = 0;
        while j < n
            invariant
                n <= procs@.len(),
                j <= n,
                out@.len() == j,
                forall|x: int| 0 <= x < j ==> *(#[trigger] out@[x]) == procs@[x],
            decreases n - j,
        {
            out.push(&procs[j]);
            j += 1;
        }
        Some(out)
    }
}

/// Keeps the samples taken within `[start, end]`.
pub open spec fn in_window<S>(start: u64, end: u64) -> spec_fn(TimedSample<S>) -> bool {
    |s: TimedSample<S>| start <= s.timestamp_seconds && s.timestamp_seconds <= end
}

/// How many processes a snapshot lists: 20 when unset, at most 100.
pub fn bounded_process_limit(limit: u32) -> (r: usize)
    ensures
        r == if limit == 0 { PROCESS_SNAPSHOT_LIMIT as int } else if limit as int <= PROCESS_SNAPSHOT_MAX_LIMIT as int { limit as int } else { PROCESS_SNAPSHOT_MAX_LIMIT as int },
{
    if limit == 0 {
        PROCESS_SNAPSHOT_LIMIT
    } else if (limit as usize) <= PROCESS_SNAPSHOT_MAX_LIMIT {
        limit as usize
    } else {
        PROCESS_SNAPSHOT_MAX_LIMIT
    }
}

/// The span a health report covers.
#[derive(Clone, Copy, Debug, PartialEq, Eq, Structural)]
pub enum ReportPeriod {
    Daily,
    Weekly,
}

/// `weekly`, `week` or `7d` (any case, trimmed) ask for a weekly report;
/// anything else is daily.
pub open spec fn report_period_spec(period: Seq<char>) -> ReportPeriod {
    let p = lower_seq(trim_seq(period));
    if p == "weekly"@ || p == "week"@ || p == "7d"@ { ReportPeriod::Weekly } else { ReportPeriod::Daily }
}

pub fn normalize_report_period(period: &str) -> (r: ReportPeriod)
    ensures
        r == report_period_spec(period@),
{
    let t = trim(period);
    let p = to_lower(t.as_str());
    if eq_str(p.as_str(), "weekly") || eq_str(p.as_str(), "week") || eq_str(p.as_str(), "7d") {
        ReportPeriod::Weekly
    } else {
        ReportPeriod::Daily
    }
}

pub fn report_period_seconds(period: ReportPeriod) -> (r: u64)
    ensures
        period == ReportPeriod::Daily ==> r == 86400,
        period == ReportPeriod::Weekly ==> r == 604800,
{
    match period {
        ReportPeriod::Daily => 86400,
        ReportPeriod::Weekly => 604800,
    }
}

/// The advice line of a health report: look at processes when the host
/// needs attention, at attack sources when anything was blocked, else all
/// is quiet.
pub fn health_advice(healthy: bool, waf_blocks: u64, ssh_auto_bans: u64) -> (r: &'static str)
    ensures
        !healthy ==> r@ == "检查高峰时段进程快照，必要时扩容或限制异常进程。"@,
        healthy && (waf_blocks > 0 || ssh_auto_bans > 0) ==> r@ == "关注安全中心攻击来源排行，并保持 WAF 与 SSH 防护开启。"@,
        healthy && waf_blocks == 0 && ssh_auto_bans == 0 ==> r@ == "当前周期资源与安全事件稳定。"@,
{
    if !healthy {
        "检查高峰时段进程快照，必要时扩容或限制异常进程。"
    } else if waf_blocks > 0 || ssh_auto_bans > 0 {
        "关注安全中心攻击来源排行，并保持 WAF 与 SSH 防护开启。"
    } else {
        "当前周期资源与安全事件稳定。"
    }
}


/// The sum of a list of counters.
pub open spec fn total(s: Seq<u64>) -> nat
    decreases s.len(),
{
    if s.len() == 0 { 0 } else { total(s.drop_last()) + s.last() as nat }
}

fn sum_counters(values: &Vec<u64>) -> (r: u64)
    requires
        total(values@) <= u64::MAX,
    ensures
        r == total(values@),
{
    let mut acc: u64 = 0;
    let mut i: usize = 0;
    while i < values.len()
        invariant
            i <= values@.len(),
            acc == total(values@.take(i as int)),
            total(values@) <= u64::MAX,
        decreases values@.len() - i,
    {
        assert(values@.take(i + 1).drop_last() == values@.take(i as int));
        proof {
            lemma_total_prefix(values@, i + 1);
        }
        acc = acc + values[i];
        i += 1;
    }
    assert(values@.take(i as int) == values@);
    acc
}

proof fn lemma_total_prefix(s: Seq<u64>, n: int)
    requires
        0 <= n <= s.len(),
    ensures
        total(s.take(n)) <= total(s),
    decreases s.len() - n,
{
    if n < s.len() {
        lemma_total_prefix(s, n + 1);
        assert(s.take(n + 1).drop_last() == s.take(n));
    } else {
        assert(s.take(n) == s);
    }
}

/// The traffic over a report period: the counters summed over all
/// interfaces in the last sample minus those in the first, or 0 when they
/// went down (a reboot resets them).
pub fn network_delta(first: &Vec<u64>, last: &Vec<u64>) -> (r: u64)
    requires
        total(first@) <= u64::MAX,
        total(last@) <= u64::MAX,
    ensures
        r == if total(last@) >= total(first@) { total(last@) - total(first@) } else { 0 },
{
    let a = sum_counters(first);
    let b = sum_counters(last);
    b.saturating_sub(a)
}

/// A security event as the report counts it: when it happened, where the
/// record says, and whether it banned its source.
#[derive(Clone, Copy, Debug)]
pub struct ReportEvent {
    pub occurred_at_seconds: Option<u64>,
    pub auto_banned: bool,
}

/// The event happened at or after `start`.
pub open spec fn since(e: ReportEvent, start: u64) -> bool {
    e.occurred_at_seconds matches Some(t) && t >= start
}

pub open spec fn count_since(s: Seq<ReportEvent>, start: u64, bans_only: bool) -> nat
    decreases s.len(),
{
    if s.len() == 0 {
        0
    } else {
        count_since(s.drop_last(), start, bans_only)
            + if since(s.last(), start) && (!bans_only || s.last().auto_banned) { 1nat } else { 0nat }
    }
}

fn count_events(events: &Vec<ReportEvent>, start: u64, bans_only: bool) -> (r: usize)
    ensures
        r == count_since(events@, start, bans_only),
{
    let mut n: usize = 0;
    let mut i: usize = 0;
    while i < events.len()
        invariant
            i <= events@.len(),
            n == count_since(events@.take(i as int), start, bans_only),
            n <= i,
        decreases events@.len() - i,
    {
        assert(events@.take(i + 1).drop_last() == events@.take(i as int));
        let e = events[i];
        let hit = match e.occurred_at_seconds {
            Some(t) => t >= start,
            None => false,
        };
        if hit && (!bans_only || e.auto_banned) {
            n += 1;
        }
        i += 1;
    }
    assert(events@.take(i as int) == events@);
    n
}

/// The WAF blocks of a report period: the WAF events at or after its start.
pub fn waf_blocks_since(events: &Vec<ReportEvent>, start_seconds: u64) -> (r: usize)
    ensures
        r == count_since(events@, start_seconds, false),
{
    count_events(events, start_seconds, false)
}

/// The SSH auto-bans of a report period: the SSH events at or after its
/// start that banned their source.
pub fn ssh_auto_bans_since(events: &Vec<ReportEvent>, start_seconds: u64) -> (r: usize)
    ensures
        r == count_since(events@, start_seconds, true),
{
    count_events(events, start_seconds, true)
}

} // verus!
