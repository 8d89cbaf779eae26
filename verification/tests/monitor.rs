use rustpanel_core::monitor::{
    bounded_process_limit, normalize_report_period, parse_linux_diskstats_line,
    report_period_seconds, network_delta, ssh_auto_bans_since, waf_blocks_since, ReportEvent, DiskCounter, DiskCounters, MonitorHistory, ReportPeriod, TimedSample,
};

#[derive(Debug, Clone)]
struct Sample {
    cpu_usage_percent: f32,
}

fn test_sample(timestamp_seconds: u64, cpu_usage_percent: f32) -> TimedSample<Sample> {
    TimedSample { timestamp_seconds, sample: Sample { cpu_usage_percent } }
}

#[test]
fn parses_linux_diskstats_line() {
    let parsed = parse_linux_diskstats_line("   8       0 sda 100 0 200 0 300 0 400 0 0 0 0 0").expect("diskstats");

    assert_eq!(parsed.0, "sda");
    assert_eq!(parsed.1.read_bytes, 200 * 512);
    assert_eq!(parsed.1.written_bytes, 400 * 512);
}

#[test]
fn short_or_non_numeric_diskstats_lines_are_skipped() {
    assert!(parse_linux_diskstats_line("8 0 sda 1 2").is_none());
    assert!(parse_linux_diskstats_line("8 0 sda 1 2 x 4 5 6 7").is_none());
}

#[test]
fn history_filters_metric_samples_by_time_window() {
    let mut history: MonitorHistory<Sample, ()> = MonitorHistory::default();
    history.push(test_sample(100, 10.0), Vec::new(), 100);
    history.last_sample_seconds = 0;
    history.push(test_sample(200, 80.0), Vec::new(), 200);

    let samples = history.metric_samples(150, 250);

    assert_eq!(samples.len(), 1);
    assert_eq!(samples[0].timestamp_seconds, 200);
    assert_eq!(samples[0].sample.cpu_usage_percent, 80.0);
}

#[test]
fn history_samples_at_most_once_a_minute() {
    let mut history: MonitorHistory<Sample, ()> = MonitorHistory::default();
    history.push(test_sample(100, 1.0), Vec::new(), 100);
    history.push(test_sample(130, 2.0), Vec::new(), 130);
    assert_eq!(history.metric_samples.len(), 1);
    history.push(test_sample(160, 3.0), Vec::new(), 160);
    assert_eq!(history.metric_samples.len(), 2);
}

#[test]
fn history_forgets_samples_older_than_a_week() {
    let mut history: MonitorHistory<Sample, ()> = MonitorHistory::default();
    history.push(test_sample(100, 1.0), Vec::new(), 100);
    history.push(test_sample(100 + 604_801, 2.0), Vec::new(), 100 + 604_801);
    assert_eq!(history.metric_samples.len(), 1);
    assert_eq!(history.process_samples.len(), 1);
}

#[test]
fn disk_deltas_never_go_negative() {
    let now = DiskCounters { counters: vec![("sda".to_owned(), DiskCounter { read_bytes: 10, written_bytes: 5 })] };
    let before = DiskCounters { counters: vec![("sda".to_owned(), DiskCounter { read_bytes: 4, written_bytes: 9 })] };
    assert_eq!(now.delta_for(&before, "sda"), (6, 0));
    assert_eq!(now.delta_for(&before, "sdb"), (0, 0));
}

#[test]
fn process_limits_and_report_periods() {
    assert_eq!(bounded_process_limit(0), 20);
    assert_eq!(bounded_process_limit(7), 7);
    assert_eq!(bounded_process_limit(1000), 100);
    assert_eq!(normalize_report_period(" Week "), ReportPeriod::Weekly);
    assert_eq!(normalize_report_period("daily"), ReportPeriod::Daily);
    assert_eq!(report_period_seconds(ReportPeriod::Weekly), 604_800);
}

#[test]
fn nearest_process_snapshot_takes_the_closest_list() {
    let mut history: MonitorHistory<Sample, u32> = MonitorHistory::default();
    history.push(test_sample(100, 1.0), vec![1, 2, 3], 100);
    history.push(test_sample(200, 1.0), vec![4, 5], 200);
    history.push(test_sample(300, 1.0), vec![6], 300);

    let near = history.nearest_process_snapshot(190, 10).expect("snapshot");
    assert_eq!(near, vec![&4, &5]);
    // A tie goes to the earlier list; the limit cuts the list.
    let tie = history.nearest_process_snapshot(150, 2).expect("snapshot");
    assert_eq!(tie, vec![&1, &2]);

    let empty: MonitorHistory<Sample, u32> = MonitorHistory::default();
    assert!(empty.nearest_process_snapshot(0, 5).is_none());
}

#[test]
fn summarizes_peak_average_and_network_delta() {
    // The traffic part of the summary: interface totals of the last sample
    // minus those of the first.
    assert_eq!(network_delta(&vec![100, 50], &vec![400, 250]), 500);
    assert_eq!(network_delta(&vec![500], &vec![100]), 0);
    assert_eq!(network_delta(&vec![], &vec![]), 0);
}

#[test]
fn security_counters_count_events_in_the_period() {
    let events = vec![
        ReportEvent { occurred_at_seconds: Some(50), auto_banned: true },
        ReportEvent { occurred_at_seconds: Some(150), auto_banned: false },
        ReportEvent { occurred_at_seconds: Some(200), auto_banned: true },
        ReportEvent { occurred_at_seconds: None, auto_banned: true },
    ];
    assert_eq!(waf_blocks_since(&events, 100), 2);
    assert_eq!(ssh_auto_bans_since(&events, 100), 1);
    assert_eq!(ssh_auto_bans_since(&events, 0), 2);
}
