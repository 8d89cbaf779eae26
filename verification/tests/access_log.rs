use rustpanel_core::access_log::{
    bump_capped, feed_line, is_bot, parse_line, read_failure_status, report, require_log_path, Aggregate, ReadFailure,
    DISTINCT_CAP,
};
use rustpanel_core::status::Code;
use rustpanel_core::count_table::{top_n_items, CountTable};

#[test]
fn parses_combined_log_line() {
    let line = r#"203.0.113.7 - - [10/Oct/2026:13:55:36 +0000] "GET /index.html?a=1 HTTP/1.1" 200 1024 "https://ref" "Mozilla/5.0""#;
    let entry = parse_line(line).expect("parse");
    assert_eq!(entry.ip, "203.0.113.7");
    assert_eq!(entry.path, "/index.html");
    assert_eq!(entry.status, 200);
    assert_eq!(entry.bytes, 1024);
    assert_eq!(entry.user_agent, "Mozilla/5.0");
}

#[test]
fn handles_dash_bytes_and_bot_ua() {
    let line = r#"66.249.66.1 - - [10/Oct/2026:00:00:00 +0000] "GET /robots.txt HTTP/1.1" 404 - "-" "Googlebot/2.1""#;
    let entry = parse_line(line).expect("parse");
    assert_eq!(entry.bytes, 0);
    assert_eq!(entry.status, 404);
    assert!(is_bot(&entry.user_agent));
}

#[test]
fn rejects_garbage_line() {
    assert!(parse_line("not a log line").is_none());
    assert!(parse_line("").is_none());
}

#[test]
fn top_n_sorts_by_count_then_key() {
    let mut map = CountTable::new();
    map.set("/a".to_owned(), 5u64);
    map.set("/b".to_owned(), 9u64);
    map.set("/c".to_owned(), 5u64);
    let top = top_n_items(&map, 2);
    assert_eq!(top[0].key, "/b");
    assert_eq!(top[0].count, 9);
    assert_eq!(top[1].key, "/a");
}

#[test]
fn cap_marks_truncated_and_bounds_size() {
    let mut map = CountTable::new();
    let mut truncated = false;
    for i in 0..DISTINCT_CAP {
        bump_capped(&mut map, format!("k{i}"), &mut truncated);
    }
    assert!(!truncated);
    bump_capped(&mut map, "overflow".to_owned(), &mut truncated);
    assert!(truncated);
    assert_eq!(map.len(), DISTINCT_CAP);
    bump_capped(&mut map, "k0".to_owned(), &mut truncated);
    assert_eq!(map.get("k0"), Some(2));
}

#[test]
fn bot_detection_ignores_case_and_plain_browsers() {
    assert!(is_bot("Mozilla/5.0 (compatible; BINGBOT/2.0)"));
    assert!(!is_bot("Mozilla/5.0 (X11; Linux x86_64) Firefox/120.0"));
}

#[test]
fn status_out_of_range_is_rejected() {
    let line = r#"1.2.3.4 - - [x] "GET / HTTP/1.1" 70000 10 "-" "ua""#;
    assert!(parse_line(line).is_none());
}

#[test]
fn log_path_must_be_absolute_and_read_failures_map_to_statuses() {
    assert_eq!(require_log_path("  /var/log/nginx/access.log ").expect("path"), "/var/log/nginx/access.log");
    assert_eq!(require_log_path("logs/access.log").unwrap_err().code, Code::InvalidArgument);
    assert!(require_log_path("   ").is_err());

    assert_eq!(read_failure_status(ReadFailure::NotFound, "x").code, Code::NotFound);
    assert_eq!(read_failure_status(ReadFailure::PermissionDenied, "x").message, "无权读取该日志文件");
    assert_eq!(read_failure_status(ReadFailure::Other, "disk on fire").message, "disk on fire");
}

#[test]
fn unreadable_lines_count_as_skipped_and_the_budget_stops_reading() {
    let mut agg = Aggregate::new();
    assert!(feed_line(&mut agg, None));
    assert!(feed_line(&mut agg, Some("garbage")));
    assert!(feed_line(
        &mut agg,
        Some(r#"198.51.100.1 - - [10/Oct/2026:13:55:36 +0000] "GET / HTTP/1.1" 404 - "-" "curl/8""#)
    ));
    let summary = report(&agg, 10);
    assert_eq!(summary.parsed_lines, 1);
    assert_eq!(summary.skipped_lines, 2);
    assert_eq!(summary.status_4xx, 1);
    assert_eq!(summary.status.message, "ok");
}

fn log_line(ip: &str, path: &str, status: u16, agent: &str) -> Option<String> {
    Some(format!(r#"{ip} - - [10/Oct/2026:13:55:36 +0000] "GET {path} HTTP/1.1" {status} 512 "-" "{agent}""#))
}

#[test]
fn analysis_counts_every_table_and_ranks_the_top_entries() {
    let lines = vec![
        log_line("10.0.0.1", "/a?x=1", 200, "curl/8"),
        log_line("10.0.0.2", "/a", 301, "Googlebot/2.1"),
        log_line("10.0.0.1", "/b", 404, "curl/8"),
        None,
        Some("not a log line".to_owned()),
        log_line("10.0.0.3", "/c", 500, ""),
    ];
    let r = rustpanel_core::access_log::analyze_lines(&lines, 2);
    assert_eq!(r.total_requests, 4);
    assert_eq!(r.parsed_lines, 4);
    assert_eq!(r.skipped_lines, 2);
    assert_eq!(r.unique_visitors, 3);
    assert_eq!(r.total_bytes, 4 * 512);
    assert_eq!((r.status_2xx, r.status_3xx, r.status_4xx, r.status_5xx), (1, 1, 1, 1));
    assert_eq!(r.bot_requests, 1);
    assert!(!r.truncated);
    let paths: Vec<(String, u64)> = r.top_paths.iter().map(|i| (i.key.clone(), i.count)).collect();
    assert_eq!(paths, vec![("/a".to_owned(), 2), ("/b".to_owned(), 1)]);
    let ips: Vec<(String, u64)> = r.top_ips.iter().map(|i| (i.key.clone(), i.count)).collect();
    assert_eq!(ips, vec![("10.0.0.1".to_owned(), 2), ("10.0.0.2".to_owned(), 1)]);
    let agents: Vec<(String, u64)> = r.top_user_agents.iter().map(|i| (i.key.clone(), i.count)).collect();
    assert_eq!(agents, vec![("curl/8".to_owned(), 2), ("Googlebot/2.1".to_owned(), 1)]);
}

#[test]
fn a_new_key_enters_a_table_with_count_one() {
    let mut agg = Aggregate::new();
    assert!(feed_line(&mut agg, log_line("10.0.0.9", "/only", 200, "agent").as_deref()));
    let r = report(&agg, 10);
    assert_eq!(r.top_paths.len(), 1);
    assert_eq!((r.top_paths[0].key.as_str(), r.top_paths[0].count), ("/only", 1));
    assert_eq!((r.top_user_agents[0].key.as_str(), r.top_user_agents[0].count), ("agent", 1));
}
