use rustpanel_core::dns::{
    parse_records, parse_single, CfRecordJson, CfResponse, CfResult,
    cf_error_message, cf_record_url, cf_records_url, record_to_body, validate_record, DnsRecord};

#[test]
fn builds_cloudflare_urls() {
    let base = "https://api.cloudflare.com/client/v4";
    assert_eq!(cf_records_url(base, "zone1"), "https://api.cloudflare.com/client/v4/zones/zone1/dns_records");
    assert_eq!(cf_record_url(base, "zone1", "rec9"), "https://api.cloudflare.com/client/v4/zones/zone1/dns_records/rec9");
    assert_eq!(cf_records_url("https://x/", "z"), "https://x/zones/z/dns_records");
}

#[test]
fn record_body_defaults_ttl_and_trims() {
    let record = DnsRecord {
        id: String::new(),
        record_type: " A ".to_owned(),
        name: " www.example.com ".to_owned(),
        content: " 1.2.3.4 ".to_owned(),
        ttl: 0,
        proxied: true,
    };
    let body = record_to_body(&record);
    assert_eq!(body.record_type, "A");
    assert_eq!(body.name, "www.example.com");
    assert_eq!(body.content, "1.2.3.4");
    assert_eq!(body.ttl, 1);
    assert!(body.proxied);
}

#[test]
fn extracts_cloudflare_error_message() {
    assert_eq!(cf_error_message(&vec!["DNS Validation Error".to_owned()]), "DNS Validation Error");
    assert_eq!(cf_error_message(&vec!["a".to_owned(), "b".to_owned()]), "a; b");
    assert_eq!(cf_error_message(&Vec::new()), "cloudflare 返回失败");
}

#[test]
fn records_need_type_name_and_content() {
    let mut record = DnsRecord {
        id: String::new(),
        record_type: "A".to_owned(),
        name: "www".to_owned(),
        content: " ".to_owned(),
        ttl: 1,
        proxied: false,
    };
    assert_eq!(validate_record(&record).expect_err("content").message, "记录值不能为空");
    record.content = "1.1.1.1".to_owned();
    assert!(validate_record(&record).is_ok());
}

fn cf_record(id: &str, record_type: &str, name: &str, content: &str, ttl: u64, proxied: bool) -> CfRecordJson {
    CfRecordJson {
        id: Some(id.to_owned()),
        record_type: Some(record_type.to_owned()),
        name: Some(name.to_owned()),
        content: Some(content.to_owned()),
        ttl: Some(ttl),
        proxied: Some(proxied),
    }
}

#[test]
fn parses_record_list_and_single() {
    let list = CfResponse {
        http_success: true,
        success: Some(true),
        error_messages: Vec::new(),
        result: CfResult::Array(vec![
            cf_record("a1", "A", "x.example.com", "1.1.1.1", 120, false),
            cf_record("a2", "TXT", "_acme.example.com", "token", 1, false),
        ]),
    };
    let records = parse_records(&list).expect("parse");
    assert_eq!(records.len(), 2);
    assert_eq!(records[0].id, "a1");
    assert_eq!(records[0].ttl, 120);
    assert_eq!(records[1].record_type, "TXT");

    let single = CfResponse {
        http_success: true,
        success: Some(true),
        error_messages: Vec::new(),
        result: CfResult::Value(cf_record("a3", "CNAME", "www", "example.com", 1, true)),
    };
    let record = parse_single(&single).expect("single");
    assert_eq!(record.id, "a3");
    assert!(record.proxied);
}

#[test]
fn parse_records_rejects_missing_result() {
    let response = CfResponse {
        http_success: true,
        success: Some(true),
        error_messages: Vec::new(),
        result: CfResult::Missing,
    };
    assert!(parse_records(&response).is_err());
    assert!(parse_single(&response).is_err());
}

#[test]
fn missing_record_fields_take_defaults() {
    let response = CfResponse {
        http_success: true,
        success: Some(true),
        error_messages: Vec::new(),
        result: CfResult::Value(CfRecordJson { id: None, record_type: None, name: None, content: None, ttl: None, proxied: None }),
    };
    let record = parse_single(&response).expect("single");
    assert_eq!(record.id, "");
    assert_eq!(record.ttl, 1);
    assert!(!record.proxied);
}
