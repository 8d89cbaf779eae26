use rustpanel_core::ipv6::{format_ipv6, parse_ipv6};
use rustpanel_core::capability::{
    collect_ipv6_addresses, count_listening, truncate_ipv6_prefix,
    ipv6_inventory, prefix_entry, Ipv6Candidate,
    order_disks, port_budget, release_port, reserve_port, seed_panel_port, sorted_unique, truncate_segments,
    DiskBudget, StoredReservation,
};
use rustpanel_core::status::Code;

// 2001:db8:abcd:1234:5678::1
const SAMPLE: [u16; 8] = [0x2001, 0x0db8, 0xabcd, 0x1234, 0x5678, 0, 0, 1];

#[test]
fn truncate_ipv6_prefix_handles_80_block() {
    let prefix = truncate_ipv6_prefix("2001:db8:abcd:1234:5678::1", 80);
    assert_eq!(prefix, "2001:db8:abcd:1234:5678::");
}

#[test]
fn truncate_ipv6_prefix_handles_64() {
    let prefix = truncate_ipv6_prefix("2001:db8:abcd:1234:5678::1", 64);
    assert_eq!(prefix, "2001:db8:abcd:1234::");
}

#[test]
fn truncate_segments_clear_the_bits_past_the_prefix() {
    assert_eq!(truncate_segments(SAMPLE, 80), [0x2001, 0x0db8, 0xabcd, 0x1234, 0x5678, 0, 0, 0]);
    assert_eq!(truncate_segments(SAMPLE, 64), [0x2001, 0x0db8, 0xabcd, 0x1234, 0, 0, 0, 0]);
}

#[test]
fn ipv6_text_reads_and_writes_canonically() {
    assert_eq!(parse_ipv6("2001:db8:abcd:1234:5678::1"), Some(SAMPLE));
    assert_eq!(parse_ipv6("2001:0DB8:abcd:1234:5678:0:0:1"), Some(SAMPLE));
    assert_eq!(parse_ipv6("::"), Some([0; 8]));
    assert_eq!(parse_ipv6("::1"), Some([0, 0, 0, 0, 0, 0, 0, 1]));
    assert_eq!(parse_ipv6("1::"), Some([1, 0, 0, 0, 0, 0, 0, 0]));
    assert_eq!(parse_ipv6("1:2:3:4:5:6:7::"), Some([1, 2, 3, 4, 5, 6, 7, 0]));
    assert_eq!(parse_ipv6("1:2:3:4:5:6:7:8::"), None);
    assert_eq!(parse_ipv6("1:2:3:4::5:6:7:8"), None);
    assert_eq!(parse_ipv6("1:::2"), None);
    assert_eq!(parse_ipv6("1::2::3"), None);
    assert_eq!(parse_ipv6("12345::"), None);
    assert_eq!(parse_ipv6("+1::"), None);
    assert_eq!(parse_ipv6("1:2:3:4:5:6:7"), None);
    assert_eq!(parse_ipv6(""), None);
    assert_eq!(format_ipv6(SAMPLE), "2001:db8:abcd:1234:5678::1");
    assert_eq!(format_ipv6([0; 8]), "::");
    assert_eq!(format_ipv6([1, 0, 0, 2, 0, 0, 0, 3]), "1:0:0:2::3");
    assert_eq!(format_ipv6([1, 0, 0, 2, 0, 0, 3, 4]), "1::2:0:0:3:4");
    assert_eq!(format_ipv6([1, 0, 2, 3, 4, 5, 6, 7]), "1:0:2:3:4:5:6:7");
    assert_eq!(format_ipv6([0, 0, 0, 0, 0, 0xffff, 0x0102, 0x0304]), "::ffff:1.2.3.4");
    assert_eq!(format_ipv6(parse_ipv6("fe80:0:0:0:0:0:1:2").expect("parse")), "fe80::1:2");
    assert_eq!(format_ipv6(parse_ipv6("::FFFF:102:304").expect("parse")), "::ffff:1.2.3.4");
    assert_eq!(parse_ipv6("::ffff:1.2.3.4"), Some([0, 0, 0, 0, 0, 0xffff, 0x0102, 0x0304]));
    assert_eq!(parse_ipv6("64:ff9b::10.0.0.255"), Some([0x64, 0xff9b, 0, 0, 0, 0, 0x0a00, 0x00ff]));
    assert_eq!(parse_ipv6("1:2:3:4:5:6:1.2.3.4"), Some([1, 2, 3, 4, 5, 6, 0x0102, 0x0304]));
    assert_eq!(parse_ipv6("1.2.3.4::"), None);
    assert_eq!(parse_ipv6("::01.2.3.4"), None);
    assert_eq!(parse_ipv6("::1.2.3.256"), None);
    assert_eq!(parse_ipv6("::1.2.3.4:5"), None);
    assert_eq!(parse_ipv6("1:2:3:4:5:6:7:1.2.3.4"), None);
    assert_eq!(truncate_ipv6_prefix("not an address", 64), "not an address");
    assert_eq!(truncate_ipv6_prefix("2001:db8::1", 0), "::");
}

#[test]
fn host_ipv6_addresses_and_sorted_prefixes() {
    let ip_lines = vec![
        "2: eth0    inet6 2001:db8:abcd:1234:5678::1/64 scope global dynamic".to_owned(),
        "2: eth0    inet6 2001:db8:abcd:1234:5678::2/64 scope global".to_owned(),
        "3: eth1    inet6 fe80::1/64 scope link".to_owned(),
        "4: eth2    inet6 2001:db8:1::9/48 scope global".to_owned(),
    ];
    let (addresses, prefixes) = collect_ipv6_addresses(&ip_lines, &Vec::new());
    assert_eq!(addresses.len(), 3);
    assert_eq!(addresses[0].address, "2001:db8:abcd:1234:5678::1");
    assert_eq!(addresses[0].interface_name, "eth0");
    assert_eq!(addresses[2].prefix_length, 48);
    assert_eq!(prefixes, vec!["2001:db8:1::/48".to_owned(), "2001:db8:abcd:1234::/64".to_owned()]);

    let proc_lines = vec![
        "20010db8000000000000000000000001 02 40 00 80     eth0".to_owned(),
        "fe800000000000000000000000000001 02 40 20 80     eth0".to_owned(),
    ];
    let (addresses, prefixes) = collect_ipv6_addresses(&Vec::new(), &proc_lines);
    assert_eq!(addresses.len(), 1);
    assert_eq!(addresses[0].address, "2001:db8::1");
    assert_eq!(addresses[0].prefix_length, 64);
    assert_eq!(prefixes, vec!["2001:db8::/64".to_owned()]);
}

#[test]
fn truncate_keeps_partial_segment_bits_and_clamps() {
    assert_eq!(truncate_segments(SAMPLE, 0), [0; 8]);
    assert_eq!(truncate_segments(SAMPLE, 200), SAMPLE);
    assert_eq!(truncate_segments(SAMPLE, 20), [0x2001, 0x0000, 0, 0, 0, 0, 0, 0]);
    assert_eq!(truncate_segments(SAMPLE, 24), [0x2001, 0x0d00, 0, 0, 0, 0, 0, 0]);
}

#[test]
fn reservation_round_trip() {
    let mut items: Vec<StoredReservation> = Vec::new();
    assert!(items.is_empty());

    reserve_port(&mut items, 8443, "panel", "RustPanel", "tcp", 100).expect("reserve");
    assert_eq!(items.len(), 1);
    assert_eq!(items[0].port, 8443);

    let dup = reserve_port(&mut items, 8443, "other", "", "", 101);
    assert!(dup.is_err());
    assert_eq!(dup.unwrap_err().code, Code::AlreadyExists);
    assert_eq!(items.len(), 1);

    release_port(&mut items, 8443).expect("release");
    assert!(items.is_empty());
}

#[test]
fn reservations_stay_sorted_and_refuse_bad_input() {
    let mut items: Vec<StoredReservation> = Vec::new();
    reserve_port(&mut items, 9000, "a", "", "", 1).expect("9000");
    reserve_port(&mut items, 80, "b", "", "", 2).expect("80");
    reserve_port(&mut items, 443, "c", "", "", 3).expect("443");
    let ports: Vec<u32> = items.iter().map(|r| r.port).collect();
    assert_eq!(ports, vec![80, 443, 9000]);

    assert_eq!(reserve_port(&mut items, 0, "x", "", "", 4).unwrap_err().code, Code::InvalidArgument);
    assert_eq!(reserve_port(&mut items, 70000, "x", "", "", 4).unwrap_err().code, Code::InvalidArgument);
    let blank_owner = reserve_port(&mut items, 22, "  ", "", "", 4).unwrap_err();
    assert_eq!(blank_owner.message, "owner cannot be empty");
    let missing = release_port(&mut items, 22).unwrap_err();
    assert_eq!(missing.code, Code::NotFound);
    assert_eq!(missing.message, "port 22 not reserved");
    assert_eq!(items.len(), 3);
}

#[test]
fn panel_port_is_seeded_once() {
    let mut items: Vec<StoredReservation> = Vec::new();
    assert!(seed_panel_port(&mut items, 8080, 5));
    assert!(!seed_panel_port(&mut items, 8080, 6));
    assert!(!seed_panel_port(&mut items, 0, 6));
    assert_eq!(items.len(), 1);
    assert_eq!(items[0].port, 8080);
}

#[test]
fn port_budget_counts_reserved_and_listening() {
    let budget = port_budget(Some("30"), 2, 7);
    assert_eq!(budget.total, 30);
    assert_eq!(budget.reserved, 2);
    assert_eq!(budget.listening, 7);
}

#[test]
fn disks_put_root_first_and_drop_repeated_mounts() {
    let disk = |m: &str| DiskBudget {
        mount_point: m.to_owned(),
        filesystem: "ext4".to_owned(),
        total_bytes: 10,
        available_bytes: 5,
        used_bytes: 5,
    };
    let ordered = order_disks(vec![disk("/data"), disk("/"), disk("/boot"), disk("/data")]);
    let mounts: Vec<&str> = ordered.iter().map(|d| d.mount_point.as_str()).collect();
    assert_eq!(mounts, vec!["/", "/boot", "/data"]);
}

#[test]
fn sorted_unique_sorts_and_deduplicates() {
    let out = sorted_unique(vec!["b".to_owned(), "a".to_owned(), "b".to_owned()]);
    assert_eq!(out, vec!["a".to_owned(), "b".to_owned()]);
}

fn candidate(address: &str, segments: Option<[u16; 8]>, prefix: u32) -> Ipv6Candidate {
    Ipv6Candidate {
        address: address.to_owned(),
        segments,
        prefix_length: prefix,
        interface_name: "eth0".to_owned(),
    }
}

#[test]
fn ipv6_inventory_keeps_public_addresses_and_falls_back_to_proc() {
    let link_local = candidate("fe80::1", Some([0xfe80, 0, 0, 0, 0, 0, 0, 1]), 64);
    let public = candidate("2001:db8::1", Some([0x2001, 0x0db8, 0, 0, 0, 0, 0, 1]), 64);
    let garbage = candidate("zz", None, 64);
    let ula = candidate("fd00::1", Some([0xfd00, 0, 0, 0, 0, 0, 0, 1]), 48);

    let found = ipv6_inventory(&vec![link_local.clone(), public.clone(), garbage.clone()], &vec![ula.clone()]);
    assert_eq!(found.len(), 1);
    assert_eq!(found[0].address, "2001:db8::1");
    assert!(found[0].is_global);

    let fallback = ipv6_inventory(&vec![link_local, garbage], &vec![ula, public]);
    assert_eq!(fallback.len(), 1);
    assert_eq!(fallback[0].prefix_length, 64);

    assert_eq!(prefix_entry("2001:db8::", 64), "2001:db8::/64");
}

#[test]
fn count_listening_ports_returns_non_negative() {
    // A /proc/net/tcp table: header, one listening socket (state 0A), one established.
    let table = "  sl  local_address rem_address   st tx_queue rx_queue tr tm->when retrnsmt   uid  timeout inode\n   0: 00000000:0016 00000000:0000 0A 00000000:00000000 00:00000000 00000000     0        0 1\n   1: 0100007F:1F90 0100007F:C350 01 00000000:00000000 00:00000000 00000000     0        0 2\n";
    let count = count_listening(table);
    assert!(count < 100_000);
    assert_eq!(count, 1);
    assert_eq!(count_listening(""), 0);
}
