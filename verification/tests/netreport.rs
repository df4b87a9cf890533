use netreport::{
    build_records, discover_interfaces, filter_non_loopback, get_mac_address, greet, make_record,
    parse_getmac_csv, parse_ifconfig_mac, parse_sysfs_mac, NetworkInterface, Platform,
    RawInterface,
};

fn raw(name: &str, ip: &str, loopback: bool) -> RawInterface {
    RawInterface {
        name: name.to_string(),
        ip: ip.to_string(),
        loopback,
    }
}

#[test]
fn greet_exact_format() {
    assert_eq!(greet("Ada"), "Hello, Ada! You've been greeted from Rust!");
}

#[test]
fn greet_contains_name_verbatim() {
    let r = greet("world-42");
    assert!(r.contains("world-42"));
    assert!(!r.is_empty());
}

#[test]
fn greet_empty_name_is_nonempty() {
    let r = greet("");
    assert_eq!(r, "Hello, ! You've been greeted from Rust!");
    assert!(!r.is_empty());
}

#[test]
fn ifconfig_typical_output() {
    let out = "en0: flags=8863<UP,BROADCAST,SMART,RUNNING,SIMPLEX,MULTICAST> mtu 1500\n\
               \toptions=6463<RXCSUM,TXCSUM>\n\
               \tether aa:bb:cc:dd:ee:ff \n\
               \tinet6 fe80::1 prefixlen 64\n";
    assert_eq!(parse_ifconfig_mac(out), Some("aa:bb:cc:dd:ee:ff".to_string()));
}

#[test]
fn ifconfig_first_wellformed_wins() {
    let out = "ether zz:zz\nether 00:11:22:33:44:55\nether 66:77:88:99:aa:bb\n";
    assert_eq!(parse_ifconfig_mac(out), Some("00:11:22:33:44:55".to_string()));
}

#[test]
fn ifconfig_malformed_token_rejected() {
    // 16 characters / wrong grouping: not the xx:xx:xx:xx:xx:xx shape
    assert_eq!(parse_ifconfig_mac("ether 0:11:22:33:44:55\n"), None);
    // 5 colons but 18 characters
    assert_eq!(parse_ifconfig_mac("ether a0:11:22:33:44:556\n"), None);
    // 17 characters but 4 colons
    assert_eq!(parse_ifconfig_mac("ether aa+bb:cc:dd:ee:ff\n"), None);
}

#[test]
fn ifconfig_keyword_must_be_own_token() {
    // "ethernet" contains the keyword as a substring but is not the token
    assert_eq!(parse_ifconfig_mac("ethernet aa:bb:cc:dd:ee:ff\n"), None);
}

#[test]
fn ifconfig_keyword_at_end_of_line() {
    // the candidate token must follow on the same line
    assert_eq!(parse_ifconfig_mac("foo ether\naa:bb:cc:dd:ee:ff\n"), None);
}

#[test]
fn ifconfig_empty_output() {
    assert_eq!(parse_ifconfig_mac(""), None);
}

#[test]
fn sysfs_trims_whitespace() {
    assert_eq!(
        parse_sysfs_mac("aa:bb:cc:dd:ee:ff\n"),
        Some("aa:bb:cc:dd:ee:ff".to_string())
    );
    assert_eq!(parse_sysfs_mac("  x  "), Some("x".to_string()));
}

#[test]
fn sysfs_empty_content_unresolved() {
    assert_eq!(parse_sysfs_mac(""), None);
    assert_eq!(parse_sysfs_mac("   \n\t"), None);
}

#[test]
fn getmac_typical_output() {
    let out = "\"Ethernet\",\"AA-BB-CC-DD-EE-FF\",\"\\Device\\Tcpip_{guid}\"\r\n";
    assert_eq!(
        parse_getmac_csv(out, "Ethernet"),
        Some("AA-BB-CC-DD-EE-FF".to_string())
    );
}

#[test]
fn getmac_name_absent() {
    let out = "\"Ethernet\",\"AA-BB-CC-DD-EE-FF\"\n";
    assert_eq!(parse_getmac_csv(out, "Wi-Fi"), None);
}

#[test]
fn getmac_needs_second_field() {
    assert_eq!(parse_getmac_csv("Ethernet without commas\n", "Ethernet"), None);
}

#[test]
fn getmac_empty_second_field_skipped() {
    let out = "\"Wi-Fi\",\"\"\n\"Wi-Fi\",\"AA-BB-CC-DD-EE-FF\"\n";
    assert_eq!(
        parse_getmac_csv(out, "Wi-Fi"),
        Some("AA-BB-CC-DD-EE-FF".to_string())
    );
}

#[test]
fn get_mac_address_dispatches() {
    let bsd = "lo0: flags\nen1: ether 12:34:56:78:9a:bc\n";
    assert_eq!(
        get_mac_address(Platform::MacOs, "en1", Some(bsd)),
        Some("12:34:56:78:9a:bc".to_string())
    );
    assert_eq!(
        get_mac_address(Platform::Linux, "eth0", Some("12:34:56:78:9a:bc\n")),
        Some("12:34:56:78:9a:bc".to_string())
    );
    assert_eq!(
        get_mac_address(Platform::Windows, "Ethernet", Some("\"Ethernet\",\"12-34-56\"\n")),
        Some("12-34-56".to_string())
    );
}

#[test]
fn get_mac_address_unsupported_platform() {
    assert_eq!(
        get_mac_address(Platform::Other, "eth0", Some("12:34:56:78:9a:bc")),
        None
    );
}

#[test]
fn get_mac_address_missing_source() {
    assert_eq!(get_mac_address(Platform::MacOs, "en0", None), None);
    assert_eq!(get_mac_address(Platform::Linux, "eth0", None), None);
    assert_eq!(get_mac_address(Platform::Windows, "Ethernet", None), None);
}

#[test]
fn loopback_filtered_out() {
    let v = vec![
        raw("lo", "127.0.0.1", true),
        raw("eth0", "192.168.1.10", false),
        raw("lo", "::1", true),
    ];
    let kept = filter_non_loopback(v);
    assert_eq!(kept.len(), 1);
    assert_eq!(kept[0].name, "eth0");
    assert_eq!(kept[0].ip, "192.168.1.10");
}

#[test]
fn filter_keeps_enumeration_order() {
    let v = vec![
        raw("eth0", "10.0.0.1", false),
        raw("lo", "127.0.0.1", true),
        raw("eth0", "fe80::2", false),
        raw("wlan0", "10.0.0.2", false),
    ];
    let kept = filter_non_loopback(v);
    let names: Vec<&str> = kept.iter().map(|i| i.name.as_str()).collect();
    assert_eq!(names, vec!["eth0", "eth0", "wlan0"]);
}

#[test]
fn empty_enumeration_yields_empty_report() {
    let kept = filter_non_loopback(Vec::new());
    assert_eq!(kept.len(), 0);
    let records = build_records(kept, Vec::new());
    assert_eq!(records.len(), 0);
}

#[test]
fn unresolved_mac_becomes_sentinel() {
    // an unsupported platform never resolves a hardware address
    let mac = get_mac_address(Platform::Other, "eth0", None);
    assert_eq!(mac, None);
    let record = make_record(raw("eth0", "192.168.1.10", false), mac);
    assert_eq!(record.name, "eth0");
    assert_eq!(record.ip, "192.168.1.10");
    assert_eq!(record.mac, "N/A");
}

#[test]
fn resolved_mac_kept_verbatim() {
    let record = make_record(
        raw("en0", "10.1.2.3", false),
        Some("aa:bb:cc:dd:ee:ff".to_string()),
    );
    assert_eq!(record.mac, "aa:bb:cc:dd:ee:ff");
}

#[test]
fn build_records_pairs_in_order() {
    let ifaces = vec![raw("eth0", "192.168.1.10", false), raw("eth1", "10.0.0.5", false)];
    let macs = vec![None, Some("aa:bb:cc:dd:ee:ff".to_string())];
    let records: Vec<NetworkInterface> = build_records(ifaces, macs);
    assert_eq!(records.len(), 2);
    assert_eq!(records[0].name, "eth0");
    assert_eq!(records[0].ip, "192.168.1.10");
    assert_eq!(records[0].mac, "N/A");
    assert_eq!(records[1].name, "eth1");
    assert_eq!(records[1].mac, "aa:bb:cc:dd:ee:ff");
}

#[test]
fn discovery_reports_no_loopback() {
    // exercises the real OS enumeration; content is host-dependent,
    // but loopback pairs are never reported
    for iface in discover_interfaces() {
        assert!(!iface.loopback);
        assert_ne!(iface.ip, "127.0.0.1");
        assert_ne!(iface.ip, "::1");
    }
}
