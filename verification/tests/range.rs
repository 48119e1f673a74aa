use dbi_ftp::discovery::FTPDiscovery;

#[test]
fn range_counts_and_order() {
    let d = FTPDiscovery::new();
    let ips = d.generate_ip_range("192.168.1.10", "192.168.1.20");
    assert_eq!(ips.len(), 11);
    for (k, ip) in ips.iter().enumerate() {
        assert_eq!(ip, &format!("192.168.1.{}", 10 + k));
    }
}

#[test]
fn range_single_address() {
    let d = FTPDiscovery::new();
    let ips = d.generate_ip_range("10.0.0.5", "10.0.0.5");
    assert_eq!(ips, vec!["10.0.0.5".to_string()]);
}

#[test]
fn range_full_last_octet() {
    let d = FTPDiscovery::new();
    let ips = d.generate_ip_range("10.0.0.0", "10.0.0.255");
    assert_eq!(ips.len(), 256);
    assert_eq!(ips[0], "10.0.0.0");
    assert_eq!(ips[255], "10.0.0.255");
}

#[test]
fn range_malformed_start_is_empty() {
    let d = FTPDiscovery::new();
    assert!(d.generate_ip_range("192.168.1", "192.168.1.254").is_empty());
}

#[test]
fn range_malformed_end_is_empty() {
    let d = FTPDiscovery::new();
    assert!(d.generate_ip_range("192.168.1.1", "not an ip").is_empty());
}

#[test]
fn range_five_octets_is_empty() {
    let d = FTPDiscovery::new();
    assert!(d.generate_ip_range("1.2.3.4.5", "1.2.3.4").is_empty());
}

#[test]
fn range_octet_out_of_bounds_is_empty() {
    let d = FTPDiscovery::new();
    assert!(d.generate_ip_range("300.0.0.1", "300.0.0.2").is_empty());
}

#[test]
fn range_descending_is_empty() {
    let d = FTPDiscovery::new();
    assert!(d.generate_ip_range("10.0.0.9", "10.0.0.3").is_empty());
}

#[test]
fn range_uses_start_prefix_and_canonical_digits() {
    let d = FTPDiscovery::new();
    let ips = d.generate_ip_range("010.0.0.01", "99.99.99.3");
    assert_eq!(ips, vec![
        "10.0.0.1".to_string(),
        "10.0.0.2".to_string(),
        "10.0.0.3".to_string(),
    ]);
}

#[test]
fn base_ip_takes_first_three_parts() {
    let d = FTPDiscovery::new();
    assert_eq!(d.get_base_ip("192.168.7.55"), "192.168.7");
    assert_eq!(d.get_base_ip("a.b.c.d"), "a.b.c");
    assert_eq!(d.get_base_ip("1.2.3"), "1.2.3");
}

#[test]
fn base_ip_falls_back_on_short_input() {
    let d = FTPDiscovery::new();
    assert_eq!(d.get_base_ip("localhost"), "192.168.1");
    assert_eq!(d.get_base_ip("1.2"), "192.168.1");
}

#[test]
fn scan_reports_reachable_host() {
    let d = FTPDiscovery::new();
    let hit = d.scan("192.168.1.9", true);
    assert_eq!(hit.unwrap().ip_address, "192.168.1.9");
    assert!(d.scan("192.168.1.9", false).is_none());
}

#[test]
fn scan_plan_covers_the_slash24() {
    let d = FTPDiscovery::new();
    let plan = d.scan_plan(&Some("192.168.1.42".to_string()));
    assert_eq!(plan.len(), 254);
    assert_eq!(plan[0], "192.168.1.1");
    assert_eq!(plan[253], "192.168.1.254");
}

#[test]
fn scan_plan_without_local_ip_is_empty() {
    let d = FTPDiscovery::new();
    assert!(d.scan_plan(&None).is_empty());
}

#[test]
fn scan_range_keeps_only_positive_probes() {
    let d = FTPDiscovery::new();
    let mut mask = vec![false; 11];
    mask[2] = true;
    mask[10] = true;
    let found = d.scan_range("10.0.0.0", "10.0.0.10", &mask);
    let ips: Vec<String> = found.services.iter().map(|s| s.ip_address.clone()).collect();
    assert_eq!(ips, vec!["10.0.0.2".to_string(), "10.0.0.10".to_string()]);
}

#[test]
fn scan_all_without_local_ip_finds_nothing() {
    let d = FTPDiscovery::new();
    let found = d.scan_all(&None, &Vec::new());
    assert!(found.services.is_empty());
}

#[test]
fn scan_all_filters_the_plan() {
    let d = FTPDiscovery::new();
    let local = Some("10.1.2.77".to_string());
    let mut mask = vec![false; 254];
    mask[0] = true;
    mask[41] = true;
    let found = d.scan_all(&local, &mask);
    let ips: Vec<String> = found.services.iter().map(|s| s.ip_address.clone()).collect();
    assert_eq!(ips, vec!["10.1.2.1".to_string(), "10.1.2.42".to_string()]);
}

#[test]
fn chunks_are_pool_sized() {
    let d = FTPDiscovery::new();
    let ips: Vec<String> = (0..250).map(|i| format!("10.0.{}.{}", i / 256, i % 256)).collect();
    let chunks = d.chunk_hosts(&ips);
    assert_eq!(chunks.len(), 3);
    assert_eq!(chunks[0].len(), 100);
    assert_eq!(chunks[1].len(), 100);
    assert_eq!(chunks[2].len(), 50);
    let flat: Vec<String> = chunks.concat();
    assert_eq!(flat, ips);
}

#[test]
fn chunks_of_nothing_are_nothing() {
    let d = FTPDiscovery::new();
    assert!(d.chunk_hosts(&Vec::new()).is_empty());
}
