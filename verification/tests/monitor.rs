use dbi_ftp::discovery::diff_hosts;
use dbi_ftp::discovery::FTPMonitor;

fn hosts(v: &[&str]) -> Vec<String> {
    v.iter().map(|s| s.to_string()).collect()
}

#[test]
fn diffing_is_set_difference() {
    let previous = hosts(&["192.168.1.2", "192.168.1.3"]);
    let current = hosts(&["192.168.1.3", "192.168.1.4"]);
    let added = diff_hosts(&current, &previous);
    let removed = diff_hosts(&previous, &current);
    assert_eq!(added, hosts(&["192.168.1.4"]));
    assert_eq!(removed, hosts(&["192.168.1.2"]));
}

#[test]
fn diffing_equal_sets_reports_no_change() {
    let previous = hosts(&["10.0.0.1", "10.0.0.2"]);
    let current = hosts(&["10.0.0.1", "10.0.0.2"]);
    assert!(diff_hosts(&current, &previous).is_empty());
    assert!(diff_hosts(&previous, &current).is_empty());
}

#[test]
fn monitor_start_is_idempotent() {
    let mut monitor = FTPMonitor::new();
    assert!(!monitor.is_running());
    assert!(monitor.start());
    assert!(monitor.is_running());
    // A second start while running is a no-op: no second loop is spawned.
    assert!(!monitor.start());
    assert!(monitor.is_running());
    monitor.stop();
    assert!(!monitor.is_running());
}

#[test]
fn tick_reports_changes_and_status() {
    let mut monitor = FTPMonitor::new();
    monitor.start();
    let first = monitor.tick(hosts(&["192.168.1.2", "192.168.1.3"]));
    assert_eq!(first.added, hosts(&["192.168.1.2", "192.168.1.3"]));
    assert!(first.removed.is_empty());
    assert!(first.payload.is_active);
    assert_eq!(first.payload.active_count, 2);
    assert_eq!(first.payload.active_ips, hosts(&["192.168.1.2", "192.168.1.3"]));

    let second = monitor.tick(hosts(&["192.168.1.3", "192.168.1.4"]));
    assert_eq!(second.added, hosts(&["192.168.1.4"]));
    assert_eq!(second.removed, hosts(&["192.168.1.2"]));
    assert!(second.payload.is_active);
    assert_eq!(second.payload.active_count, 2);
}

#[test]
fn tick_with_no_services_is_published_inactive() {
    let mut monitor = FTPMonitor::new();
    monitor.start();
    monitor.tick(hosts(&["10.0.0.1"]));
    let tick = monitor.tick(Vec::new());
    assert!(!tick.payload.is_active);
    assert_eq!(tick.payload.active_count, 0);
    assert!(tick.payload.active_ips.is_empty());
    assert_eq!(tick.removed, hosts(&["10.0.0.1"]));
    assert!(tick.added.is_empty());
}
