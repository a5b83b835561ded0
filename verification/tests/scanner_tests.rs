use iptools::scanner::{ScanResult, ScanStatus, ScannerModule};

fn chars(s: &str) -> Vec<char> {
    s.chars().collect()
}

fn result(ip: u32, mac: &str, hostname: &str) -> ScanResult {
    ScanResult { ip, mac: mac.to_string(), hostname: hostname.to_string() }
}

#[test]
fn fresh_scanner_is_idle() {
    let s = ScannerModule::new(chars("192.168.1.0/24"));
    assert_eq!(s.status(), ScanStatus::Idle);
    assert_eq!(s.results().len(), 0);
    assert_eq!(s.completed(), 0);
    assert_eq!(s.total_hosts(), 0);
    assert!(!s.is_cancelled());
}

#[test]
fn start_scan_fixes_total_from_target() {
    let mut s = ScannerModule::new(chars("10.0.0.0/30"));
    s.start_scan();
    assert_eq!(s.status(), ScanStatus::Scanning);
    assert_eq!(s.total_hosts(), 2);
    assert_eq!(s.completed(), 0);
}

#[test]
fn malformed_target_scans_zero_hosts() {
    let mut s = ScannerModule::new(chars("not a cidr"));
    s.start_scan();
    assert_eq!(s.status(), ScanStatus::Scanning);
    assert_eq!(s.total_hosts(), 0);
    assert_eq!(s.scan_targets().len(), 0);
    s.update(Vec::new(), 0);
    assert_eq!(s.status(), ScanStatus::Done);
    assert_eq!(s.results().len(), 0);
}

#[test]
fn scan_targets_enumerate_usable_hosts() {
    let mut s = ScannerModule::new(chars("10.0.0.0/30"));
    s.start_scan();
    assert_eq!(s.scan_targets(), vec![0x0A000001, 0x0A000002]);
}

#[test]
fn completed_count_reaching_total_marks_done() {
    let mut s = ScannerModule::new(chars("10.0.0.0/30"));
    s.start_scan();
    s.update(Vec::new(), 1);
    assert_eq!(s.status(), ScanStatus::Scanning);
    s.update(Vec::new(), 2);
    assert_eq!(s.status(), ScanStatus::Done);
    assert_eq!(s.completed(), 2);
}

#[test]
fn completed_count_never_exceeds_total() {
    let mut s = ScannerModule::new(chars("10.0.0.0/30"));
    s.start_scan();
    s.update(Vec::new(), 99);
    assert_eq!(s.completed(), 2);
    assert_eq!(s.status(), ScanStatus::Done);
}

#[test]
fn unreachable_subnet_ends_done_and_empty() {
    let mut s = ScannerModule::new(chars("10.0.0.0/30"));
    s.start_scan();
    assert_eq!(s.total_hosts(), 2);
    s.update(Vec::new(), 2);
    assert_eq!(s.status(), ScanStatus::Done);
    assert_eq!(s.results().len(), 0);
    assert_eq!(s.completed(), 2);
}

#[test]
fn drained_results_stay_sorted_and_unique() {
    let mut s = ScannerModule::new(chars("192.168.1.0/24"));
    s.start_scan();
    s.update(
        vec![
            result(0xC0A80105, "aa:aa", "five"),
            result(0xC0A80101, "bb:bb", "one"),
        ],
        2,
    );
    s.update(
        vec![
            result(0xC0A80103, "cc:cc", "three"),
            result(0xC0A80101, "dd:dd", "one again"),
            result(0xC0A80102, "ee:ee", "two"),
        ],
        5,
    );
    let ips: Vec<u32> = s.results().iter().map(|r| r.ip).collect();
    assert_eq!(ips, vec![0xC0A80101, 0xC0A80102, 0xC0A80103, 0xC0A80105]);
    assert_eq!(s.results()[0].mac, "bb:bb");
}

#[test]
fn stop_on_running_scan_marks_done() {
    let mut s = ScannerModule::new(chars("192.168.1.0/24"));
    s.start_scan();
    s.stop_scan();
    assert_eq!(s.status(), ScanStatus::Done);
    assert!(s.is_cancelled());
}

#[test]
fn stop_on_done_run_keeps_results() {
    let mut s = ScannerModule::new(chars("192.168.1.0/24"));
    s.start_scan();
    s.update(vec![result(0xC0A80101, "aa:aa", "one")], 254);
    assert_eq!(s.status(), ScanStatus::Done);
    s.stop_scan();
    assert_eq!(s.status(), ScanStatus::Done);
    assert_eq!(s.results().len(), 1);
    assert_eq!(s.results()[0].ip, 0xC0A80101);
    assert_eq!(s.results()[0].mac, "aa:aa");
}

#[test]
fn restart_clears_previous_run() {
    let mut s = ScannerModule::new(chars("192.168.1.0/24"));
    s.start_scan();
    s.update(vec![result(0xC0A80101, "aa:aa", "one")], 254);
    s.start_scan();
    assert_eq!(s.results().len(), 0);
    assert_eq!(s.completed(), 0);
    assert_eq!(s.status(), ScanStatus::Scanning);
    assert!(!s.is_cancelled());
}

#[test]
fn edit_input_takes_only_target_characters() {
    let mut s = ScannerModule::new(Vec::new());
    for c in "10.x0q./3 0!".chars() {
        s.edit_input(c);
    }
    let text: String = s.cidr_input().iter().collect();
    assert_eq!(text, "10.0./30");
    s.pop_input();
    let text: String = s.cidr_input().iter().collect();
    assert_eq!(text, "10.0./3");
}

#[test]
fn calculate_ip_count_follows_target() {
    let s = ScannerModule::new(chars("192.168.1.0/24"));
    assert_eq!(s.calculate_ip_count(), Some(254));
    let bad = ScannerModule::new(chars("garbage"));
    assert_eq!(bad.calculate_ip_count(), None);
}

#[test]
fn result_cursor_wraps() {
    let mut s = ScannerModule::new(chars("192.168.1.0/24"));
    s.start_scan();
    s.update(
        vec![result(0xC0A80101, "a", ""), result(0xC0A80102, "b", "")],
        2,
    );
    assert_eq!(s.selected(), Some(0));
    s.next();
    assert_eq!(s.selected(), Some(1));
    s.next();
    assert_eq!(s.selected(), Some(0));
    s.previous();
    assert_eq!(s.selected(), Some(1));
}
