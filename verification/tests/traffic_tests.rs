use iptools::traffic::{
    compute_rate, is_ignored_name, sat_sub_u64, step_snapshot, AdapterSample, TrafficModule,
    TrafficSnapshot,
};

fn sample(name: &str, rx: u64, tx: u64) -> AdapterSample {
    AdapterSample { name: name.to_string(), total_rx: rx, total_tx: tx }
}

#[test]
fn rate_is_bytes_per_second() {
    assert_eq!(compute_rate(0, 2048, 1000), 2048);
    assert_eq!(compute_rate(1000, 3000, 2000), 1000);
    assert_eq!(compute_rate(5, 5, 1000), 0);
}

#[test]
fn counter_reset_never_yields_a_negative_rate() {
    assert_eq!(compute_rate(1000, 800, 1000), 0);
    let mut snap = TrafficSnapshot {
        total_rx: 1000,
        total_tx: 1000,
        last_update_ms: 0,
        rx_speed: 77,
        tx_speed: 77,
    };
    step_snapshot(&mut snap, 800, 800, 1000, 100);
    assert_eq!(snap.rx_speed, 0);
    assert_eq!(snap.tx_speed, 0);
    assert_eq!(snap.total_rx, 800);
}

#[test]
fn sub_threshold_samples_keep_the_previous_rate() {
    let mut snap = TrafficSnapshot {
        total_rx: 1000,
        total_tx: 2000,
        last_update_ms: 5000,
        rx_speed: 123,
        tx_speed: 456,
    };
    step_snapshot(&mut snap, 9999, 9999, 5050, 100);
    assert_eq!(snap.rx_speed, 123);
    assert_eq!(snap.tx_speed, 456);
    assert_eq!(snap.total_rx, 1000);
    assert_eq!(snap.last_update_ms, 5000);
}

#[test]
fn saturating_subtraction_clamps_at_zero() {
    assert_eq!(sat_sub_u64(10, 3), 7);
    assert_eq!(sat_sub_u64(3, 10), 0);
}

#[test]
fn denylist_matches_case_insensitively() {
    assert!(is_ignored_name(&"Loopback Pseudo-Interface 1".to_string()));
    assert!(is_ignored_name(&"VMware Network Adapter VMnet8".to_string()));
    assert!(is_ignored_name(&"Npcap Loopback Adapter".to_string()));
    assert!(is_ignored_name(&"Microsoft Teredo Tunneling Adapter".to_string()));
    assert!(!is_ignored_name(&"eth0".to_string()));
    assert!(!is_ignored_name(&"Intel(R) Wi-Fi 6 AX201".to_string()));
}

#[test]
fn new_sampler_records_the_session_baseline() {
    let samples = vec![sample("eth0", 1000, 500), sample("wlan0", 40, 60)];
    let m = TrafficModule::new(&samples);
    assert_eq!(m.initial.len(), 2);
    assert_eq!(m.initial[0].name, "eth0");
    assert_eq!(m.initial[0].rx, 1000);
    assert_eq!(m.history.len(), 0);
    assert_eq!(m.display_items.len(), 0);
}

#[test]
fn first_sample_of_an_adapter_shows_rate_zero() {
    let samples = vec![sample("eth0", 1000, 500)];
    let mut m = TrafficModule::new(&samples);
    m.update(&samples, 1000, 100);
    assert_eq!(m.display_items.len(), 1);
    assert_eq!(m.display_items[0].rx_speed, 0);
    assert_eq!(m.display_items[0].session_rx, 0);
    assert_eq!(m.display_items[0].total_rx, 1000);
}

#[test]
fn later_samples_compute_rates_and_session_counters() {
    let start = vec![sample("eth0", 1000, 500)];
    let mut m = TrafficModule::new(&start);
    m.update(&start, 1000, 100);
    let grown = vec![sample("eth0", 3048, 1524)];
    m.update(&grown, 2000, 100);
    assert_eq!(m.display_items.len(), 1);
    assert_eq!(m.display_items[0].rx_speed, 2048);
    assert_eq!(m.display_items[0].tx_speed, 1024);
    assert_eq!(m.display_items[0].session_rx, 2048);
    assert_eq!(m.display_items[0].session_tx, 1024);
    assert_eq!(m.display_items[0].total_rx, 3048);
}

#[test]
fn denylisted_adapters_never_surface() {
    let samples = vec![
        sample("eth0", 10, 10),
        sample("Loopback Pseudo-Interface 1", 999, 999),
    ];
    let mut m = TrafficModule::new(&samples);
    m.update(&samples, 1000, 100);
    assert_eq!(m.display_items.len(), 1);
    assert_eq!(m.display_items[0].name, "eth0");
}

#[test]
fn rows_sort_by_descending_receive_rate() {
    let start = vec![
        sample("slow", 0, 0),
        sample("fast", 0, 0),
        sample("middle", 0, 0),
    ];
    let mut m = TrafficModule::new(&start);
    m.update(&start, 1000, 100);
    let grown = vec![
        sample("slow", 100, 0),
        sample("fast", 9000, 0),
        sample("middle", 4000, 0),
    ];
    m.update(&grown, 2000, 100);
    let names: Vec<&str> = m.display_items.iter().map(|i| i.name.as_str()).collect();
    assert_eq!(names, vec!["fast", "middle", "slow"]);
    assert_eq!(m.display_items[0].rx_speed, 9000);
}
