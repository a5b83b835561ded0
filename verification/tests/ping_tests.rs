use iptools::ping::{echo_event, PingEvent, PingLogEntry, PingTool};
use iptools::ring::Ring;

fn reply(seq: u64, latency: u64) -> PingEvent {
    PingEvent::Result { seq, latency, ttl: 64, size: 32 }
}

#[test]
fn fresh_session_is_stopped_and_zeroed() {
    let t = PingTool::new();
    assert!(!t.running);
    assert_eq!(t.stats.sent, 0);
    assert_eq!(t.stats.recv, 0);
    assert_eq!(t.stats.min_latency, None);
    let target: String = t.config.target.iter().collect();
    assert_eq!(target, "8.8.8.8");
    assert_eq!(t.config.interval_ms, 1000);
    assert_eq!(t.config.timeout_ms, 2000);
    assert_eq!(t.config.packet_size, 32);
}

#[test]
fn jitter_is_the_sum_of_successive_differences() {
    let mut t = PingTool::new();
    t.start();
    t.update(&vec![reply(0, 100), reply(1, 120), reply(2, 90)]);
    assert_eq!(t.stats.jitter_sum, 50);
    assert_eq!(t.stats.recv, 3);
    assert_eq!(t.jitter_avg(), 25);
}

#[test]
fn loss_is_the_unanswered_fraction() {
    let mut t = PingTool::new();
    t.start();
    let mut events = Vec::new();
    for seq in 0..7u64 {
        events.push(reply(seq, 10));
    }
    for seq in 7..10u64 {
        events.push(PingEvent::Timeout { seq });
    }
    t.update(&events);
    assert_eq!(t.stats.sent, 10);
    assert_eq!(t.stats.recv, 7);
    assert_eq!(t.loss_tenths(), 300);
    assert!((t.loss_tenths() as f64 / 10.0 - 30.0).abs() < 1e-9);
}

#[test]
fn history_ring_keeps_the_most_recent_hundred() {
    let mut t = PingTool::new();
    t.start();
    let mut events = Vec::new();
    for seq in 0..105u64 {
        events.push(reply(seq, seq + 1));
    }
    t.update(&events);
    let history = t.stats.history.items();
    assert_eq!(history.len(), 100);
    assert_eq!(history[0], 6);
    assert_eq!(history[99], 105);
}

#[test]
fn ring_drops_oldest_first() {
    let mut ring: Ring<u64> = Ring::new(100);
    for v in 1..=105u64 {
        ring.push(v);
    }
    assert_eq!(ring.len(), 100);
    assert_eq!(ring.items()[0], 6);
    assert_eq!(ring.items()[99], 105);
}

#[test]
fn reply_statistics_track_extremes_and_average() {
    let mut t = PingTool::new();
    t.start();
    t.update(&vec![reply(0, 30), reply(1, 10), reply(2, 20)]);
    assert_eq!(t.stats.min_latency, Some(10));
    assert_eq!(t.stats.max_latency, Some(30));
    assert_eq!(t.stats.last_latency, Some(20));
    assert_eq!(t.stats.total_latency, 60);
    assert_eq!(t.avg_latency(), 20);
    assert_eq!(t.stats.sent, 3);
}

#[test]
fn timeout_depresses_received_and_dips_history() {
    let mut t = PingTool::new();
    t.start();
    t.update(&vec![reply(0, 25), PingEvent::Timeout { seq: 1 }]);
    assert_eq!(t.stats.sent, 2);
    assert_eq!(t.stats.recv, 1);
    assert_eq!(t.stats.history.items().as_slice(), &[25, 0]);
    assert!(matches!(t.stats.logs.items()[1], PingLogEntry::Timeout { seq: 1 }));
}

#[test]
fn fatal_error_stops_the_session() {
    let mut t = PingTool::new();
    t.start();
    assert!(t.running);
    t.update(&vec![PingEvent::Error("Permission denied".to_string())]);
    assert!(!t.running);
    assert!(t.cancel);
    match &t.stats.logs.items()[0] {
        PingLogEntry::Failure(msg) => assert_eq!(msg, "Permission denied"),
        _ => panic!("expected a failure log entry"),
    }
}

#[test]
fn start_resets_statistics_and_is_idempotent_while_running() {
    let mut t = PingTool::new();
    assert!(t.start());
    t.update(&vec![reply(0, 42)]);
    assert!(!t.start());
    assert_eq!(t.stats.recv, 1);
    t.stop();
    assert!(!t.running);
    assert_eq!(t.stats.recv, 1);
    assert!(t.start());
    assert_eq!(t.stats.recv, 0);
    assert_eq!(t.stats.history.items().len(), 0);
}

#[test]
fn numeric_settings_clamp_to_their_ranges() {
    let mut t = PingTool::new();
    t.set_interval_ms(50);
    assert_eq!(t.config.interval_ms, 100);
    t.set_interval_ms(20000);
    assert_eq!(t.config.interval_ms, 10000);
    t.set_timeout_ms(0);
    assert_eq!(t.config.timeout_ms, 100);
    t.set_packet_size(70000);
    assert_eq!(t.config.packet_size, 65500);
    t.set_packet_size(0);
    assert_eq!(t.config.packet_size, 0);
}

#[test]
fn settings_are_frozen_while_running() {
    let mut t = PingTool::new();
    t.start();
    t.set_interval_ms(5000);
    assert_eq!(t.config.interval_ms, 1000);
    t.set_target("example.com".chars().collect());
    let target: String = t.config.target.iter().collect();
    assert_eq!(target, "8.8.8.8");
}

#[test]
fn numeric_adjustment_steps_and_clamps() {
    let mut t = PingTool::new();
    t.next_config();
    assert_eq!(t.config_selected, Some(1));
    t.adjust_numeric_config(true);
    assert_eq!(t.config.interval_ms, 1100);
    for _ in 0..20 {
        t.adjust_numeric_config(false);
    }
    assert_eq!(t.config.interval_ms, 100);
    t.next_config();
    t.next_config();
    assert_eq!(t.config_selected, Some(3));
    t.adjust_numeric_config(true);
    assert_eq!(t.config.packet_size, 40);
    for _ in 0..10 {
        t.adjust_numeric_config(false);
    }
    assert_eq!(t.config.packet_size, 0);
}

#[test]
fn config_cursor_wraps_over_four_rows() {
    let mut t = PingTool::new();
    assert_eq!(t.config_selected, Some(0));
    t.prev_config();
    assert_eq!(t.config_selected, Some(3));
    t.next_config();
    assert_eq!(t.config_selected, Some(0));
}

#[test]
fn target_text_edits_only_on_its_row_when_stopped() {
    let mut t = PingTool::new();
    t.set_target(Vec::new());
    t.edit_config_value('a');
    t.edit_config_value('.');
    t.edit_config_value('b');
    let target: String = t.config.target.iter().collect();
    assert_eq!(target, "a.b");
    t.backspace_target();
    let target: String = t.config.target.iter().collect();
    assert_eq!(target, "a.");
    t.next_config();
    t.edit_config_value('x');
    let target: String = t.config.target.iter().collect();
    assert_eq!(target, "a.");
}

#[test]
fn echo_outcomes_classify_into_events() {
    match echo_event(7, Some(33), 64, 32) {
        PingEvent::Result { seq, latency, ttl, size } => {
            assert_eq!((seq, latency, ttl, size), (7, 33, 64, 32));
        },
        _ => panic!("expected a reply event"),
    }
    match echo_event(8, None, 64, 32) {
        PingEvent::Timeout { seq } => assert_eq!(seq, 8),
        _ => panic!("expected a timeout event"),
    }
}
