use std::sync::atomic::Ordering;

use fish_bot::telemetry::{Telemetry, TelemetrySnapshot};

#[test]
fn t5_1_new_all_zero() {
    let t = Telemetry::new();
    let s = t.snapshot();
    assert_eq!(s.messages_received, 0);
    assert_eq!(s.exact_route_hits, 0);
    assert_eq!(s.handler_started, 0);
    assert_eq!(s.drop_newest_drops, 0);
}

#[test]
fn t5_2_increment_and_snapshot() {
    let t = Telemetry::new();
    t.messages_received.fetch_add(1, Ordering::Relaxed);
    t.exact_route_hits.fetch_add(3, Ordering::Relaxed);
    t.handler_succeeded.fetch_add(5, Ordering::Relaxed);
    let s = t.snapshot();
    assert_eq!(s.messages_received, 1);
    assert_eq!(s.exact_route_hits, 3);
    assert_eq!(s.handler_succeeded, 5);
}

#[test]
fn t5_3_default() {
    let t = Telemetry::default();
    let s = t.snapshot();
    assert_eq!(s.messages_received, 0);
}

#[test]
fn t5_5_log_summary_does_not_panic() {
    let t = Telemetry::new();
    t.messages_received.fetch_add(42, Ordering::Relaxed);
    t.log_summary();
}

#[test]
fn t5_6_snapshot_default() {
    let s = TelemetrySnapshot::default();
    assert_eq!(s.messages_received, 0);
    assert_eq!(s.handler_dispatches, 0);
}

#[test]
fn summary_line_lists_every_counter() {
    let t = Telemetry::new();
    t.messages_received.fetch_add(42, Ordering::Relaxed);
    t.unmatched_messages.fetch_add(2, Ordering::Relaxed);
    t.reply_failures.fetch_add(1, Ordering::Relaxed);
    let line = t.log_summary();
    assert_eq!(
        line,
        "Telemetry: msg_rcv=42 exact=0 prefix=0 keyword=0 fallback=0 dispatch=0 unmatched=2 reply_err=1 started=0 ok=0 err=0 timeout=0 drop_newest=0 enqueue=0 drop_oldest=0 q_ok=0 q_err=0 q_timeout=0"
    );
}
