use oretachi::hang_watch::{pong_report, PongReport};
use oretachi::hang_watch::{HeartbeatState, WatchdogReport, WatchdogState};
use oretachi::terminal::submit_body;

#[test]
fn submit_body_peels_exactly_one_trailing_cr() {
    assert_eq!(submit_body("abc"), "abc");
    assert_eq!(submit_body("abc\n"), "abc");
    assert_eq!(submit_body("abc\r"), "abc");
    assert_eq!(submit_body("abc\r\n"), "abc");
    assert_eq!(submit_body("a\nb"), "a\rb");
    assert_eq!(submit_body("a\r\nb\n"), "a\rb");
    assert_eq!(submit_body(""), "");
    assert_eq!(submit_body("\r"), "");
    assert_eq!(submit_body("\n"), "");
    assert_eq!(submit_body("\n\n"), "\r");
    assert_eq!(submit_body("a\n\n"), "a\r");
}

#[test]
fn heartbeat_logs_every_tick_then_at_milestones() {
    let mut h = HeartbeatState::new();
    assert_eq!(h.on_tick(30_000, 0), None);
    h.on_ping(30_000, true);
    assert_eq!(h.ping_pending_since, Some(30_000));
    // 30 s without a pong
    assert_eq!(h.on_tick(60_000, 0), Some(30));
    h.on_ping(60_000, true);
    assert_eq!(h.ping_pending_since, Some(30_000), "the first unanswered ping keeps its time");
    assert_eq!(h.on_tick(120_000, 0), Some(90));
    assert_eq!(h.on_tick(150_000, 0), None);
    assert_eq!(h.on_tick(210_000, 0), Some(180));
    assert_eq!(h.on_tick(240_000, 0), None);
    assert_eq!(h.on_tick(330_000, 0), Some(300));
    assert_eq!(h.on_tick(600_000, 0), None);
    // a fresh pong clears everything
    assert_eq!(h.on_tick(630_000, 629_000), None);
    assert_eq!(h.ping_pending_since, None);
    assert_eq!(h.unresponsive_logged_until_secs, 0);
}

#[test]
fn heartbeat_send_failure_clears_the_pending_ping() {
    let mut h = HeartbeatState::new();
    h.on_ping(1_000, true);
    h.on_ping(2_000, false);
    assert_eq!(h.ping_pending_since, None);
    assert_eq!(h.on_tick(40_000, 0), None);
}

#[test]
fn watchdog_reports_blocking_once_per_interval_and_recovery() {
    let mut w = WatchdogState::new();
    assert_eq!(w.on_probe(15_000, 15_001, 20_000), WatchdogReport::Healthy);
    // within the first interval after start a blocked probe is not logged yet
    let mut early = WatchdogState::new();
    assert_eq!(
        early.on_probe(15_000, 0, 20_000),
        WatchdogReport::Blocked { since: 15_000, first: true, log_secs: None }
    );
    assert_eq!(
        w.on_probe(100_000, 15_001, 105_000),
        WatchdogReport::Blocked { since: 100_000, first: true, log_secs: Some(5) }
    );
    assert_eq!(
        w.on_probe(120_000, 15_001, 125_000),
        WatchdogReport::Blocked { since: 100_000, first: false, log_secs: None }
    );
    assert_eq!(
        w.on_probe(160_000, 15_001, 165_000),
        WatchdogReport::Blocked { since: 100_000, first: false, log_secs: Some(65) }
    );
    assert_eq!(w.on_probe(180_000, 181_000, 185_000), WatchdogReport::Recovered { secs: 85 });
    assert_eq!(w.blocked_since, None);
    assert_eq!(w.last_blocked_log_ms, 0);
}

#[test]
fn pong_report_measures_round_trip_memory_and_blocking() {
    assert_eq!(
        pong_report(10_000, 4_000, Some(3 * 1024 * 1024 + 5), Some(5_000)),
        PongReport { rtt_ms: 6_000, mem_mb: 3, blocked_ms: 5_000, slow: true, blocked: true }
    );
    assert_eq!(
        pong_report(1_000, 2_000, None, None),
        PongReport { rtt_ms: 0, mem_mb: 0, blocked_ms: 0, slow: false, blocked: false }
    );
}
