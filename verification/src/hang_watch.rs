//! Hang diagnostics: the webview heartbeat and the main-thread watchdog, as state machines
//! that the application's timers drive.

use vstd::prelude::*;

verus! {

/// A pong this recent (ms) shows the webview is answering.
pub const PONG_FRESH_MS: u64 = 35_000;

/// Whether an unresponsive period of `secs` seconds is logged, given the milestone already
/// logged (`logged_until`, 0, 180 or 300): every time up to 90 s, then once past 180 s and
/// once past 300 s.
pub open spec fn should_log_unresponsive(secs: u64, logged_until: u64) -> bool {
    if secs <= 90 {
        true
    } else if secs >= 180 && logged_until < 180 {
        true
    } else {
        secs >= 300 && logged_until < 300
    }
}

/// The heartbeat's state: since when a ping has gone unanswered, and the last milestone of
/// unresponsiveness logged.
#[derive(Debug)]
pub struct HeartbeatState {
    pub ping_pending_since: Option<u64>,
    pub unresponsive_logged_until_secs: u64,
}

/// The heartbeat after a tick at `now` with the last pong at `last_pong` (0 for none), and the
/// unresponsive seconds to log, if any.
pub open spec fn heartbeat_tick(s: HeartbeatState, now: u64, last_pong: u64) -> (HeartbeatState, Option<u64>) {
    let fresh = last_pong > 0 && (if now >= last_pong { now - last_pong } else { 0 }) < PONG_FRESH_MS;
    let pending = if fresh { None } else { s.ping_pending_since };
    let until = if fresh { 0 } else { s.unresponsive_logged_until_secs };
    match pending {
        None => (HeartbeatState { ping_pending_since: None, unresponsive_logged_until_secs: until }, None),
        Some(since) => {
            let secs = ((if now >= since { now - since } else { 0 }) / 1000) as u64;
            if should_log_unresponsive(secs, until) {
                let until2: u64 = if secs >= 300 { 300 } else if secs >= 180 { 180 } else { until };
                (HeartbeatState { ping_pending_since: pending, unresponsive_logged_until_secs: until2 }, Some(secs))
            } else {
                (HeartbeatState { ping_pending_since: pending, unresponsive_logged_until_secs: until }, None)
            }
        },
    }
}

impl HeartbeatState {
    /// No ping outstanding.
    pub fn new() -> (r: Self)
        ensures
            r.ping_pending_since is None,
            r.unresponsive_logged_until_secs == 0,
    {
        HeartbeatState { ping_pending_since: None, unresponsive_logged_until_secs: 0 }
    }

    /// A tick of the heartbeat loop, before the next ping: a fresh pong clears the pending
    /// ping; a ping still pending yields the unresponsive seconds when they are to be logged.
    pub fn on_tick(&mut self, now_ms: u64, last_pong_ms: u64) -> (log_secs: Option<u64>)
        ensures
            (*final(self), log_secs) == heartbeat_tick(*old(self), now_ms, last_pong_ms),
    {
        let age = now_ms.saturating_sub(last_pong_ms);
        if last_pong_ms > 0 && age < PONG_FRESH_MS {
            self.ping_pending_since = None;
            self.unresponsive_logged_until_secs = 0;
        }
        match self.ping_pending_since {
            None => None,
            Some(since) => {
                let secs = now_ms.saturating_sub(since) / 1000;
                let until = self.unresponsive_logged_until_secs;
                let log = if secs <= 90 {
                    true
                } else if secs >= 180 && until < 180 {
                    true
                } else {
                    secs >= 300 && until < 300
                };
                if log {
                    if secs >= 300 {
                        self.unresponsive_logged_until_secs = 300;
                    } else if secs >= 180 {
                        self.unresponsive_logged_until_secs = 180;
                    }
                    Some(secs)
                } else {
                    None
                }
            },
        }
    }

    /// The ping of this tick went out (`sent`) or failed: a sent ping starts the pending time
    /// unless one is already pending; a failed one clears the state.
    pub fn on_ping(&mut self, now_ms: u64, sent: bool)
        ensures
            sent ==> final(self).ping_pending_since == (match old(self).ping_pending_since {
                Some(p) => Some(p),
                None => Some(now_ms),
            }) && final(self).unresponsive_logged_until_secs == old(self).unresponsive_logged_until_secs,
            !sent ==> final(self).ping_pending_since is None && final(self).unresponsive_logged_until_secs == 0,
    {
        if sent {
            if self.ping_pending_since.is_none() {
                self.ping_pending_since = Some(now_ms);
            }
        } else {
            self.ping_pending_since = None;
            self.unresponsive_logged_until_secs = 0;
        }
    }
}

/// Past the first 90 seconds, an unanswered ping is logged at most twice more (once past
/// 180 s, once past 300 s) until a pong arrives: the milestone never goes back while the ping
/// stays pending, and once it is 300 nothing more is logged.
pub proof fn lemma_unresponsive_logging_is_bounded(s: HeartbeatState, now: u64, last_pong: u64)
    requires
        s.ping_pending_since is Some,
        s.unresponsive_logged_until_secs == 0 || s.unresponsive_logged_until_secs == 180
            || s.unresponsive_logged_until_secs == 300,
    ensures
        ({
            let (t, log) = heartbeat_tick(s, now, last_pong);
            let fresh = last_pong > 0 && (if now >= last_pong { now - last_pong } else { 0 }) < PONG_FRESH_MS;
            &&& (t.unresponsive_logged_until_secs == 0 || t.unresponsive_logged_until_secs == 180
                || t.unresponsive_logged_until_secs == 300)
            &&& !fresh ==> t.unresponsive_logged_until_secs >= s.unresponsive_logged_until_secs
            &&& !fresh && s.unresponsive_logged_until_secs == 300 ==> (log matches Some(secs) ==> secs <= 90)
            &&& fresh ==> t.ping_pending_since is None && log is None
        }),
{
}

/// The watchdog's state: since when (elapsed ms) the main thread has been blocked, and when
/// a blocked report was last logged.
#[derive(Debug)]
pub struct WatchdogState {
    pub blocked_since: Option<u64>,
    pub last_blocked_log_ms: u64,
}

/// What a watchdog probe found.
#[derive(Debug, PartialEq, Eq)]
pub enum WatchdogReport {
    /// The main thread answered and was not blocked before.
    Healthy,
    /// The main thread answered after being blocked this many seconds.
    Recovered { secs: u64 },
    /// The main thread did not answer: blocked since `since`; `first` on the first probe of a
    /// blocked period (the moment to take a dump); `log_secs` when a report is due.
    Blocked { since: u64, first: bool, log_secs: Option<u64> },
}

/// A blocked report is logged at most once per this many milliseconds.
pub const BLOCKED_LOG_INTERVAL_MS: u64 = 55_000;

/// The watchdog after a probe sent at `sent` and acknowledged at `acked` (both elapsed ms),
/// looked at `now`, with what it reports.
pub open spec fn watchdog_probe(s: WatchdogState, sent: u64, acked: u64, now: u64) -> (WatchdogState, WatchdogReport) {
    if acked >= sent {
        (WatchdogState { blocked_since: None, last_blocked_log_ms: 0 }, match s.blocked_since {
            Some(since) => WatchdogReport::Recovered { secs: ((if now >= since { now - since } else { 0 }) / 1000) as u64 },
            None => WatchdogReport::Healthy,
        })
    } else {
        let since = match s.blocked_since { Some(b) => b, None => sent };
        let secs = ((if now >= since { now - since } else { 0 }) / 1000) as u64;
        let due = (if now >= s.last_blocked_log_ms { now - s.last_blocked_log_ms } else { 0 }) >= BLOCKED_LOG_INTERVAL_MS;
        (WatchdogState { blocked_since: Some(since), last_blocked_log_ms: if due { now } else { s.last_blocked_log_ms } },
         WatchdogReport::Blocked { since, first: s.blocked_since is None, log_secs: if due { Some(secs) } else { None } })
    }
}

impl WatchdogState {
    /// Not blocked.
    pub fn new() -> (r: Self)
        ensures
            r.blocked_since is None,
            r.last_blocked_log_ms == 0,
    {
        WatchdogState { blocked_since: None, last_blocked_log_ms: 0 }
    }

    /// Takes in a probe of the main thread sent at `sent_ms`, acknowledged at `acked_ms`, and
    /// looked at `now_ms` (elapsed ms on a monotonic clock).
    pub fn on_probe(&mut self, sent_ms: u64, acked_ms: u64, now_ms: u64) -> (r: WatchdogReport)
        ensures
            (*final(self), r) == watchdog_probe(*old(self), sent_ms, acked_ms, now_ms),
    {
        if acked_ms >= sent_ms {
            let report = match self.blocked_since {
                Some(since) => WatchdogReport::Recovered { secs: now_ms.saturating_sub(since) / 1000 },
                None => WatchdogReport::Healthy,
            };
            self.blocked_since = None;
            self.last_blocked_log_ms = 0;
            report
        } else {
            let first = self.blocked_since.is_none();
            let since = match self.blocked_since {
                Some(b) => b,
                None => sent_ms,
            };
            self.blocked_since = Some(since);
            let secs = now_ms.saturating_sub(since) / 1000;
            let due = now_ms.saturating_sub(self.last_blocked_log_ms) >= BLOCKED_LOG_INTERVAL_MS;
            let log_secs = if due {
                self.last_blocked_log_ms = now_ms;
                Some(secs)
            } else {
                None
            };
            WatchdogReport::Blocked { since, first, log_secs }
        }
    }
}

/// While the main thread stays blocked, the start of the blocked period stays where it was
/// and only its first probe is marked first; an answer ends the period.
pub proof fn lemma_blocked_period_is_stable(s: WatchdogState, sent: u64, acked: u64, now: u64)
    ensures
        acked < sent ==> ({
            let (t, r) = watchdog_probe(s, sent, acked, now);
            &&& t.blocked_since == Some(match s.blocked_since { Some(b) => b, None => sent })
            &&& (r matches WatchdogReport::Blocked { first, .. } && first == (s.blocked_since is None))
        }),
        acked >= sent ==> watchdog_probe(s, sent, acked, now).0.blocked_since is None,
{
}


/// What a pong says: its round trip, the webview's memory in MiB, and the main thread's
/// blocked time, with whether each deserves a warning.
#[derive(Debug, PartialEq, Eq)]
pub struct PongReport {
    pub rtt_ms: u64,
    pub mem_mb: u64,
    pub blocked_ms: u64,
    pub slow: bool,
    pub blocked: bool,
}

/// A round trip above this (ms) is slow.
pub const SLOW_RTT_MS: u64 = 5000;

/// A blocked time of at least this (ms) is worth a warning.
pub const BLOCKED_WARN_MS: u64 = 5000;

/// Reads a pong that arrived at `now_ms` for the ping sent at `ts`, with the memory (bytes)
/// and blocked time (ms) the webview reports (missing values count as 0).
pub fn pong_report(now_ms: u64, ts: u64, mem: Option<u64>, blocked_ms: Option<u64>) -> (r: PongReport)
    ensures
        r.rtt_ms == (if now_ms >= ts { now_ms - ts } else { 0 }),
        r.mem_mb == (match mem { Some(m) => m, None => 0 }) / 1024 / 1024,
        r.blocked_ms == match blocked_ms { Some(b) => b, None => 0 },
        r.slow == (r.rtt_ms > SLOW_RTT_MS),
        r.blocked == (r.blocked_ms >= BLOCKED_WARN_MS),
{
    let rtt = now_ms.saturating_sub(ts);
    let mem_mb = match mem { Some(m) => m, None => 0 } / 1024 / 1024;
    let blocked = match blocked_ms { Some(b) => b, None => 0 };
    PongReport { rtt_ms: rtt, mem_mb, blocked_ms: blocked, slow: rtt > SLOW_RTT_MS, blocked: blocked >= BLOCKED_WARN_MS }
}

} // verus!
