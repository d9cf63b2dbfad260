use oretachi::notify::{notify_debounce_secs, DebounceMap, NotifyKind};

#[test]
fn notify_debounce_secs_delegates_to_notify_kind() {
    assert_eq!(notify_debounce_secs("hook"), Some(3));
    assert_eq!(notify_debounce_secs("approval"), Some(1));
    assert_eq!(notify_debounce_secs("completed"), None);
    assert_eq!(notify_debounce_secs("worktree.message"), None);
    assert_eq!(notify_debounce_secs("bogus"), None);
}

#[test]
fn event_debounce_map_is_independent_from_toast_map() {
    let mut toast = DebounceMap::new();
    let mut events = DebounceMap::new();
    assert!(toast.should_send_notify_at("wt-a", "hook", true, 0));
    assert!(!toast.should_send_notify_at("wt-a", "hook", true, 0));
    assert!(events.should_send_notify_at("wt-a", "hook", true, 0), "イベント側は独立");
    assert!(!events.should_send_notify_at("wt-a", "hook", true, 0));
}

#[test]
fn tray_false_notify_does_not_consume_tray_true_window() {
    let mut map = DebounceMap::new();
    let t0 = 5_000;
    assert!(map.should_send_notify_at("wt", "approval", false, t0));
    assert!(map.should_send_notify_at("wt", "approval", true, t0), "tray: false の通知が tray: true の debounce 窓を消費している");
    assert!(map.should_send_notify_at("wt", "hook", false, t0));
    assert!(map.should_send_notify_at("wt", "hook", true, t0), "tray: false の hook 通知が tray: true の debounce 窓を消費している");
}

#[test]
fn tray_true_and_false_windows_are_independent() {
    let mut map = DebounceMap::new();
    let t0 = 5_000;
    assert!(map.should_send_notify_at("wt", "approval", true, t0));
    assert!(map.should_send_notify_at("wt", "approval", false, t0));
    assert!(!map.should_send_notify_at("wt", "approval", true, t0));
    assert!(!map.should_send_notify_at("wt", "approval", false, t0));
}

#[test]
fn tray_true_debounce_windows_unchanged() {
    let mut map = DebounceMap::new();
    let t0 = 5_000;
    assert!(map.should_send_notify_at("wt", "approval", true, t0));
    assert!(!map.should_send_notify_at("wt", "approval", true, t0 + 999));
    assert!(map.should_send_notify_at("wt", "approval", true, t0 + 1000));
    assert!(map.should_send_notify_at("wt", "hook", true, t0));
    assert!(!map.should_send_notify_at("wt", "hook", true, t0 + 2999));
    assert!(map.should_send_notify_at("wt", "hook", true, t0 + 3000));
}

#[test]
fn tray_false_debounce_windows_still_apply() {
    let mut map = DebounceMap::new();
    let t0 = 5_000;
    assert!(map.should_send_notify_at("wt", "approval", false, t0));
    assert!(!map.should_send_notify_at("wt", "approval", false, t0 + 500));
    assert!(map.should_send_notify_at("wt", "approval", false, t0 + 1000));
}

#[test]
fn non_debounced_kinds_always_pass() {
    let mut map = DebounceMap::new();
    let t0 = 5_000;
    for kind in ["general", "completed", "worktree.message"] {
        for tray in [true, false] {
            assert!(map.should_send_notify_at("wt", kind, tray, t0));
            assert!(map.should_send_notify_at("wt", kind, tray, t0));
        }
    }
}

#[test]
fn debounce_is_scoped_per_worktree() {
    let mut map = DebounceMap::new();
    let t0 = 5_000;
    assert!(map.should_send_notify_at("wt-a", "approval", true, t0));
    assert!(map.should_send_notify_at("wt-b", "approval", true, t0));
    assert!(!map.should_send_notify_at("wt-a", "approval", true, t0));
}

#[test]
fn debounce_window_restarts_from_the_last_send() {
    let mut map = DebounceMap::new();
    assert!(map.should_send_notify_at("wt", "hook", true, 10_000));
    assert!(!map.should_send_notify_at("wt", "hook", true, 12_000));
    // the held-back call does not move the window
    assert!(map.should_send_notify_at("wt", "hook", true, 13_000));
    assert!(!map.should_send_notify_at("wt", "hook", true, 15_999));
    // a clock reading before the last send counts as no time
    assert!(!map.should_send_notify_at("wt", "hook", true, 1_000));
}

#[test]
fn notify_kind_names_round_trip() {
    for k in [
        NotifyKind::General,
        NotifyKind::Hook,
        NotifyKind::Approval,
        NotifyKind::Completed,
        NotifyKind::WorktreeMessage,
        NotifyKind::WorktreeCreated,
        NotifyKind::WorktreeClosed,
    ] {
        assert_eq!(NotifyKind::parse(k.as_str()), Some(k));
    }
    assert_eq!(NotifyKind::parse("Hook"), None);
    assert!(!NotifyKind::WorktreeClosed.agent_publishable());
    assert!(!NotifyKind::WorktreeCreated.agent_publishable());
    assert!(NotifyKind::WorktreeMessage.agent_publishable());
}
