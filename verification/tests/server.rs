use oretachi::server::{
    effective_server_port, env_flag_set, env_switch_on, write_port_file,
    api_key_authorized, close_worktree_outcome, import_worktree_outcome, parse_port_override, CloseWorktreeOutcome,
    ImportWorktreeOutcome, PeerHealth, SendOutcome, PEER_TIMEOUT_THRESHOLD,
};

#[test]
fn test_parse_port_override_treats_blank_as_unset() {
    assert_eq!(parse_port_override(None, 4000), 4000);
    assert_eq!(parse_port_override(Some(""), 4000), 4000);
    assert_eq!(parse_port_override(Some("   "), 4000), 4000);
    assert_eq!(parse_port_override(Some("abc"), 4000), 4000);
    assert_eq!(parse_port_override(Some("70000"), 4000), 4000);
    assert_eq!(parse_port_override(Some("9163"), 4000), 9163);
    assert_eq!(parse_port_override(Some(" 9163 "), 4000), 9163);
}

#[test]
fn port_override_reads_like_u16_from_str() {
    assert_eq!(parse_port_override(Some("+80"), 1), 80);
    assert_eq!(parse_port_override(Some("0065535"), 1), 65535);
    assert_eq!(parse_port_override(Some("65536"), 1), 1);
    assert_eq!(parse_port_override(Some("-1"), 1), 1);
    assert_eq!(parse_port_override(Some("+"), 1), 1);
    assert_eq!(parse_port_override(Some("8 0"), 1), 1);
    assert_eq!(parse_port_override(Some("0"), 1), 0);
}

#[test]
fn api_key_needs_a_configured_key_and_an_exact_bearer_token() {
    assert!(api_key_authorized("k3y", Some("Bearer k3y")));
    assert!(!api_key_authorized("k3y", Some("Bearer k3y ")));
    assert!(!api_key_authorized("k3y", Some("bearer k3y")));
    assert!(!api_key_authorized("k3y", Some("k3y")));
    assert!(!api_key_authorized("k3y", None));
    assert!(!api_key_authorized("", Some("Bearer ")));
    assert!(!api_key_authorized("", None));
    assert!(api_key_authorized("鍵", Some("Bearer 鍵")));
    assert!(!api_key_authorized("鍵", Some("Bearer 錠")));
}

#[test]
fn three_timeouts_in_a_row_kill_a_peer() {
    let mut h = PeerHealth::new();
    assert!(!h.record(7, SendOutcome::TimedOut));
    assert!(!h.record(7, SendOutcome::TimedOut));
    assert_eq!(h.timeouts(7), 2);
    assert!(h.record(7, SendOutcome::TimedOut));
    assert_eq!(h.timeouts(7), 0);
    assert_eq!(PEER_TIMEOUT_THRESHOLD, 3);
}

#[test]
fn a_delivery_resets_the_timeout_count() {
    let mut h = PeerHealth::new();
    assert!(!h.record(1, SendOutcome::TimedOut));
    assert!(!h.record(1, SendOutcome::TimedOut));
    assert!(!h.record(1, SendOutcome::Delivered));
    assert_eq!(h.timeouts(1), 0);
    assert!(!h.record(1, SendOutcome::TimedOut));
    assert!(!h.record(2, SendOutcome::TimedOut));
    assert_eq!(h.timeouts(2), 1);
}

#[test]
fn a_send_error_kills_a_peer_at_once() {
    let mut h = PeerHealth::new();
    assert!(h.record(3, SendOutcome::Failed));
}

#[test]
fn close_and_import_statuses_map_to_outcomes() {
    assert!(matches!(close_worktree_outcome("ok", None), CloseWorktreeOutcome::Closed));
    assert!(matches!(close_worktree_outcome("cancelled", None), CloseWorktreeOutcome::Cancelled));
    assert!(matches!(close_worktree_outcome("busy", None), CloseWorktreeOutcome::Busy));
    assert!(matches!(close_worktree_outcome("error", Some("disk".into())), CloseWorktreeOutcome::Failed(m) if m == "disk"));
    assert!(matches!(close_worktree_outcome("??", None), CloseWorktreeOutcome::Failed(m) if m == "unknown error"));
    assert!(matches!(import_worktree_outcome("ok", Some("wt-9".into()), None), ImportWorktreeOutcome::Imported(id) if id == "wt-9"));
    assert!(matches!(import_worktree_outcome("ok", None, None), ImportWorktreeOutcome::Imported(id) if id.is_empty()));
    assert!(matches!(import_worktree_outcome("already", None, None), ImportWorktreeOutcome::AlreadyRegistered));
    assert!(matches!(import_worktree_outcome("x", None, None), ImportWorktreeOutcome::Failed(m) if m == "unknown error"));
}

#[test]
fn environment_switches_and_port_file_rules() {
    assert!(env_switch_on(None));
    assert!(env_switch_on(Some("0")));
    assert!(!env_switch_on(Some("false")));
    assert!(env_flag_set(Some("true")));
    assert!(env_flag_set(Some("1")));
    assert!(!env_flag_set(Some("yes")));
    assert!(!env_flag_set(None));
    assert_eq!(effective_server_port(true, Some(1234), 9000), 9000);
    assert_eq!(effective_server_port(false, Some(1234), 9000), 1234);
    assert_eq!(effective_server_port(false, Some(65536 + 80), 9000), 80);
    assert_eq!(effective_server_port(false, None, 9000), 9000);
    assert!(write_port_file(true, true));
    assert!(write_port_file(false, false));
    assert!(!write_port_file(false, true));
}
