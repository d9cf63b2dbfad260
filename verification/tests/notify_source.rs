use oretachi::notify_source::notify_tool_kind;
use oretachi::notify_source::event_text;
use oretachi::notify_source::{event_depth, skip_unsubscribed_event};
use oretachi::json::{JsonEntry, JsonValue};
use oretachi::notify::NotifyKind;
use oretachi::notify_source::{
    default_kind_for_event, notify_kind_for_payload, notify_source_scope, notify_terminal_candidate,
    plan_notify, repo_has_notification_hooks, resolve_kind_for_event, resolve_notify_source, NotifyPayload,
    NotifySource,
};
use oretachi::settings::{AppSettings, NotificationHookEntry, Repository, Workgroup, WorktreeEntry};

fn target_settings() -> AppSettings {
    let mut settings = AppSettings::default();
    settings.workgroups = vec![
        Workgroup { id: "wg-1".into(), name: None, ..Default::default() },
        Workgroup { id: "wg-2".into(), name: Some("リリース準備".into()), ..Default::default() },
        Workgroup { id: "wg-3".into(), name: Some("Bug Fix".into()), ..Default::default() },
    ];
    settings.repositories = vec![Repository {
        id: "r-1".into(),
        name: "OreTachi".into(),
        path: "X:/repo".into(),
        notification_hooks: None,
        branch_name_pattern: None,
    }];
    settings.worktrees = vec![WorktreeEntry {
        id: "wt-1".into(),
        name: "oretachi-abcd".into(),
        repository_id: "r-1".into(),
        repository_name: "OreTachi".into(),
        path: "X:/wt".into(),
        branch_name: "feature/x".into(),
        description: None,
        workgroup_id: Some("wg-2".into()),
        tray_notification: None,
        is_home: false,
        is_repository: false,
    }];
    settings
}

fn notify_payload(project_dir: Option<&str>, worktree: Option<&str>, terminal: Option<&str>) -> NotifyPayload {
    NotifyPayload {
        project_dir: project_dir.map(str::to_string),
        event: Some("Stop".into()),
        worktree: worktree.map(str::to_string),
        kind: None,
        body: None,
        agent: Some("cc".into()),
        terminal_id: terminal.map(str::to_string),
    }
}

/// What the application does: asks whether the one candidate tab is live, then resolves.
fn resolve(settings: &AppSettings, payload: &NotifyPayload, live: &str) -> Option<NotifySource> {
    let candidate = notify_terminal_candidate(payload);
    let is_live = candidate.as_deref() == Some(live);
    resolve_notify_source(settings, payload, is_live)
}

#[test]
fn resolve_notify_source_from_project_dir() {
    let settings = target_settings();
    let src = resolve(&settings, &notify_payload(Some("X:/wt"), None, Some("term-live")), "term-live")
        .expect("projectDir から引けるはず");
    assert_eq!(src.worktree_id, "wt-1");
    assert_eq!(src.worktree_name.as_deref(), Some("oretachi-abcd"));
    assert_eq!(src.repository_name.as_deref(), Some("OreTachi"));
    assert_eq!(src.workgroup_id.as_deref(), Some("wg-2"));
    assert_eq!(src.terminal_id.as_deref(), Some("term-live"));
    assert_eq!(src.actor, "hook");
    assert_eq!(src.origin, "http-notify:term-live");
}

#[test]
fn resolve_notify_source_falls_back_to_worktree_name() {
    let settings = target_settings();
    let src = resolve(&settings, &notify_payload(None, Some("oretachi-abcd"), None), "")
        .expect("名前からも引けるはず");
    assert_eq!(src.worktree_id, "wt-1");
    assert!(src.terminal_id.is_none());
    assert_eq!(src.origin, "http-notify:-");
}

#[test]
fn resolve_notify_source_returns_none_when_unresolvable() {
    let settings = target_settings();
    assert!(resolve(&settings, &notify_payload(None, None, None), "").is_none());
    assert!(resolve(&settings, &notify_payload(Some("X:/somewhere-else"), Some("no-such-worktree"), None), "").is_none());
}

#[test]
fn resolve_notify_source_drops_unknown_terminal_id() {
    let settings = target_settings();
    let src = resolve(&settings, &notify_payload(Some("X:/wt"), None, Some("term-ghost")), "term-live").unwrap();
    assert!(src.terminal_id.is_none(), "実在しないタブ ID は載せない");
}

#[test]
fn terminal_candidate_is_trimmed_and_non_blank() {
    assert_eq!(notify_terminal_candidate(&notify_payload(None, None, Some("  t-1 "))).as_deref(), Some("t-1"));
    assert!(notify_terminal_candidate(&notify_payload(None, None, Some("   "))).is_none());
}

#[test]
fn resolve_kind_for_event_uses_repo_setting_then_default() {
    let mut settings = target_settings();
    let wt = settings.worktrees[0].clone();
    assert_eq!(resolve_kind_for_event(&settings, &wt, "Stop"), NotifyKind::Completed);
    assert_eq!(resolve_kind_for_event(&settings, &wt, "PermissionRequest"), NotifyKind::Approval);
    assert_eq!(resolve_kind_for_event(&settings, &wt, "PostToolUse"), NotifyKind::Hook);

    settings.repositories[0].notification_hooks =
        Some(vec![NotificationHookEntry { event: "Stop".into(), kind: NotifyKind::General }]);
    assert_eq!(resolve_kind_for_event(&settings, &wt, "Stop"), NotifyKind::General);
    assert_eq!(resolve_kind_for_event(&settings, &wt, "PermissionRequest"), NotifyKind::Approval);
}

#[test]
fn default_kinds_of_events() {
    assert_eq!(default_kind_for_event("Stop"), NotifyKind::Completed);
    assert_eq!(default_kind_for_event("PermissionRequest"), NotifyKind::Approval);
    assert_eq!(default_kind_for_event("stop"), NotifyKind::Hook);
}

#[test]
fn hooks_setting_counts_only_when_not_empty() {
    let mut settings = target_settings();
    let wt = settings.worktrees[0].clone();
    assert!(!repo_has_notification_hooks(&settings, &wt));
    settings.repositories[0].notification_hooks = Some(vec![]);
    assert!(!repo_has_notification_hooks(&settings, &wt));
    settings.repositories[0].notification_hooks =
        Some(vec![NotificationHookEntry { event: "Stop".into(), kind: NotifyKind::Completed }]);
    assert!(repo_has_notification_hooks(&settings, &wt));
}

#[test]
fn source_scope_falls_back_to_the_default_workgroup() {
    let mut settings = target_settings();
    settings.worktrees[0].workgroup_id = None;
    let (name, repo, group) = notify_source_scope(&settings, "wt-1");
    assert_eq!(name.as_deref(), Some("oretachi-abcd"));
    assert_eq!(repo.as_deref(), Some("OreTachi"));
    assert_eq!(group.as_deref(), Some("wg-1"));
    assert_eq!(notify_source_scope(&settings, "nope"), (None, None, None));
}

#[test]
fn explicit_kind_wins_unless_reserved() {
    let settings = target_settings();
    let mut p = notify_payload(Some("X:/wt"), None, None);
    p.kind = Some(" approval ".into());
    assert_eq!(notify_kind_for_payload(&settings, Some(&settings.worktrees[0]), &p), NotifyKind::Approval);
    p.kind = Some("worktree.closed".into());
    assert_eq!(notify_kind_for_payload(&settings, Some(&settings.worktrees[0]), &p), NotifyKind::Completed);
    p.kind = Some("bogus".into());
    p.event = None;
    assert_eq!(notify_kind_for_payload(&settings, None, &p), NotifyKind::General);
}

#[test]
fn lifecycle_notifications_follow_tray_and_hook_settings() {
    let mut settings = target_settings();
    settings.worktrees[0].tray_notification = Some(false);
    let p = NotifyPayload {
        project_dir: Some("X:/wt".into()),
        event: Some("PostToolUse".into()),
        body: Some("see https://example.com".into()),
        agent: Some("cc".into()),
        ..Default::default()
    };
    let body = JsonValue::Object(vec![JsonEntry { key: "agent_id".into(), value: JsonValue::Str("a".into()) }]);
    let plan = plan_notify(&settings, &p, Some(&body));
    assert_eq!(plan.worktree_name.as_deref(), Some("oretachi-abcd"));
    assert!(plan.scan_urls);
    assert!(plan.skip);
    assert!(!plan.tray);
    assert_eq!(plan.kind, NotifyKind::Hook);
    assert!(!plan.toast, "通知フック未設定のリポジトリではトーストを出さない");

    let explicit = NotifyPayload { worktree: Some("free-name".into()), kind: Some("general".into()), ..Default::default() };
    let plan = plan_notify(&settings, &explicit, None);
    assert_eq!(plan.worktree_name.as_deref(), Some("free-name"));
    assert!(plan.tray);
    assert!(plan.toast);
    assert!(!plan.skip);
    assert!(!plan.scan_urls);

    let nothing = NotifyPayload::default();
    assert!(plan_notify(&settings, &nothing, None).worktree_name.is_none());
}

#[test]
fn notify_tool_kind_defaults_to_general_and_refuses_reserved_kinds() {
    assert_eq!(notify_tool_kind(None).unwrap(), NotifyKind::General);
    assert_eq!(notify_tool_kind(Some("  ")).unwrap(), NotifyKind::General);
    assert_eq!(notify_tool_kind(Some(" hook ")).unwrap(), NotifyKind::Hook);
    assert_eq!(
        notify_tool_kind(Some("bogus")).unwrap_err().message,
        "kind 'bogus' は不正です。指定できるのは general / hook / approval / completed / worktree.message / worktree.created / worktree.closed のいずれかです"
    );
    assert!(notify_tool_kind(Some("worktree.closed")).unwrap_err().message.contains("notify_worktree からは発行できません"));
}

#[test]
fn event_text_limits_messages_and_cuts_hook_bodies() {
    assert_eq!(
        event_text(NotifyKind::WorktreeMessage, Some("  "), 10, 5).unwrap_err().message,
        "kind に worktree.message を指定する場合は body（購読者へ届けるメッセージ本文）が必要です"
    );
    assert_eq!(event_text(NotifyKind::WorktreeMessage, Some(" hi "), 10, 5).unwrap(), "hi");
    assert_eq!(
        event_text(NotifyKind::WorktreeMessage, Some("あいうえおかきくけこさ"), 10, 5).unwrap_err().message,
        "body が長すぎます（11 文字 / 上限 10 文字）。要点を絞って送るか、詳細は共有ファイルや issue に置いて参照を送ってください"
    );
    assert_eq!(event_text(NotifyKind::Hook, Some("abcdefg"), 10, 5).unwrap(), "abcde…（切り詰め）");
    assert_eq!(event_text(NotifyKind::Hook, None, 10, 5).unwrap(), "");
    assert_eq!(event_text(NotifyKind::Completed, Some("abc"), 10, 5).unwrap(), "abc");
}

#[test]
fn unsubscribed_events_are_skipped_only_when_no_subscription_was_written() {
    assert!(skip_unsubscribed_event(NotifyKind::Hook, false, 4, 4));
    assert!(!skip_unsubscribed_event(NotifyKind::Hook, true, 4, 4));
    assert!(!skip_unsubscribed_event(NotifyKind::Hook, false, 4, 6));
    assert!(!skip_unsubscribed_event(NotifyKind::Hook, false, 5, 5));
    assert!(!skip_unsubscribed_event(NotifyKind::WorktreeMessage, false, 4, 4));
    assert_eq!(event_depth(NotifyKind::WorktreeMessage, true, Some(2)), 3);
    assert_eq!(event_depth(NotifyKind::WorktreeMessage, true, None), 0);
    assert_eq!(event_depth(NotifyKind::Hook, true, Some(2)), 0);
    assert_eq!(event_depth(NotifyKind::WorktreeMessage, false, Some(2)), 0);
}
