use oretachi::settings::{AppSettings, WorktreeEntry};
use oretachi::subscribers::{mcp_notify_source, resolve_subscriber, SessionView, SubscriberIdentity};

fn session(tid: &str, wt: Option<&str>, running: bool, ai: bool) -> SessionView {
    SessionView {
        terminal_id: tid.into(),
        worktree_id: wt.map(str::to_string),
        agent_session: Some(format!("s-{}", tid)),
        running,
        is_ai_agent: ai,
    }
}

fn settings() -> AppSettings {
    let mut s = AppSettings::default();
    s.worktrees.push(WorktreeEntry { id: "wt-1".into(), name: "one".into(), path: "/wt/one".into(), ..Default::default() });
    s.worktrees.push(WorktreeEntry { id: "wt-2".into(), name: "two".into(), path: "/wt/two".into(), ..Default::default() });
    s
}

#[test]
fn an_explicit_terminal_id_must_exist() {
    let s = settings();
    let ss = vec![session("t-1", Some("wt-1"), true, true), session("t-2", None, false, false)];
    let id = resolve_subscriber(&s, &ss, Some(" t-2 "), None, None).unwrap();
    assert_eq!(id.terminal_id, "t-2");
    assert!(id.worktree_id.is_none());
    let e = resolve_subscriber(&s, &ss, Some("t-9"), Some("/wt/one"), Some(0)).unwrap_err();
    assert!(e.message.starts_with("terminal_id 't-9' に一致するターミナルがありません。"));
}

#[test]
fn without_a_terminal_the_single_agent_of_the_worktree_is_taken() {
    let s = settings();
    let ss = vec![
        session("t-1", Some("wt-1"), true, true),
        session("t-2", Some("wt-1"), false, true),
        session("t-3", Some("wt-1"), true, false),
        session("t-4", Some("wt-2"), true, true),
    ];
    let id = resolve_subscriber(&s, &ss, Some("  "), Some("/wt/one/src"), Some(0)).unwrap();
    assert_eq!(id.terminal_id, "t-1");
    assert_eq!(id.worktree_id.as_deref(), Some("wt-1"));
    assert_eq!(id.agent_session.as_deref(), Some("s-t-1"));

    let more = vec![session("a", Some("wt-2"), true, true), session("b", Some("wt-2"), true, true)];
    let e = resolve_subscriber(&s, &more, None, Some("/wt/two"), Some(1)).unwrap_err();
    assert_eq!(
        e.message,
        "ワークツリー 'two' に AI エージェント端末が 2 個あるため呼び出し元を特定できません。terminal_id を明示してください（セッション開始時に oretachi から注入されています）"
    );
    let e = resolve_subscriber(&s, &vec![], None, Some("/wt/two"), Some(1)).unwrap_err();
    assert!(e.message.contains("走行中の AI エージェント端末が見つかりません"));
}

#[test]
fn without_terminal_or_directory_nothing_is_guessed() {
    let s = settings();
    let e = resolve_subscriber(&s, &vec![], None, Some(" "), None).unwrap_err();
    assert_eq!(
        e.message,
        "terminal_id または project_dir を指定してください。terminal_id はセッション開始時に oretachi から注入されています"
    );
    let e = resolve_subscriber(&s, &vec![], None, Some("/elsewhere"), None).unwrap_err();
    assert_eq!(e.message, "project_dir '/elsewhere' に一致するワークツリーがありません。available: [one, two]");
}

#[test]
fn tool_notifications_come_from_the_callers_worktree() {
    let s = settings();
    let who = SubscriberIdentity { terminal_id: "t-1".into(), worktree_id: Some("wt-2".into()), agent_session: None };
    let src = mcp_notify_source(&s, who).unwrap();
    assert_eq!(src.worktree_id, "wt-2");
    assert_eq!(src.worktree_name.as_deref(), Some("two"));
    assert_eq!(src.terminal_id.as_deref(), Some("t-1"));
    assert_eq!(src.origin, "mcp-notify:t-1");
    assert_eq!(src.actor, "mcp");
    let nowhere = SubscriberIdentity { terminal_id: "t-2".into(), worktree_id: None, agent_session: None };
    let e = mcp_notify_source(&s, nowhere).unwrap_err();
    assert!(e.message.starts_with("呼び出し元ターミナルの作業ディレクトリから"));
}
