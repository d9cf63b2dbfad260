use oretachi::inbox::{
    ack_ids, ack_message, message_source, plan_unsubscribe, poll_hint, stamp_delivered, subscription_target_view,
    undelivered_ids, unsubscribe_message, InboxItem,
};
use oretachi::json::{get, JsonEntry, JsonValue};
use oretachi::settings::{AppSettings, Workgroup, WorktreeEntry};
use oretachi::tasks::{annotate_task_step, annotate_task_steps, task_query, TaskQuery, TASK_STATUSES};

fn settings() -> AppSettings {
    let mut s = AppSettings::default();
    s.workgroups = vec![Workgroup { id: "wg-1".into(), name: Some("Main".into()), ..Default::default() }];
    s.worktrees = vec![
        WorktreeEntry {
            id: "wt-1".into(),
            name: "oretachi-abcd".into(),
            repository_name: "OreTachi".into(),
            branch_name: "feature/x".into(),
            path: "/wt/abcd".into(),
            ..Default::default()
        },
        WorktreeEntry {
            id: "wt-2".into(),
            name: "oretachi-efgh".into(),
            repository_name: "OreTachi".into(),
            branch_name: "feature/y".into(),
            path: "/wt/efgh".into(),
            ..Default::default()
        },
    ];
    s
}

fn s(v: &str) -> JsonValue {
    JsonValue::Str(v.into())
}

fn obj(members: Vec<(&str, JsonValue)>) -> JsonValue {
    JsonValue::Object(members.into_iter().map(|(k, v)| JsonEntry { key: k.into(), value: v }).collect())
}

fn member<'a>(v: &'a JsonValue, k: &str) -> Option<&'a JsonValue> {
    match v {
        JsonValue::Object(es) => get(es, k),
        _ => None,
    }
}

fn text(v: Option<&JsonValue>) -> Option<String> {
    match v {
        Some(JsonValue::Str(x)) => Some(x.clone()),
        _ => None,
    }
}

#[test]
fn a_task_id_asks_for_that_task_alone() {
    match task_query(Some("  t-1 "), Some("x"), Some("bogus"), Some(-1), Some(0)).unwrap() {
        TaskQuery::One(id) => assert_eq!(id, "t-1"),
        other => panic!("unexpected {:?}", other),
    }
}

#[test]
fn task_page_defaults_and_bounds() {
    match task_query(None, None, None, None, None).unwrap() {
        TaskQuery::Page { search, status, offset, limit } => {
            assert_eq!((search.as_str(), status.as_str(), offset, limit), ("", "", 0, 20));
        },
        other => panic!("unexpected {:?}", other),
    }
    match task_query(Some("  "), Some("  login "), Some(" Queued "), Some(-3), Some(1000)).unwrap() {
        TaskQuery::Page { search, status, offset, limit } => {
            assert_eq!((search.as_str(), status.as_str(), offset, limit), ("login", "queued", 0, 100));
        },
        other => panic!("unexpected {:?}", other),
    }
    match task_query(None, None, Some("   "), Some(7), Some(0)).unwrap() {
        TaskQuery::Page { status, offset, limit, .. } => assert_eq!((status.as_str(), offset, limit), ("", 7, 1)),
        other => panic!("unexpected {:?}", other),
    }
}

#[test]
fn unknown_task_status_is_an_error() {
    let e = task_query(None, None, Some(" done "), None, None).unwrap_err();
    assert_eq!(e.message, "unknown status 'done'. valid: generating / queued / executing / completed / error");
    assert_eq!(TASK_STATUSES.len(), 5);
}

#[test]
fn a_step_gets_the_worktree_its_code_names() {
    let st = settings();
    let step = obj(vec![
        ("code", obj(vec![("repository", s("OreTachi")), ("branch", s("feature/y")), ("sourceBranch", s("main"))])),
        ("status", s("completed")),
    ]);
    let out = annotate_task_step(&st, step);
    assert_eq!(text(member(&out, "worktreeName")).as_deref(), Some("oretachi-efgh"));
    assert_eq!(text(member(&out, "worktreeId")).as_deref(), Some("wt-2"));
    assert_eq!(text(member(&out, "status")).as_deref(), Some("completed"));
}

#[test]
fn a_step_without_a_code_member_is_its_own_code() {
    let st = settings();
    let step = obj(vec![("repository", s("OreTachi")), ("branch", s("feature/none"))]);
    let out = annotate_task_step(&st, step);
    assert!(matches!(member(&out, "worktreeName"), Some(JsonValue::Null)));
    assert!(matches!(member(&out, "worktreeId"), Some(JsonValue::Null)));
}

#[test]
fn steps_that_name_no_branch_are_kept_as_they_are() {
    let st = settings();
    let steps = vec![
        obj(vec![("code", obj(vec![("repository", s("OreTachi"))]))]),
        s("not an object"),
        obj(vec![("code", obj(vec![("repository", s("OreTachi")), ("branch", s("feature/x"))]))]),
    ];
    let out = annotate_task_steps(&st, steps);
    assert_eq!(out.len(), 3);
    assert!(member(&out[0], "worktreeName").is_none());
    assert!(matches!(&out[1], JsonValue::Str(x) if x == "not an object"));
    assert_eq!(text(member(&out[2], "worktreeId")).as_deref(), Some("wt-1"));
}

#[test]
fn unsubscribe_needs_an_id_or_a_target() {
    let st = settings();
    let e = plan_unsubscribe(&st, Some("  "), None).unwrap_err();
    assert_eq!(e.message, "subscription_id または target を指定してください");
    let q = plan_unsubscribe(&st, Some(" sub-1 "), None).unwrap();
    assert_eq!(q.subscription_id.as_deref(), Some("sub-1"));
    assert_eq!(q.target, None);
}

#[test]
fn unsubscribe_target_is_stored_form_even_when_closed() {
    let st = settings();
    let q = plan_unsubscribe(&st, None, Some(" oretachi-abcd ")).unwrap();
    assert_eq!(q.target.as_deref(), Some("wt-1"));
    let q = plan_unsubscribe(&st, None, Some("wt-closed")).unwrap();
    assert_eq!(q.target.as_deref(), Some("wt-closed"));
    let q = plan_unsubscribe(&st, None, Some(" repo:Gone-Repo ")).unwrap();
    assert_eq!(q.target.as_deref(), Some("repo:gone-repo"));
    let q = plan_unsubscribe(&st, None, Some("*")).unwrap();
    assert_eq!(q.target.as_deref(), Some("*"));
}

#[test]
fn unsubscribe_and_ack_replies() {
    assert_eq!(unsubscribe_message(2), "購読を解除しました（2 件）。");
    assert!(unsubscribe_message(0).starts_with("該当する購読はありませんでした"));
    assert_eq!(
        ack_message(1, 3),
        "1 件を確認済みにしました（要求 3 件。差分は既に ack 済みか、別のターミナル宛のメッセージです）。"
    );
    assert_eq!(poll_hint(false), "未確認メッセージはありません。");
    assert!(poll_hint(true).starts_with("内容を確認したら oretachi_ack_message"));
}

#[test]
fn ack_ids_are_trimmed_and_blank_ones_dropped() {
    let ids = vec![" m-1 ".to_string(), "  ".to_string(), "m-2".to_string()];
    assert_eq!(ack_ids(&ids).unwrap(), vec!["m-1".to_string(), "m-2".to_string()]);
    let e = ack_ids(&vec![" ".to_string()]).unwrap_err();
    assert_eq!(e.message, "ids must not be empty");
    assert!(ack_ids(&Vec::new()).is_err());
}

#[test]
fn a_poll_stamps_only_what_it_hands_out_first() {
    let mut items = vec![
        InboxItem { id: "m-1".into(), source_worktree_id: "wt-1".into(), delivered_at: Some(10) },
        InboxItem { id: "m-2".into(), source_worktree_id: "wt-2".into(), delivered_at: None },
        InboxItem { id: "m-3".into(), source_worktree_id: "wt-9".into(), delivered_at: None },
    ];
    assert_eq!(undelivered_ids(&items), vec!["m-2".to_string(), "m-3".to_string()]);
    stamp_delivered(&mut items, 99);
    assert_eq!(items.iter().map(|i| i.delivered_at).collect::<Vec<_>>(), vec![Some(10), Some(99), Some(99)]);
    assert!(undelivered_ids(&items).is_empty());
    assert_eq!(items[2].id, "m-3");
}

#[test]
fn message_source_names_the_sending_worktree() {
    let st = settings();
    assert_eq!(message_source(&st, "wt-2"), (Some("oretachi-efgh".to_string()), Some("/wt/efgh".to_string())));
    assert_eq!(message_source(&st, "wt-gone"), (None, None));
}

#[test]
fn subscription_targets_are_shown_by_kind() {
    let st = settings();
    let (kind, label, name) = subscription_target_view(&st, "wt-1");
    assert_eq!((kind.as_str(), label.as_deref(), name.as_deref()), ("worktree", Some("oretachi-abcd"), Some("oretachi-abcd")));
    let (kind, label, name) = subscription_target_view(&st, "workgroup:wg-1");
    assert_eq!((kind.as_str(), label.as_deref(), name), ("workgroup", Some("Main"), None));
    let (kind, label, name) = subscription_target_view(&st, "*");
    assert_eq!((kind.as_str(), label, name), ("all", None, None));
}
