use oretachi::notifications::{NotificationRegistry, NotificationSnapshot};
use oretachi::settings::{AppSettings, Repository, Workgroup, WorktreeEntry};
use oretachi::server::CloseWorktreeOutcome;
use oretachi::worktree_tools::{
    archive_page, archive_workgroup_name, close_answer, inspectable_worktree, list_repositories, list_workgroups,
    normalize_description, plan_add_task, plan_close_worktree, plan_set_description, plan_show_worktree,
    plan_spawn_terminal, plan_tray_notification, registered_worktree_count, split_words, terminal_filter,
    worktree_status, CloseAnswer, CloseWait,
};
use oretachi::worktrees::{deepest_match, resolve_worktree_by_cwd};

fn settings() -> AppSettings {
    let mut s = AppSettings::default();
    s.workgroups = vec![
        Workgroup { id: "wg-1".into(), name: None, ..Default::default() },
        Workgroup { id: "wg-2".into(), name: Some("  Bug Fix ".into()), ..Default::default() },
    ];
    s.worktrees = vec![
        WorktreeEntry {
            id: "wt-1".into(),
            name: "oretachi-abcd".into(),
            repository_name: "OreTachi".into(),
            path: "/wt/abcd".into(),
            branch_name: "Fix/Login".into(),
            description: Some("ログイン画面の修正".into()),
            workgroup_id: Some("wg-2".into()),
            tray_notification: Some(false),
            ..Default::default()
        },
        WorktreeEntry {
            id: "wt-2".into(),
            name: "oretachi-efgh".into(),
            path: "/wt/efgh".into(),
            branch_name: "feature/search".into(),
            ..Default::default()
        },
        WorktreeEntry { id: "home".into(), name: "HOME".into(), path: "/home".into(), is_home: true, ..Default::default() },
        WorktreeEntry { id: "repo".into(), name: "OreTachi".into(), path: "/src".into(), is_repository: true, ..Default::default() },
    ];
    s.detached_worktree_ids = vec!["wt-2".into()];
    s
}

#[test]
fn split_words_splits_on_any_whitespace() {
    let v: Vec<char> = " a\tbc\r\n  d ".chars().collect();
    let w: Vec<String> = split_words(&v).iter().map(|x| x.iter().collect()).collect();
    assert_eq!(w, vec!["a", "bc", "d"]);
    assert!(split_words(&[]).is_empty());
}

#[test]
fn description_becomes_one_line() {
    assert_eq!(normalize_description("  fix\r\nthe   login\tbug \n").unwrap(), "fix the login bug");
    assert_eq!(normalize_description("ログイン\u{3000}修正").unwrap(), "ログイン 修正");
}

#[test]
fn blank_description_is_refused() {
    let e = normalize_description(" \r\n\t ").unwrap_err();
    assert_eq!(e.message, "description must not be empty");
    assert!(normalize_description("").is_err());
}

#[test]
fn description_is_cut_to_200_characters() {
    let long: String = "あ".repeat(250);
    let d = normalize_description(&long).unwrap();
    assert_eq!(d.chars().count(), 200);
    let exact: String = "x".repeat(200);
    assert_eq!(normalize_description(&exact).unwrap(), exact);
}

#[test]
fn set_description_reports_the_previous_one() {
    let s = settings();
    let ch = plan_set_description(&s, "新しい\n説明", None, Some("oretachi-abcd"), None).unwrap();
    assert_eq!(ch.worktree, "oretachi-abcd");
    assert_eq!(ch.worktree_id, "wt-1");
    assert_eq!(ch.previous.as_deref(), Some("ログイン画面の修正"));
    assert_eq!(ch.description, "新しい 説明");
    let ch = plan_set_description(&s, "x", Some("/wt/efgh/"), None, None).unwrap();
    assert_eq!(ch.worktree_id, "wt-2");
    assert_eq!(ch.previous, None);
}

#[test]
fn set_description_checks_the_text_before_the_worktree() {
    let s = settings();
    let e = plan_set_description(&s, "   ", None, Some("no-such"), None).unwrap_err();
    assert_eq!(e.message, "description must not be empty");
    let e = plan_set_description(&s, "ok", None, None, None).unwrap_err();
    assert_eq!(e.message, "specify one of project_dir / worktree_name / worktree_id");
    let e = plan_set_description(&s, "ok", None, None, Some("wt-9")).unwrap_err();
    assert_eq!(e.message, "worktree id 'wt-9' not found");
}

#[test]
fn tray_change_reports_both_effective_values() {
    let s = settings();
    let ch = plan_tray_notification(&s, None, None, None, Some("wt-1")).unwrap();
    assert_eq!(ch.previous, Some(false));
    assert!(!ch.previous_effective);
    assert_eq!(ch.enabled, None);
    assert!(ch.new_effective);
    let ch = plan_tray_notification(&s, Some(false), None, Some("oretachi-efgh"), None).unwrap();
    assert_eq!(ch.previous, None);
    assert!(ch.previous_effective);
    assert!(!ch.new_effective);
    assert!(plan_tray_notification(&s, Some(true), None, None, None).is_err());
}

#[test]
fn pseudo_worktrees_have_no_git_state() {
    let s = settings();
    let e = inspectable_worktree(&s, Some("HOME"), None).unwrap_err();
    assert_eq!(e.message, "worktree 'HOME' is the home worktree and has no worktree git state");
    let e = inspectable_worktree(&s, None, Some("repo")).unwrap_err();
    assert_eq!(e.message, "worktree 'OreTachi' is the repository and has no worktree git state");
    assert_eq!(inspectable_worktree(&s, None, Some("wt-1")).unwrap().name, "oretachi-abcd");
    let e = inspectable_worktree(&s, None, None).unwrap_err();
    assert_eq!(e.message, "specify one of worktree_name / worktree_id");
}

#[test]
fn status_query_matches_name_branch_or_description_ignoring_case() {
    let s = settings();
    let n = NotificationRegistry::new();
    let ids = |q: Option<&str>| -> Vec<String> { worktree_status(&s, &n, q).into_iter().map(|r| r.id).collect() };
    assert_eq!(ids(Some("  LOGIN ")), vec!["wt-1"]);
    assert_eq!(ids(Some("画面")), vec!["wt-1"]);
    assert_eq!(ids(Some("EFGH")), vec!["wt-2"]);
    assert_eq!(ids(Some("   ")).len(), 4);
    assert_eq!(ids(None).len(), 4);
    assert!(ids(Some("nothing-matches")).is_empty());
}

#[test]
fn status_rows_carry_group_detachment_tray_and_notifications() {
    let s = settings();
    let mut n = NotificationRegistry::new();
    n.insert("wt-1".into(), NotificationSnapshot { count: 2, kind: "approval".into(), first_notified_at: 1234 });
    let rows = worktree_status(&s, &n, None);
    let one = &rows[0];
    assert_eq!(one.workgroup_id.as_deref(), Some("wg-2"));
    assert_eq!(one.workgroup_name.as_deref(), Some("Bug Fix"));
    assert!(!one.is_detached);
    assert_eq!(one.tray_notification, Some(false));
    assert!(!one.tray_notification_effective);
    assert_eq!(one.notification_count, 2);
    assert_eq!(one.notification_kind.as_deref(), Some("approval"));
    assert_eq!(one.first_notified_at, Some(1234));
    assert_eq!(one.description.as_deref(), Some("ログイン画面の修正"));
    let two = &rows[1];
    // no workgroup of its own: shown under the first one
    assert_eq!(two.workgroup_id.as_deref(), Some("wg-1"));
    assert_eq!(two.workgroup_name.as_deref(), Some("グループ(1)"));
    assert!(two.is_detached);
    assert_eq!(two.tray_notification, None);
    assert!(two.tray_notification_effective);
    assert_eq!(two.notification_count, 0);
    assert_eq!(two.notification_kind, None);
    assert_eq!(two.first_notified_at, None);
    assert!(rows[2].is_home);
    assert!(rows[3].is_repository);
}

#[test]
fn status_without_workgroups_has_no_group() {
    let mut s = settings();
    s.workgroups.clear();
    let rows = worktree_status(&s, &NotificationRegistry::new(), Some("efgh"));
    assert_eq!(rows.len(), 1);
    assert_eq!(rows[0].workgroup_id, None);
    assert_eq!(rows[0].workgroup_name, None);
}

#[test]
fn workgroup_listing_marks_the_first_as_default() {
    let mut s = settings();
    let gs = list_workgroups(&s);
    assert_eq!(gs.len(), 2);
    assert_eq!((gs[0].id.as_str(), gs[0].name.as_str(), gs[0].is_default), ("wg-1", "グループ(1)", true));
    assert_eq!((gs[1].id.as_str(), gs[1].name.as_str(), gs[1].is_default), ("wg-2", "Bug Fix", false));
    s.locale = Some("en".into());
    assert_eq!(list_workgroups(&s)[0].name, "Group (1)");
}

#[test]
fn pseudo_worktrees_are_not_counted() {
    assert_eq!(registered_worktree_count(&settings()), 2);
    assert_eq!(registered_worktree_count(&AppSettings::default()), 0);
}

#[test]
fn archive_page_defaults_and_bounds() {
    let p = archive_page(None, None, None);
    assert_eq!((p.search.as_str(), p.offset, p.limit), ("", 0, 50));
    let p = archive_page(Some("  login "), Some(-5), Some(500));
    assert_eq!((p.search.as_str(), p.offset, p.limit), ("login", 0, 200));
    let p = archive_page(Some(""), Some(30), Some(0));
    assert_eq!((p.offset, p.limit), (30, 1));
    assert_eq!(archive_page(None, None, Some(120)).limit, 120);
}

#[test]
fn archive_workgroup_is_looked_up_without_fallback() {
    let s = settings();
    assert_eq!(archive_workgroup_name(&s, Some(" wg-2 ")).as_deref(), Some("Bug Fix"));
    assert_eq!(archive_workgroup_name(&s, Some("wg-1")).as_deref(), Some("グループ(1)"));
    assert_eq!(archive_workgroup_name(&s, Some("wg-deleted")), None);
    assert_eq!(archive_workgroup_name(&s, Some("  ")), None);
    assert_eq!(archive_workgroup_name(&s, None), None);
}

#[test]
fn repository_listing_trims_the_branch_pattern() {
    let mut s = settings();
    s.repositories = vec![
        Repository { id: "r-1".into(), name: "OreTachi".into(), path: "/src".into(), notification_hooks: None, branch_name_pattern: Some("  feat/{name} ".into()) },
        Repository { id: "r-2".into(), name: "Other".into(), path: "/other".into(), notification_hooks: None, branch_name_pattern: Some("   ".into()) },
        Repository { id: "r-3".into(), name: "Third".into(), path: "/third".into(), notification_hooks: None, branch_name_pattern: None },
    ];
    let rs = list_repositories(&s);
    assert_eq!(rs.len(), 3);
    assert_eq!(rs[0].branch_name_pattern.as_deref(), Some("feat/{name}"));
    assert_eq!(rs[0].path, "/src");
    assert_eq!(rs[1].branch_name_pattern, None);
    assert_eq!(rs[2].branch_name_pattern, None);
    assert_eq!(rs[2].name, "Third");
}

#[test]
fn close_needs_a_name_and_spares_pseudo_worktrees() {
    let s = settings();
    let e = plan_close_worktree(&s, "  ", Some("wt-1"), None, None, None).unwrap_err();
    assert_eq!(e.message, "worktree_name must not be empty");
    let e = plan_close_worktree(&s, "HOME", None, None, None, None).unwrap_err();
    assert_eq!(e.message, "worktree 'HOME' is the home worktree and cannot be closed");
    let e = plan_close_worktree(&s, "x", Some("repo"), None, None, None).unwrap_err();
    assert_eq!(e.message, "worktree 'OreTachi' is the repository and cannot be closed");
}

#[test]
fn close_force_follows_delete_unless_said() {
    let s = settings();
    let q = plan_close_worktree(&s, " oretachi-abcd ", None, None, None, None).unwrap();
    assert_eq!((q.worktree_id.as_str(), q.merge_to.as_str(), q.delete_branch, q.force_branch), ("wt-1", "", false, false));
    let q = plan_close_worktree(&s, "oretachi-abcd", None, Some("main".into()), Some(true), None).unwrap();
    assert_eq!((q.merge_to.as_str(), q.delete_branch, q.force_branch), ("main", true, true));
    let q = plan_close_worktree(&s, "oretachi-abcd", None, None, Some(true), Some(false)).unwrap();
    assert_eq!((q.delete_branch, q.force_branch), (true, false));
}

#[test]
fn close_answers_each_outcome() {
    let done = |w: CloseWait| match close_answer(w, "wt-a") {
        CloseAnswer::Done(t) => t,
        CloseAnswer::Failed(t) => panic!("failed: {}", t),
    };
    assert_eq!(done(CloseWait::Answered(CloseWorktreeOutcome::Closed)), "ワークツリー 'wt-a' をクローズしました。");
    assert!(done(CloseWait::Answered(CloseWorktreeOutcome::Cancelled)).contains("キャンセルされました"));
    assert!(done(CloseWait::Answered(CloseWorktreeOutcome::Busy)).contains("既にクローズ処理中です"));
    assert!(done(CloseWait::Dropped).contains("結果を受け取れませんでした"));
    assert!(done(CloseWait::TimedOut).contains("時間内に完了しませんでした"));
    match close_answer(CloseWait::Answered(CloseWorktreeOutcome::Failed("busy disk".into())), "wt-a") {
        CloseAnswer::Failed(t) => assert_eq!(t, "ワークツリー 'wt-a' のクローズに失敗しました: busy disk"),
        CloseAnswer::Done(t) => panic!("done: {}", t),
    }
}

#[test]
fn add_task_goes_to_the_named_or_default_workgroup() {
    let s = settings();
    let q = plan_add_task(&s, "  build it ", None, None, None).unwrap();
    assert_eq!((q.prompt.as_str(), q.remote_exec, q.workgroup_id.as_deref()), ("build it", false, Some("wg-1")));
    let q = plan_add_task(&s, "x", Some(true), None, Some("Bug Fix")).unwrap();
    assert_eq!((q.remote_exec, q.workgroup_id.as_deref()), (true, Some("wg-2")));
    assert_eq!(plan_add_task(&s, " \n ", None, None, None).unwrap_err().message, "prompt must not be empty");
    assert!(plan_add_task(&s, "x", None, Some("wg-none"), None).is_err());
    let q = plan_add_task(&AppSettings::default(), "x", None, None, None).unwrap();
    assert_eq!(q.workgroup_id, None);
}

#[test]
fn spawn_needs_a_name_and_a_command() {
    let s = settings();
    assert_eq!(plan_spawn_terminal(&s, " ", None, "ls").unwrap_err().message, "worktree_name must not be empty");
    assert_eq!(plan_spawn_terminal(&s, "oretachi-abcd", None, "  ").unwrap_err().message, "command must not be empty");
    assert_eq!(plan_spawn_terminal(&s, "oretachi-abcd", None, "pnpm dev").unwrap().id, "wt-1");
    assert_eq!(plan_spawn_terminal(&s, "ignored", Some("wt-2"), "pnpm dev").unwrap().id, "wt-2");
}

#[test]
fn show_answers_with_the_worktree_name() {
    let s = settings();
    let q = plan_show_worktree(&s, None, Some("wt-2")).unwrap();
    assert_eq!(q.worktree_id, "wt-2");
    assert_eq!(q.reply, "ワークツリー 'oretachi-efgh' を表示しました。");
    assert_eq!(plan_show_worktree(&s, None, None).unwrap_err().message, "specify one of worktree_name / worktree_id");
}

#[test]
fn terminal_filter_only_when_asked() {
    let s = settings();
    assert_eq!(terminal_filter(&s, None, Some("  ")).unwrap(), None);
    assert_eq!(terminal_filter(&s, Some("oretachi-efgh"), None).unwrap().as_deref(), Some("wt-2"));
    assert!(terminal_filter(&s, Some("nope"), None).is_err());
}

#[test]
fn deepest_match_prefers_the_longest_and_the_last_on_ties() {
    assert_eq!(deepest_match(&vec![]), None);
    assert_eq!(deepest_match(&vec![None, None]), None);
    assert_eq!(deepest_match(&vec![Some(2), None, Some(3), Some(1)]), Some(2));
    assert_eq!(deepest_match(&vec![Some(3), Some(3)]), Some(1));
}

#[test]
fn cwd_resolves_to_the_deepest_worktree_containing_it() {
    let mut s = settings();
    s.worktrees[2].path = "/wt".into();
    assert_eq!(resolve_worktree_by_cwd(&s, "/wt/abcd/src/lib").worktree, Some(0));
    assert_eq!(resolve_worktree_by_cwd(&s, "/wt/efgh").worktree, Some(1));
    assert_eq!(resolve_worktree_by_cwd(&s, "/wt/other").worktree, Some(2));
    // a common text prefix is no path prefix
    assert_eq!(resolve_worktree_by_cwd(&s, "/wt/abcdef").worktree, Some(2));
    assert_eq!(resolve_worktree_by_cwd(&s, "/elsewhere").worktree, None);
}

#[test]
fn a_cleared_worktree_shows_no_notifications() {
    let s = settings();
    let mut n = NotificationRegistry::new();
    n.insert("wt-1".into(), NotificationSnapshot { count: 3, kind: "completed".into(), first_notified_at: 5 });
    n.insert("wt-2".into(), NotificationSnapshot { count: 1, kind: "general".into(), first_notified_at: 6 });
    let cleared = n.take("wt-1").map(|x| x.count).unwrap_or(0);
    assert_eq!(cleared, 3);
    let rows = worktree_status(&s, &n, Some("abcd"));
    assert_eq!(rows[0].notification_count, 0);
    assert_eq!(rows[0].notification_kind, None);
    let listing = oretachi::notifications::list_notifications(&s, &n);
    assert_eq!(listing.items.len(), 1);
    assert_eq!(listing.items[0].worktree_id, "wt-2");
    assert_eq!(n.take("wt-1").map(|x| x.count).unwrap_or(0), 0);
}

#[test]
fn cwd_resolution_keeps_the_answers_it_rests_on() {
    let mut s = settings();
    s.worktrees[2].path = "/wt".into();
    let r = resolve_worktree_by_cwd(&s, "/wt/abcd/src");
    assert_eq!(r.candidates.len(), 4);
    assert!(r.candidates[0].prefix.is_accepted());
    assert!(!r.candidates[1].prefix.is_accepted());
    assert!(r.candidates[1].depth.is_none());
    assert!(r.candidates[2].prefix.is_accepted());
    assert!(!r.candidates[3].prefix.is_accepted());
    // "/wt/abcd" has more components than "/wt"
    let d0 = r.candidates[0].depth.as_ref().unwrap().components();
    let d2 = r.candidates[2].depth.as_ref().unwrap().components();
    assert!(d0 > d2);
    assert_eq!(r.worktree, Some(0));
}
