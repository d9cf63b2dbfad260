use oretachi::grants::{check_not_self_subscription, check_subscription_request, subscription_expiry};
use oretachi::grants::{
    cross_worktree_dest_targets, find_cross_worktree_grant, resolve_workgroup, target_specificity,
    CrossWorktreeGrant, SubscriptionRow, DELIVERY_TURN_END,
};
use oretachi::settings::{resolve_tray_notification, AppSettings, Repository, Workgroup, WorktreeEntry};
use oretachi::targets::{
    describe_target, matching_targets, normalize_target, resolve_subscription_target, STATE_ACTIVE, STATE_ORPHANED,
};
use oretachi::workgroups::{default_workgroup_id, resolve_workgroup_target, workgroup_display_name};

fn wg_settings() -> AppSettings {
    let mut settings = AppSettings::default();
    settings.workgroups = vec![
        Workgroup { id: "wg-1".into(), name: None, ..Default::default() },
        Workgroup { id: "wg-2".into(), name: Some("リリース準備".into()), ..Default::default() },
        Workgroup { id: "wg-3".into(), name: Some("Bug Fix".into()), ..Default::default() },
    ];
    settings
}

fn target_settings() -> AppSettings {
    let mut settings = wg_settings();
    settings.repositories = vec![Repository {
        id: "r-1".into(),
        name: "OreTachi".into(),
        path: "X:/repo".into(),
        notification_hooks: None,
        branch_name_pattern: None,
    }];
    settings.worktrees = vec![WorktreeEntry {
        id: "wt-1".into(),
        name: "oretachi-abcd".into(),
        repository_id: "r-1".into(),
        repository_name: "OreTachi".into(),
        path: "X:/wt".into(),
        branch_name: "feature/x".into(),
        description: None,
        workgroup_id: Some("wg-2".into()),
        tray_notification: None,
        is_home: false,
        is_repository: false,
    }];
    settings
}

fn dest_settings() -> AppSettings {
    let mut settings = target_settings();
    let base = settings.worktrees[0].clone();
    settings.worktrees.push(WorktreeEntry {
        id: "wt-nogroup".into(),
        name: "oretachi-nogroup".into(),
        workgroup_id: None,
        ..base.clone()
    });
    settings.worktrees.push(WorktreeEntry {
        id: "wt-home".into(),
        name: "HOME".into(),
        repository_name: String::new(),
        path: "X:/wt".into(),
        is_home: true,
        ..base.clone()
    });
    settings.worktrees.push(WorktreeEntry {
        id: "wt-repo".into(),
        name: "OreTachi (repo)".into(),
        path: "D:/git/oretachi".into(),
        is_repository: true,
        ..base
    });
    settings
}

fn sub(id: &str, subscriber_worktree_id: &str, target: &str) -> SubscriptionRow {
    SubscriptionRow {
        id: id.into(),
        subscriber_terminal_id: format!("term-{}", id),
        subscriber_worktree_id: Some(subscriber_worktree_id.into()),
        subscriber_agent_session: None,
        target: target.into(),
        event_kinds: r#"["worktree.closed"]"#.into(),
        delivery: DELIVERY_TURN_END.into(),
        spawn_if_closed: 0,
        created_at: 0,
        expires_at: None,
        state: STATE_ACTIVE.into(),
        orphaned_at: None,
    }
}

fn dest_targets() -> Vec<String> {
    matching_targets("dest", Some("wg-1"), Some("oretachi"))
}

fn grant(subs: &[SubscriptionRow]) -> Option<CrossWorktreeGrant> {
    find_cross_worktree_grant(subs, "caller", "dest", &dest_targets(), 1_000)
}

#[test]
fn workgroup_display_name_matches_ui_fallback() {
    let mut settings = AppSettings::default();
    settings.workgroups = vec![
        Workgroup { id: "wg-1".into(), name: None, ..Default::default() },
        Workgroup { id: "wg-2".into(), name: Some("  ".into()), ..Default::default() },
        Workgroup { id: "wg-3".into(), name: Some("リリース準備".into()), ..Default::default() },
    ];
    assert_eq!(workgroup_display_name(&settings, &settings.workgroups[0]), "グループ(1)");
    assert_eq!(workgroup_display_name(&settings, &settings.workgroups[1]), "グループ(2)");
    assert_eq!(workgroup_display_name(&settings, &settings.workgroups[2]), "リリース準備");
    settings.locale = Some("en".into());
    assert_eq!(workgroup_display_name(&settings, &settings.workgroups[0]), "Group (1)");
}

#[test]
fn workgroup_display_name_counts_past_nine() {
    let mut settings = AppSettings::default();
    for i in 0..12 {
        settings.workgroups.push(Workgroup { id: format!("g{}", i), ..Default::default() });
    }
    assert_eq!(workgroup_display_name(&settings, &settings.workgroups[11]), "グループ(12)");
    // a group that is not in the list counts as the first
    let stray = Workgroup { id: "elsewhere".into(), ..Default::default() };
    assert_eq!(workgroup_display_name(&settings, &stray), "グループ(1)");
}

#[test]
fn resolve_workgroup_target_defaults_to_none() {
    let settings = wg_settings();
    assert_eq!(resolve_workgroup_target(&settings, None, None), Ok(None));
    assert_eq!(resolve_workgroup_target(&settings, Some(""), Some("  ")), Ok(None));
}

#[test]
fn default_workgroup_id_is_first_group() {
    let settings = wg_settings();
    assert_eq!(default_workgroup_id(&settings), Some("wg-1".to_string()));
    let mut empty = wg_settings();
    empty.workgroups.clear();
    assert_eq!(default_workgroup_id(&empty), None);
}

#[test]
fn resolve_workgroup_target_matches_id_and_name() {
    let settings = wg_settings();
    assert_eq!(resolve_workgroup_target(&settings, Some("wg-2"), Some("Bug Fix")), Ok(Some("wg-2".into())));
    assert_eq!(resolve_workgroup_target(&settings, None, Some("リリース準備")), Ok(Some("wg-2".into())));
    assert_eq!(resolve_workgroup_target(&settings, None, Some("  bug fix  ")), Ok(Some("wg-3".into())));
    assert_eq!(resolve_workgroup_target(&settings, None, Some("グループ(1)")), Ok(Some("wg-1".into())));
}

#[test]
fn resolve_workgroup_target_errors_instead_of_falling_back() {
    let settings = wg_settings();
    let err = resolve_workgroup_target(&settings, Some("wg-404"), None).unwrap_err();
    assert!(err.contains("wg-404"), "{}", err);
    assert!(err.contains("リリース準備 (wg-2)"), "{}", err);
    let err = resolve_workgroup_target(&settings, None, Some("存在しない")).unwrap_err();
    assert!(err.contains("存在しない"), "{}", err);
    assert!(err.contains("グループ(1) (wg-1)"), "{}", err);
}

#[test]
fn resolve_workgroup_target_error_text_is_exact() {
    let settings = wg_settings();
    assert_eq!(
        resolve_workgroup_target(&settings, Some("wg-404"), None),
        Err("workgroup_id 'wg-404' に一致するワークグループがありません。利用可能: グループ(1) (wg-1), リリース準備 (wg-2), Bug Fix (wg-3)".to_string())
    );
    let none = AppSettings::default();
    assert_eq!(
        resolve_workgroup_target(&none, None, Some("x")),
        Err("workgroup_name 'x' に一致するワークグループがありません。利用可能: (ワークグループが未定義です)".to_string())
    );
}

#[test]
fn resolve_workgroup_target_rejects_ambiguous_name() {
    let mut settings = wg_settings();
    settings.workgroups.push(Workgroup { id: "wg-4".into(), name: Some("リリース準備".into()), ..Default::default() });
    let err = resolve_workgroup_target(&settings, None, Some("リリース準備")).unwrap_err();
    assert!(err.contains("複数"), "{}", err);
    assert!(err.contains("workgroup_id"), "{}", err);
}

#[test]
fn resolve_subscription_target_accepts_wildcards() {
    let settings = target_settings();
    let all = resolve_subscription_target(&settings, " * ").ok().unwrap();
    assert_eq!(all.stored, "*");
    assert!(all.worktree_id.is_none());
    for raw in ["workgroup:wg-2", "workgroup: リリース準備 "] {
        let g = resolve_subscription_target(&settings, raw).ok().unwrap();
        assert_eq!(g.stored, "workgroup:wg-2", "{}", raw);
        assert!(g.label.contains("リリース準備"), "{}", g.label);
        assert!(g.worktree_id.is_none());
    }
    let r = resolve_subscription_target(&settings, "repo:oreTACHI").ok().unwrap();
    assert_eq!(r.stored, "repo:oretachi");
    assert!(r.label.contains("OreTachi"), "{}", r.label);
    assert!(r.worktree_id.is_none());
    let w = resolve_subscription_target(&settings, "oretachi-abcd").ok().unwrap();
    assert_eq!(w.stored, "wt-1");
    assert_eq!(w.worktree_id.as_deref(), Some("wt-1"));
}

#[test]
fn resolve_subscription_target_handles_non_ascii_repo_name() {
    let mut settings = target_settings();
    settings.repositories[0].name = "テストRepo".into();
    settings.worktrees[0].repository_name = "テストRepo".into();
    let r = resolve_subscription_target(&settings, "repo:テストREPO").ok().unwrap();
    assert_eq!(r.stored, "repo:テストrepo");
    assert!(r.label.contains("テストRepo"), "{}", r.label);
    assert_eq!(describe_target(&settings, &r.stored), ("repo".to_string(), Some("テストRepo".to_string())));
    assert!(matching_targets("wt-1", None, Some("テストRepo")).contains(&r.stored));
}

#[test]
fn resolve_subscription_target_agrees_with_matching_targets() {
    let settings = target_settings();
    let wt = &settings.worktrees[0];
    let group = resolve_workgroup(&settings, wt).map(|g| settings.workgroups[g].id.clone());
    let targets = matching_targets(&wt.id, group.as_deref(), Some(&wt.repository_name));
    for raw in ["*", "workgroup:wg-2", "repo:OreTachi", "oretachi-abcd"] {
        let resolved = resolve_subscription_target(&settings, raw).ok().unwrap();
        assert!(targets.contains(&resolved.stored), "target '{}' -> '{}' が {:?} に含まれない", raw, resolved.stored, targets);
    }
}

#[test]
fn resolve_subscription_target_rejects_unknown_wildcards() {
    let settings = target_settings();
    assert!(resolve_subscription_target(&settings, "repo:").is_err());
    assert!(resolve_subscription_target(&settings, "workgroup:").is_err());
    let err = resolve_subscription_target(&settings, "repo:unknown").err().expect("未知のリポジトリはエラー");
    assert!(format!("{:?}", err).contains("OreTachi"), "利用可能な候補を添える");
}

#[test]
fn describe_target_distinguishes_wildcards_from_closed_worktree() {
    let settings = target_settings();
    assert_eq!(describe_target(&settings, "*"), ("all".to_string(), None));
    let (kind, label) = describe_target(&settings, "workgroup:wg-1");
    assert_eq!(kind, "workgroup");
    assert_eq!(label.as_deref(), Some("グループ(1)"));
    assert_eq!(describe_target(&settings, "repo:oretachi"), ("repo".to_string(), Some("OreTachi".to_string())));
    assert_eq!(describe_target(&settings, "wt-1"), ("worktree".to_string(), Some("oretachi-abcd".to_string())));
    assert_eq!(describe_target(&settings, "wt-gone"), ("worktree".to_string(), None));
}

#[test]
fn set_tray_notification_new_effective_ignores_workgroup_default() {
    let mut settings = AppSettings::default();
    settings.workgroups.push(Workgroup { id: "g".into(), tray_notification: Some(false), ..Default::default() });
    let wt = WorktreeEntry {
        id: "wt-1".into(),
        name: "oretachi-abcd".into(),
        repository_id: "r-1".into(),
        repository_name: "OreTachi".into(),
        path: "X:/wt".into(),
        branch_name: "feature/x".into(),
        description: None,
        workgroup_id: Some("g".into()),
        tray_notification: Some(true),
        is_home: false,
        is_repository: false,
    };
    assert!(resolve_tray_notification(&wt));
    assert_eq!(settings.workgroups[0].tray_notification, Some(false));
    let mut probe = wt.clone();
    probe.tray_notification = None;
    assert!(resolve_tray_notification(&probe));
    probe.tray_notification = Some(false);
    assert!(!resolve_tray_notification(&probe));
}

#[test]
fn cross_worktree_grant_accepts_exact_target() {
    let g = grant(&[sub("s1", "caller", "dest")]).expect("購読済みなら許可される");
    assert_eq!(g.subscription_id, "s1");
    assert_eq!(g.target, "dest");
}

#[test]
fn cross_worktree_grant_accepts_wildcard_targets() {
    for target in ["*", "workgroup:wg-1", "repo:oretachi"] {
        assert!(grant(&[sub("s1", "caller", target)]).is_some(), "{} は許可されるべき", target);
    }
}

#[test]
fn cross_worktree_grant_rejects_wildcards_for_other_scopes() {
    for target in ["workgroup:wg-other", "repo:other", "other-worktree"] {
        assert!(grant(&[sub("s1", "caller", target)]).is_none(), "{} は拒否されるべき", target);
    }
}

#[test]
fn cross_worktree_grant_rejects_reverse_subscription() {
    assert!(grant(&[sub("s1", "dest", "caller")]).is_none());
    assert!(grant(&[sub("s1", "dest", "*")]).is_none());
}

#[test]
fn cross_worktree_grant_ignores_event_kinds() {
    let mut s = sub("s1", "caller", "dest");
    s.event_kinds = r#"[]"#.into();
    assert!(grant(&[s]).is_some());
}

#[test]
fn cross_worktree_grant_matches_fanout_state_and_expiry() {
    let mut orphaned = sub("s1", "caller", "dest");
    orphaned.state = STATE_ORPHANED.into();
    assert!(grant(&[orphaned]).is_some(), "orphaned は許可");
    let mut expired = sub("s2", "caller", "dest");
    expired.expires_at = Some(999);
    assert!(grant(&[expired]).is_none(), "期限切れは拒否");
    let mut alive = sub("s3", "caller", "dest");
    alive.expires_at = Some(1_001);
    assert!(grant(&[alive]).is_some(), "期限内は許可");
}

#[test]
fn cross_worktree_grant_rejects_subscription_without_subscriber_worktree() {
    let mut s = sub("s1", "caller", "dest");
    s.subscriber_worktree_id = None;
    assert!(grant(&[s]).is_none());
}

#[test]
fn dest_targets_include_worktree_group_and_repo() {
    let t = cross_worktree_dest_targets(&dest_settings(), "wt-1");
    assert_eq!(t, vec!["wt-1", "*", "workgroup:wg-2", "repo:oretachi"]);
}

#[test]
fn dest_targets_fall_back_to_the_first_workgroup() {
    let t = cross_worktree_dest_targets(&dest_settings(), "wt-nogroup");
    assert!(t.contains(&"workgroup:wg-1".to_string()), "{:?}", t);
}

#[test]
fn dest_targets_for_pseudo_worktrees_only_match_wildcards() {
    let settings = dest_settings();
    let home = cross_worktree_dest_targets(&settings, "wt-home");
    assert_eq!(home, vec!["wt-home", "*", "workgroup:wg-2"]);
    let repo = cross_worktree_dest_targets(&settings, "wt-repo");
    assert!(repo.contains(&"repo:oretachi".to_string()), "{:?}", repo);
    for id in ["wt-home", "wt-repo"] {
        let name = &settings.worktrees.iter().find(|w| w.id == id).unwrap().name;
        assert!(resolve_subscription_target(&settings, name).is_err(), "{} は厳密一致では購読できないはず", name);
    }
    assert!(find_cross_worktree_grant(
        &[sub("s1", "caller", "*")],
        "caller",
        "wt-repo",
        &cross_worktree_dest_targets(&settings, "wt-repo"),
        1_000,
    )
    .is_some());
}

#[test]
fn dest_targets_for_unknown_worktree_keep_exact_and_all() {
    let mut settings = dest_settings();
    settings.workgroups.clear();
    let t = cross_worktree_dest_targets(&settings, "gone");
    assert_eq!(t, vec!["gone", "*"]);
}

#[test]
fn cross_worktree_grant_prefers_the_most_specific_subscription() {
    let subs = vec![
        sub("wild", "caller", "*"),
        sub("repo", "caller", "repo:oretachi"),
        sub("group", "caller", "workgroup:wg-1"),
        sub("exact", "caller", "dest"),
    ];
    assert_eq!(grant(&subs).unwrap().subscription_id, "exact");
    assert_eq!(grant(&subs[..3]).unwrap().subscription_id, "group");
    assert_eq!(grant(&subs[..2]).unwrap().subscription_id, "repo");
    assert_eq!(grant(&subs[..1]).unwrap().subscription_id, "wild");
}

#[test]
fn cross_worktree_grant_keeps_the_first_among_equally_specific() {
    let subs = vec![sub("a", "caller", "*"), sub("b", "caller", "*")];
    assert_eq!(grant(&subs).unwrap().subscription_id, "a");
}

#[test]
fn target_specificity_orders_exact_group_repo_all() {
    assert_eq!(target_specificity("dest", "dest"), 0);
    assert_eq!(target_specificity("workgroup:wg-1", "dest"), 1);
    assert_eq!(target_specificity("repo:x", "dest"), 2);
    assert_eq!(target_specificity("*", "dest"), 3);
    assert_eq!(target_specificity("other", "dest"), 3);
}

#[test]
fn normalize_target_lowercases_repository_names_only() {
    assert_eq!(normalize_target("  repo:OreTachi "), "repo:oretachi");
    assert_eq!(normalize_target("workgroup:WG-2"), "workgroup:WG-2");
    assert_eq!(normalize_target(" wt-1 "), "wt-1");
}

#[test]
fn pseudo_worktree_error_names_the_kind() {
    let settings = dest_settings();
    let err = resolve_subscription_target(&settings, "HOME").err().unwrap();
    assert_eq!(err.message, "'HOME' はホーム擬似ワークツリーでクローズされることがないため購読できません");
    let err = resolve_subscription_target(&settings, "OreTachi (repo)").err().unwrap();
    assert_eq!(err.message, "'OreTachi (repo)' はリポジトリ擬似ワークツリーでクローズされることがないため購読できません");
}

#[test]
fn subscription_requests_are_checked_before_storing() {
    let deliveries = vec!["turn_end".to_string(), "immediate".to_string()];
    let kinds = vec!["worktree.closed".to_string()];
    let (t, d) = check_subscription_request("  wt-2 ", &kinds, None, None, &deliveries).unwrap();
    assert_eq!((t.as_str(), d.as_str()), ("wt-2", "turn_end"));
    assert_eq!(
        check_subscription_request(" ", &kinds, None, None, &deliveries).unwrap_err().message,
        "target must not be empty"
    );
    assert_eq!(
        check_subscription_request("x", &vec![], None, None, &deliveries).unwrap_err().message,
        "event_kinds must not be empty"
    );
    let bad = vec!["hook".to_string(), "nope".to_string(), "zzz".to_string()];
    assert_eq!(
        check_subscription_request("x", &bad, None, None, &deliveries).unwrap_err().message,
        "イベント種別 'nope' は未対応です。対応種別: [general, hook, approval, completed, worktree.message, worktree.created, worktree.closed]"
    );
    assert_eq!(
        check_subscription_request("x", &kinds, Some("later"), None, &deliveries).unwrap_err().message,
        "delivery 'later' は未対応です。対応値: [turn_end, immediate]"
    );
    assert!(check_subscription_request("x", &kinds, Some("immediate"), Some(0), &deliveries).is_err());
    assert!(check_subscription_request("x", &kinds, Some(" immediate "), Some(60), &deliveries).is_ok());

    assert_eq!(subscription_expiry(1_000, None), None);
    assert_eq!(subscription_expiry(1_000, Some(60)), Some(61_000));
    assert_eq!(subscription_expiry(1_000, Some(i64::MAX)), Some(i64::MAX));

    assert!(check_not_self_subscription(Some("wt-1"), "wt-1", "ワークツリー 'a'").is_err());
    assert!(check_not_self_subscription(Some("wt-2"), "wt-1", "ワークツリー 'a'").is_ok());
    assert!(check_not_self_subscription(None, "wt-1", "*").is_ok());
}

#[test]
fn every_way_of_naming_a_target_reaches_the_worktree_and_describes_back() {
    let settings = target_settings();
    let wt = &settings.worktrees[0];
    let group = resolve_workgroup(&settings, wt).map(|g| settings.workgroups[g].id.clone());
    let targets = matching_targets(&wt.id, group.as_deref(), Some(&wt.repository_name));
    let cases = [
        ("*", ("all", None)),
        (" workgroup:wg-2 ", ("workgroup", Some("リリース準備"))),
        ("workgroup:リリース準備", ("workgroup", Some("リリース準備"))),
        ("repo:oretachi", ("repo", Some("OreTachi"))),
        ("repo:ORETACHI", ("repo", Some("OreTachi"))),
        ("oretachi-abcd", ("worktree", Some("oretachi-abcd"))),
        ("wt-1", ("worktree", Some("oretachi-abcd"))),
    ];
    for (raw, (kind, label)) in cases {
        let resolved = resolve_subscription_target(&settings, raw).ok().unwrap();
        assert!(targets.contains(&resolved.stored), "{} -> {}", raw, resolved.stored);
        let (k, l) = describe_target(&settings, &resolved.stored);
        assert_eq!((k.as_str(), l.as_deref()), (kind, label), "{}", raw);
    }
}
