use oretachi::import::{
    import_answer, import_candidates, import_repositories, pick_import_target, registered_paths, FoundWorktree,
    GitWorktreeInfo, ImportAnswer,
};
use oretachi::server::ImportWorktreeOutcome;
use oretachi::settings::{AppSettings, Repository, WorktreeEntry};

fn settings() -> AppSettings {
    let mut s = AppSettings::default();
    s.repositories = vec![
        Repository { id: "r-1".into(), name: "OreTachi".into(), path: "/src/oretachi".into(), notification_hooks: None, branch_name_pattern: None },
        Repository { id: "r-2".into(), name: "Other".into(), path: "/src/other".into(), notification_hooks: None, branch_name_pattern: None },
    ];
    s.worktrees = vec![WorktreeEntry { id: "wt-1".into(), name: "a".into(), path: "/wt/a/".into(), ..Default::default() }];
    s
}

fn found(path: &str) -> FoundWorktree {
    FoundWorktree {
        repository_id: "r-1".into(),
        repository_name: "OreTachi".into(),
        info: GitWorktreeInfo {
            path: path.into(),
            branch: Some("feature".into()),
            detached: false,
            bare: false,
            is_main: false,
            prunable: false,
        },
    }
}

#[test]
fn import_searches_the_named_repository_or_all() {
    let s = settings();
    assert_eq!(import_repositories(&s, None).unwrap(), vec![0, 1]);
    assert_eq!(import_repositories(&s, Some(" Other ")).unwrap(), vec![1]);
    assert_eq!(import_repositories(&s, Some("  ")).unwrap(), vec![0, 1]);
    assert_eq!(
        import_repositories(&s, Some("nope")).unwrap_err().message,
        "repository 'nope' not found. available: [OreTachi, Other]"
    );
    let empty = AppSettings::default();
    assert_eq!(import_repositories(&empty, None).unwrap_err().message, "no repository is registered in oretachi");
}

#[test]
fn import_skips_known_main_bare_and_prunable_worktrees() {
    let s = settings();
    let taken = registered_paths(&s, &vec![0]);
    assert!(taken.contains(&"/wt/a".to_string()));
    assert!(taken.contains(&"/src/oretachi".to_string()));
    let mut main = found("/src/oretachi/sub");
    main.info.is_main = true;
    let mut bare = found("/x/bare");
    bare.info.bare = true;
    let mut gone = found("/x/gone");
    gone.info.prunable = true;
    let cands = import_candidates(
        vec![found("/wt/a"), main, found("/wt/new"), bare, gone, found("/src/oretachi")],
        &taken,
        false,
    );
    let paths: Vec<&str> = cands.iter().map(|c| c.info.path.as_str()).collect();
    assert_eq!(paths, vec!["/wt/new"]);
    assert_eq!(pick_import_target(&cands, " /wt/new/ ", false).unwrap(), 0);
    assert_eq!(
        pick_import_target(&cands, "/wt/zzz", false).unwrap_err().message,
        "'/wt/zzz' is not an unregistered worktree of any registered repository. call this tool without path to list candidates"
    );
}

#[test]
fn import_answers_follow_the_ui_outcome() {
    assert!(matches!(
        import_answer("new", "/wt/new", Some(ImportWorktreeOutcome::Imported("wt-9".into()))),
        ImportAnswer::Done(t) if t == "ワークツリー 'new' (/wt/new) を登録しました。id=wt-9"
    ));
    assert!(matches!(
        import_answer("new", "/wt/new", Some(ImportWorktreeOutcome::AlreadyRegistered)),
        ImportAnswer::Done(t) if t == "'/wt/new' は既に登録済みでした。"
    ));
    assert!(matches!(
        import_answer("new", "/wt/new", Some(ImportWorktreeOutcome::Failed("x".into()))),
        ImportAnswer::Failed(t) if t == "取り込みに失敗しました: x"
    ));
    assert!(matches!(import_answer("new", "/wt/new", None), ImportAnswer::Failed(t) if t.contains("30 秒以内")));
}
