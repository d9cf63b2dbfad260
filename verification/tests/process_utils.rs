use oretachi::process_utils::{
    cwd_within, find_processes_by_cwd, kill_external_processes_in_dir, login_shell_additions, merge_paths,
    normalize_path_for_cmp, shell_path_from_output, CancellableManager, ProcessCwd, WorktreeRemoveManager,
};

fn chars(s: &str) -> Vec<char> {
    s.chars().collect()
}

#[test]
fn path_normalization_folds_separators_case_and_trailing_slashes() {
    assert_eq!(normalize_path_for_cmp("C:\\Work\\Repo\\"), "c:/work/repo");
    assert_eq!(normalize_path_for_cmp("/home/A//"), "/home/a");
    assert_eq!(normalize_path_for_cmp(""), "");
}

#[test]
fn cwd_within_requires_a_separator_after_the_target() {
    assert!(cwd_within(&chars("c:/work/repo"), &chars("c:/work/repo")));
    assert!(cwd_within(&chars("c:/work/repo/src"), &chars("c:/work/repo")));
    assert!(cwd_within(&chars("c:/work/repo\\src"), &chars("c:/work/repo")));
    assert!(!cwd_within(&chars("c:/work/repo2"), &chars("c:/work/repo")));
    assert!(!cwd_within(&chars("c:/work"), &chars("c:/work/repo")));
}

#[test]
fn processes_in_dir_exclude_ours_and_pid_zero() {
    let procs = vec![
        ProcessCwd { pid: 10, cwd: Some("C:\\Work\\Repo\\src".into()) },
        ProcessCwd { pid: 11, cwd: Some("C:\\Work\\Repo2".into()) },
        ProcessCwd { pid: 12, cwd: None },
        ProcessCwd { pid: 0, cwd: Some("c:/work/repo".into()) },
        ProcessCwd { pid: 99, cwd: Some("c:/work/repo".into()) },
        ProcessCwd { pid: 13, cwd: Some("c:/WORK/repo/".into()) },
    ];
    assert_eq!(find_processes_by_cwd("c:/work/repo", &procs, 99), vec![10, 13]);
    assert_eq!(kill_external_processes_in_dir("C:\\Work\\Repo", &procs, 99), vec![10, 13]);
}

#[test]
fn merge_paths_drops_empty_and_repeated_entries() {
    assert_eq!(merge_paths("/usr/bin: /bin::/usr/bin", "/opt/bin:/bin"), "/usr/bin:/bin:/opt/bin");
    assert_eq!(merge_paths("", ""), "");
}

#[test]
fn cancellable_manager_tracks_pids_by_key() {
    let mut m = CancellableManager::new();
    assert_eq!(m.is_in_progress("k"), Ok(false));
    m.register("k".to_string(), 42).unwrap();
    assert_eq!(m.is_in_progress("k"), Ok(true));
    assert_eq!(m.cancel("k"), Ok(Some(42)));
    assert_eq!(m.is_in_progress("k"), Ok(false));
    assert_eq!(m.remove("k"), Ok(None));
}

#[test]
fn worktree_remove_flags_are_cancelled_by_key() {
    let mut m = WorktreeRemoveManager::new();
    let a = m.create_cancel_flag("wt");
    assert!(!m.is_cancelled(a));
    assert!(m.cancel("wt"));
    assert!(m.is_cancelled(a));
    // a new removal under the same key gets a fresh flag; the old one stays cancelled
    let b = m.create_cancel_flag("wt");
    assert_ne!(a, b);
    assert!(!m.is_cancelled(b));
    assert!(m.is_cancelled(a));
    m.release(a);
    m.remove("wt");
    assert!(!m.cancel("wt"));
    m.release(b);
    assert!(!m.is_cancelled(b));
}

#[test]
fn cancelling_one_key_leaves_the_other_removals_alone() {
    let mut m = WorktreeRemoveManager::new();
    let a = m.create_cancel_flag("/w/one");
    let b = m.create_cancel_flag("/w/two");
    assert!(m.cancel("/w/one"));
    assert!(m.is_cancelled(a));
    assert!(!m.is_cancelled(b));
    // a later removal under the first key: cancelling it does not touch the second key's flag
    let c = m.create_cancel_flag("/w/one");
    assert!(m.cancel("/w/one"));
    assert!(m.is_cancelled(c));
    assert!(!m.is_cancelled(b));
    // an earlier, unset flag of a key stays unset after the key is reused and cancelled
    let d = m.create_cancel_flag("/w/two");
    assert!(m.cancel("/w/two"));
    assert!(m.is_cancelled(d));
    assert!(!m.is_cancelled(b));
    m.remove("/w/one");
    assert!(!m.cancel("/w/one"));
    assert!(m.is_cancelled(c));
}

#[test]
fn login_shell_path_is_the_last_non_blank_line_with_a_slash() {
    assert_eq!(shell_path_from_output("Welcome!\n/usr/bin:/bin\n\n").as_deref(), Some("/usr/bin:/bin"));
    assert_eq!(shell_path_from_output("  /a:/b  \r\n").as_deref(), Some("/a:/b"));
    assert!(shell_path_from_output("/usr/bin\nno slash here\n").is_none());
    assert!(shell_path_from_output("").is_none());
}

#[test]
fn login_shell_additions_always_carry_the_well_known_directories() {
    assert_eq!(
        login_shell_additions(Some("/x/bin"), "/home/u"),
        "/x/bin:/home/u/.local/bin:/usr/local/bin:/opt/homebrew/bin:/home/u/.cargo/bin"
    );
    assert_eq!(
        login_shell_additions(None, "/h"),
        "/h/.local/bin:/usr/local/bin:/opt/homebrew/bin:/h/.cargo/bin"
    );
}
