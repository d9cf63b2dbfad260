use oretachi::hook_context::{
    description_target, digest_ack_id, prompt_description, session_prompt, PromptContextThrottle,
};
use oretachi::settings::{AppSettings, Workgroup, WorktreeEntry};

fn settings() -> AppSettings {
    let mut s = AppSettings::default();
    s.workgroups = vec![
        Workgroup { id: "wg-1".into(), system_prompt: Some("default group prompt".into()), ..Default::default() },
        Workgroup { id: "wg-2".into(), system_prompt: Some("   ".into()), ..Default::default() },
    ];
    s.worktrees = vec![
        WorktreeEntry { id: "wt-1".into(), name: "one".into(), path: "/wt/one".into(), description: Some("doing one".into()), ..Default::default() },
        WorktreeEntry { id: "wt-2".into(), name: "two".into(), path: "/wt/two".into(), workgroup_id: Some("wg-2".into()), ..Default::default() },
        WorktreeEntry { id: "home".into(), name: "HOME".into(), path: "/wt".into(), is_home: true, ..Default::default() },
        WorktreeEntry { id: "repo".into(), name: "Repo".into(), path: "/src/repo".into(), is_repository: true, ..Default::default() },
    ];
    s
}

#[test]
fn session_prompt_comes_from_the_workgroup() {
    let s = settings();
    assert_eq!(session_prompt(&s, Some("/wt/one/"), "home agent").as_deref(), Some("default group prompt"));
    // a blank group prompt is no prompt
    assert_eq!(session_prompt(&s, Some("/wt/two"), "home agent"), None);
}

#[test]
fn session_prompt_of_pseudo_worktrees() {
    let s = settings();
    assert_eq!(session_prompt(&s, Some("/wt"), "home agent").as_deref(), Some("home agent"));
    assert_eq!(session_prompt(&s, Some("/wt"), "  "), None);
    assert_eq!(session_prompt(&s, Some("/src/repo"), "home agent"), None);
    assert_eq!(session_prompt(&s, Some("/elsewhere"), "home agent"), None);
    assert_eq!(session_prompt(&s, None, "home agent"), None);
}

#[test]
fn description_goes_out_once_per_throttle_period() {
    let s = settings();
    let mut t = PromptContextThrottle::new();
    let d = prompt_description(&s, &mut t, Some("/wt/one"), 1_000).unwrap();
    assert_eq!(d.worktree_name, "one");
    assert_eq!(d.description.as_deref(), Some("doing one"));
    assert!(prompt_description(&s, &mut t, Some("/wt/one"), 1_000 + 599_999).is_none());
    // another worktree has its own period
    assert_eq!(prompt_description(&s, &mut t, Some("/wt/two"), 2_000).unwrap().description, None);
    assert!(prompt_description(&s, &mut t, Some("/wt/one"), 1_000 + 600_000).is_some());
    assert!(prompt_description(&s, &mut t, Some("/nowhere"), 5_000_000).is_none());
}

#[test]
fn throttle_remembers_only_what_went_out() {
    let mut t = PromptContextThrottle::new();
    assert!(t.should_send_at("wt-1", 10_000));
    assert!(!t.should_send_at("wt-1", 300_000));
    // the skipped attempt did not restart the period
    assert!(t.should_send_at("wt-1", 610_000));
    assert!(!t.should_send_at("wt-1", 611_000));
}

#[test]
fn plan_description_target_falls_back_to_the_sent_name() {
    let s = settings();
    assert_eq!(description_target(&s, Some("/wt/two"), Some("ignored")).as_deref(), Some("two"));
    assert_eq!(description_target(&s, Some("/nowhere"), Some("free-name")).as_deref(), Some("free-name"));
    assert_eq!(description_target(&s, None, None), None);
}

#[test]
fn blank_digest_id_is_refused() {
    assert_eq!(digest_ack_id("  d-1 ").as_deref(), Some("d-1"));
    assert_eq!(digest_ack_id(" "), None);
}
