use oretachi::notifications::{
    list_notifications, register_detached_worktree, sync_notification_state, unregister_detached_worktree,
    DetachedWorktreeRegistry, NotificationEntry, NotificationRegistry, NotificationSnapshot,
};
use oretachi::settings::{AppSettings, WorktreeEntry};

fn snap(count: u32, kind: &str, at: i64) -> NotificationSnapshot {
    NotificationSnapshot { count, kind: kind.into(), first_notified_at: at }
}

fn entry(id: &str, count: u32, kind: &str, at: i64) -> NotificationEntry {
    NotificationEntry { worktree_id: id.into(), snapshot: snap(count, kind, at) }
}

fn settings() -> AppSettings {
    let mut s = AppSettings::default();
    s.worktrees.push(WorktreeEntry { id: "wt-a".into(), name: "alpha".into(), ..Default::default() });
    s.worktrees.push(WorktreeEntry { id: "wt-b".into(), name: "beta".into(), ..Default::default() });
    s.worktrees.push(WorktreeEntry { id: "wt-z".into(), name: "zeta".into(), ..Default::default() });
    s
}

#[test]
fn take_gives_back_the_snapshot_and_forgets_it() {
    let mut r = NotificationRegistry::new();
    r.insert("wt-a".into(), snap(3, "approval", 100));
    r.insert("wt-b".into(), snap(1, "general", 200));
    assert_eq!(r.len(), 2);
    let n = r.take("wt-a").unwrap();
    assert_eq!((n.count, n.kind.as_str(), n.first_notified_at), (3, "approval", 100));
    assert!(r.get("wt-a").is_none());
    assert!(r.take("wt-a").is_none());
    assert_eq!(r.get("wt-b").unwrap().count, 1);
    assert_eq!(r.len(), 1);
}

#[test]
fn insert_replaces_the_snapshot_of_the_same_worktree() {
    let mut r = NotificationRegistry::new();
    r.insert("wt-a".into(), snap(1, "general", 100));
    r.insert("wt-a".into(), snap(4, "completed", 100));
    assert_eq!(r.len(), 1);
    assert_eq!(r.get("wt-a").unwrap().count, 4);
    assert_eq!(r.get("wt-a").unwrap().kind, "completed");
}

#[test]
fn sync_replaces_the_whole_mirror() {
    let mut r = NotificationRegistry::new();
    r.insert("wt-old".into(), snap(9, "general", 1));
    sync_notification_state(vec![entry("wt-a", 2, "approval", 10), entry("wt-b", 5, "completed", 20)], &mut r);
    assert!(r.get("wt-old").is_none());
    assert_eq!(r.get("wt-a").unwrap().count, 2);
    assert_eq!(r.get("wt-b").unwrap().count, 5);
    assert_eq!(r.len(), 2);
    sync_notification_state(Vec::new(), &mut r);
    assert_eq!(r.len(), 0);
}

#[test]
fn snapshot_copies_every_entry() {
    let mut r = NotificationRegistry::new();
    sync_notification_state(vec![entry("wt-a", 2, "approval", 10), entry("wt-b", 5, "completed", 20)], &mut r);
    let mut copy = r.snapshot();
    copy.sort_by(|x, y| x.worktree_id.cmp(&y.worktree_id));
    assert_eq!(copy.len(), 2);
    assert_eq!(copy[0].worktree_id, "wt-a");
    assert_eq!(copy[1].snapshot.count, 5);
    assert_eq!(r.len(), 2);
}

#[test]
fn listing_is_oldest_first_with_ties_by_id() {
    let mut r = NotificationRegistry::new();
    sync_notification_state(vec![
        entry("wt-b", 2, "completed", 200),
        entry("wt-z", 1, "approval", 100),
        entry("wt-a", 4, "general", 200),
        entry("wt-gone", 3, "general", 300),
    ], &mut r);
    let l = list_notifications(&settings(), &r);
    let ids: Vec<&str> = l.items.iter().map(|x| x.worktree_id.as_str()).collect();
    assert_eq!(ids, vec!["wt-z", "wt-a", "wt-b", "wt-gone"]);
    assert_eq!(l.items[0].worktree_name.as_deref(), Some("zeta"));
    assert_eq!(l.items[1].worktree_name.as_deref(), Some("alpha"));
    // a worktree the settings no longer hold is still listed, without a name
    assert_eq!(l.items[3].worktree_name, None);
    assert_eq!(l.items[2].kind, "completed");
    assert_eq!(l.worktree_count, 4);
    assert_eq!(l.total_count, 10);
}

#[test]
fn listing_of_nothing_is_empty() {
    let l = list_notifications(&settings(), &NotificationRegistry::new());
    assert!(l.items.is_empty());
    assert_eq!(l.worktree_count, 0);
    assert_eq!(l.total_count, 0);
}

#[test]
fn detached_worktrees_come_and_go() {
    let mut d = DetachedWorktreeRegistry::new();
    assert!(!d.is_detached("wt-a"));
    register_detached_worktree("wt-a".into(), &mut d);
    register_detached_worktree("wt-a".into(), &mut d);
    register_detached_worktree("wt-b".into(), &mut d);
    assert!(d.is_detached("wt-a"));
    assert!(d.is_detached("wt-b"));
    unregister_detached_worktree("wt-a", &mut d);
    assert!(!d.is_detached("wt-a"));
    assert!(d.is_detached("wt-b"));
    unregister_detached_worktree("wt-missing", &mut d);
    assert!(d.is_detached("wt-b"));
}
