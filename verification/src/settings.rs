//! The parts of the application settings that the resolution logic reads.

use vstd::prelude::*;
use crate::notify::NotifyKind;

verus! {

/// A group of worktrees shown together.
#[derive(Clone, Debug, Default)]
pub struct Workgroup {
    pub id: String,
    pub name: Option<String>,
    pub tray_notification: Option<bool>,
    /// The system prompt given to agent sessions started in the group's worktrees.
    pub system_prompt: Option<String>,
}

/// Which notification kind a lifecycle event of a repository's agents maps to.
#[derive(Clone, Debug)]
pub struct NotificationHookEntry {
    pub event: String,
    pub kind: NotifyKind,
}

/// A registered repository.
#[derive(Clone, Debug, Default)]
pub struct Repository {
    pub id: String,
    pub name: String,
    pub path: String,
    pub notification_hooks: Option<Vec<NotificationHookEntry>>,
    /// The pattern new branch names follow, if the repository sets one.
    pub branch_name_pattern: Option<String>,
}

/// A registered worktree, or one of the pseudo worktrees (home, repository root).
#[derive(Clone, Debug, Default)]
pub struct WorktreeEntry {
    pub id: String,
    pub name: String,
    pub repository_id: String,
    pub repository_name: String,
    pub path: String,
    pub branch_name: String,
    /// The one-line account of the work going on in the worktree.
    pub description: Option<String>,
    pub workgroup_id: Option<String>,
    pub tray_notification: Option<bool>,
    pub is_home: bool,
    pub is_repository: bool,
}

/// The settings that the resolution logic reads.
#[derive(Clone, Debug, Default)]
pub struct AppSettings {
    pub worktrees: Vec<WorktreeEntry>,
    pub workgroups: Vec<Workgroup>,
    pub repositories: Vec<Repository>,
    pub locale: Option<String>,
    pub worktree_base_dir: String,
    /// The worktrees shown in a window of their own.
    pub detached_worktree_ids: Vec<String>,
    /// Whether paths compare without regard to case (so on Windows).
    pub case_insensitive_paths: bool,
}

/// Whether a worktree's tray setting lets hook notifications through: as set, on when unset
/// (a workgroup's setting is only the starting value of new worktrees, never a fallback).
pub open spec fn tray_effective(setting: Option<bool>) -> bool {
    match setting {
        Some(b) => b,
        None => true,
    }
}

/// Whether tray notifications are on for a worktree.
pub fn resolve_tray_notification(wt: &WorktreeEntry) -> (r: bool)
    ensures
        r == tray_effective(wt.tray_notification),
{
    effective_tray_setting(wt.tray_notification)
}

/// Whether a tray setting lets hook notifications through.
pub fn effective_tray_setting(setting: Option<bool>) -> (r: bool)
    ensures
        r == tray_effective(setting),
{
    match setting {
        Some(b) => b,
        None => true,
    }
}

} // verus!
