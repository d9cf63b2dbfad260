//! Breadcrumbs of the UI thread: which activity it last entered and since when.
//!
//! The state is a plain value here; the application keeps one instance shared
//! between the UI thread, which enters and restores activities, and the watchdog,
//! which takes snapshots.

use vstd::prelude::*;

verus! {

/// The kinds of work the UI thread can be busy with. Their order gives the label index.
#[derive(Clone, Copy, PartialEq, Eq, Debug)]
pub enum Activity {
    Idle,
    RunEvent,
    WatchdogProbe,
    WindowReady,
    PtyWrite,
    PtySetAiAgent,
    PtyIsAiAgent,
    GetSettings,
    SaveSettings,
    ApplyAcrylic,
    DetectIdes,
    DetectAiAgents,
    OpenInIde,
    RegenerateMcpApiKey,
    GetMcpStatus,
    PathExists,
    NotifyWorktreeArchived,
    NotifyWorktreeAdded,
    StartFsWatch,
    StopFsWatch,
    SetDebugMode,
    GetDebugMode,
    GetForceWizard,
}

/// The number of labels: one per [`Activity`].
pub const LABEL_COUNT: usize = 23;

/// The display labels, in the order of [`Activity`].
pub const LABELS: [&'static str; 23] = [
    "idle",
    "run-event",
    "watchdog-probe",
    "window-ready",
    "cmd:pty_write",
    "cmd:pty_set_ai_agent",
    "cmd:pty_is_ai_agent",
    "cmd:get_settings",
    "cmd:save_settings",
    "cmd:apply_acrylic_effect",
    "cmd:detect_ides",
    "cmd:detect_ai_agents",
    "cmd:open_in_ide",
    "cmd:regenerate_mcp_api_key",
    "cmd:get_mcp_status",
    "cmd:path_exists",
    "cmd:notify_worktree_archived",
    "cmd:notify_worktree_added",
    "cmd:start_fs_watch",
    "cmd:stop_fs_watch",
    "cmd:set_debug_mode",
    "cmd:get_debug_mode",
    "cmd:get_force_wizard",
];

impl Activity {
    /// The label index of the activity (its position in the declaration).
    pub open spec fn index(self) -> u8 {
        match self {
            Activity::Idle => 0u8,
            Activity::RunEvent => 1u8,
            Activity::WatchdogProbe => 2u8,
            Activity::WindowReady => 3u8,
            Activity::PtyWrite => 4u8,
            Activity::PtySetAiAgent => 5u8,
            Activity::PtyIsAiAgent => 6u8,
            Activity::GetSettings => 7u8,
            Activity::SaveSettings => 8u8,
            Activity::ApplyAcrylic => 9u8,
            Activity::DetectIdes => 10u8,
            Activity::DetectAiAgents => 11u8,
            Activity::OpenInIde => 12u8,
            Activity::RegenerateMcpApiKey => 13u8,
            Activity::GetMcpStatus => 14u8,
            Activity::PathExists => 15u8,
            Activity::NotifyWorktreeArchived => 16u8,
            Activity::NotifyWorktreeAdded => 17u8,
            Activity::StartFsWatch => 18u8,
            Activity::StopFsWatch => 19u8,
            Activity::SetDebugMode => 20u8,
            Activity::GetDebugMode => 21u8,
            Activity::GetForceWizard => 22u8,
        }
    }

    /// The label index of the activity.
    pub fn discriminant(&self) -> (r: u8)
        ensures
            r == self.index(),
            r < LABEL_COUNT,
    {
        match self {
            Activity::Idle => 0u8,
            Activity::RunEvent => 1u8,
            Activity::WatchdogProbe => 2u8,
            Activity::WindowReady => 3u8,
            Activity::PtyWrite => 4u8,
            Activity::PtySetAiAgent => 5u8,
            Activity::PtyIsAiAgent => 6u8,
            Activity::GetSettings => 7u8,
            Activity::SaveSettings => 8u8,
            Activity::ApplyAcrylic => 9u8,
            Activity::DetectIdes => 10u8,
            Activity::DetectAiAgents => 11u8,
            Activity::OpenInIde => 12u8,
            Activity::RegenerateMcpApiKey => 13u8,
            Activity::GetMcpStatus => 14u8,
            Activity::PathExists => 15u8,
            Activity::NotifyWorktreeArchived => 16u8,
            Activity::NotifyWorktreeAdded => 17u8,
            Activity::StartFsWatch => 18u8,
            Activity::StopFsWatch => 19u8,
            Activity::SetDebugMode => 20u8,
            Activity::GetDebugMode => 21u8,
            Activity::GetForceWizard => 22u8,
        }
    }
}

/// The label shown for a label index; `"?"` past the last activity.
pub open spec fn label_of(v: u8) -> Seq<char> {
    match v {
        0u8 => "idle"@,
        1u8 => "run-event"@,
        2u8 => "watchdog-probe"@,
        3u8 => "window-ready"@,
        4u8 => "cmd:pty_write"@,
        5u8 => "cmd:pty_set_ai_agent"@,
        6u8 => "cmd:pty_is_ai_agent"@,
        7u8 => "cmd:get_settings"@,
        8u8 => "cmd:save_settings"@,
        9u8 => "cmd:apply_acrylic_effect"@,
        10u8 => "cmd:detect_ides"@,
        11u8 => "cmd:detect_ai_agents"@,
        12u8 => "cmd:open_in_ide"@,
        13u8 => "cmd:regenerate_mcp_api_key"@,
        14u8 => "cmd:get_mcp_status"@,
        15u8 => "cmd:path_exists"@,
        16u8 => "cmd:notify_worktree_archived"@,
        17u8 => "cmd:notify_worktree_added"@,
        18u8 => "cmd:start_fs_watch"@,
        19u8 => "cmd:stop_fs_watch"@,
        20u8 => "cmd:set_debug_mode"@,
        21u8 => "cmd:get_debug_mode"@,
        22u8 => "cmd:get_force_wizard"@,
        _ => "?"@,
    }
}

/// The label for a label index; `"?"` when the index names no activity.
pub fn name_for(v: u8) -> (r: &'static str)
    ensures
        r@ == label_of(v),
{
    match v {
        0u8 => "idle",
        1u8 => "run-event",
        2u8 => "watchdog-probe",
        3u8 => "window-ready",
        4u8 => "cmd:pty_write",
        5u8 => "cmd:pty_set_ai_agent",
        6u8 => "cmd:pty_is_ai_agent",
        7u8 => "cmd:get_settings",
        8u8 => "cmd:save_settings",
        9u8 => "cmd:apply_acrylic_effect",
        10u8 => "cmd:detect_ides",
        11u8 => "cmd:detect_ai_agents",
        12u8 => "cmd:open_in_ide",
        13u8 => "cmd:regenerate_mcp_api_key",
        14u8 => "cmd:get_mcp_status",
        15u8 => "cmd:path_exists",
        16u8 => "cmd:notify_worktree_archived",
        17u8 => "cmd:notify_worktree_added",
        18u8 => "cmd:start_fs_watch",
        19u8 => "cmd:stop_fs_watch",
        20u8 => "cmd:set_debug_mode",
        21u8 => "cmd:get_debug_mode",
        22u8 => "cmd:get_force_wizard",
        _ => "?",
    }
}

/// The breadcrumb: the label index of the current UI-thread activity and the
/// monotonic time (ms) at which it began.
pub struct Breadcrumb {
    pub label: u8,
    pub since_ms: u64,
    pub ui_thread_id: u64,
}

/// What [`enter`] replaced; [`restore`] puts it back.
pub struct Guard {
    pub prev_label: u8,
    pub prev_since: u64,
}

/// What the watchdog reads.
pub struct Snapshot {
    /// The current activity's label; `"idle"` means the native event loop.
    pub label: &'static str,
    /// How long the current activity has been running (ms).
    pub age_ms: u64,
}

impl Breadcrumb {
    /// The breadcrumb before anything ran: idle since 0, thread id not recorded (0).
    pub fn new() -> (r: Self)
        ensures
            r.label == Activity::Idle.index(),
            r.since_ms == 0,
            r.ui_thread_id == 0,
    {
        Breadcrumb { label: 0, since_ms: 0, ui_thread_id: 0 }
    }
}

/// Records the OS thread id of the UI thread.
pub fn record_ui_thread(state: &mut Breadcrumb, id: u64)
    ensures
        final(state).ui_thread_id == id,
        final(state).label == old(state).label,
        final(state).since_ms == old(state).since_ms,
{
    state.ui_thread_id = id;
}

/// The recorded UI thread id; 0 when none was recorded.
pub fn ui_thread_id(state: &Breadcrumb) -> (r: u64)
    ensures
        r == state.ui_thread_id,
{
    state.ui_thread_id
}

/// Milliseconds since the clock was started; 0 when it was never started.
pub fn now_ms(elapsed_since_start: Option<u64>) -> (r: u64)
    ensures
        r == match elapsed_since_start {
            Some(ms) => ms,
            None => 0,
        },
{
    match elapsed_since_start {
        Some(ms) => ms,
        None => 0,
    }
}

/// The breadcrumb after entering `a` at `now`.
pub open spec fn entered(s: Breadcrumb, a: Activity, now: u64) -> Breadcrumb {
    Breadcrumb { label: a.index(), since_ms: now, ui_thread_id: s.ui_thread_id }
}

/// Switches the current activity to `a`, begun at `now`; the guard holds what it replaced.
pub fn enter(state: &mut Breadcrumb, a: Activity, now: u64) -> (g: Guard)
    ensures
        *final(state) == entered(*old(state), a, now),
        g == guard_of(*old(state)),
{
    let g = Guard { prev_label: state.label, prev_since: state.since_ms };
    state.label = a.discriminant();
    state.since_ms = now;
    g
}

/// Puts back the activity that the guard's [`enter`] replaced.
pub fn restore(state: &mut Breadcrumb, g: Guard)
    ensures
        *final(state) == restored(*old(state), g),
{
    state.since_ms = g.prev_since;
    state.label = g.prev_label;
}

/// The guard that entering from `s` hands out.
pub open spec fn guard_of(s: Breadcrumb) -> Guard {
    Guard { prev_label: s.label, prev_since: s.since_ms }
}

/// The breadcrumb after restoring guard `g`.
pub open spec fn restored(s: Breadcrumb, g: Guard) -> Breadcrumb {
    Breadcrumb { label: g.prev_label, since_ms: g.prev_since, ui_thread_id: s.ui_thread_id }
}

/// Entering an activity and then restoring with the guard it returned gives back the
/// breadcrumb as it was, so nested activities unwind to the outer one.
pub proof fn lemma_enter_then_restore(s: Breadcrumb, a: Activity, now: u64)
    ensures
        restored(entered(s, a, now), guard_of(s)) == s,
{
}

/// The current label and how long it has been running at `now` (0 if `now` is earlier).
pub fn snapshot(state: &Breadcrumb, now: u64) -> (r: Snapshot)
    ensures
        r.label@ == label_of(state.label),
        r.age_ms == if now >= state.since_ms { now - state.since_ms } else { 0 },
{
    let label = name_for(state.label);
    let age_ms = now.saturating_sub(state.since_ms);
    Snapshot { label, age_ms }
}

} // verus!
