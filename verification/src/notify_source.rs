//! Where a notification comes from, and which kind a hook event maps to.

use vstd::prelude::*;
use crate::notify::NotifyKind;
use crate::json::JsonValue;
use crate::settings::{AppSettings, NotificationHookEntry, Repository, WorktreeEntry};
use crate::text::{trim, str_trim, str_eq, string_of, join_with, opt_chars};
use crate::workgroups::group_by_id;
use crate::worktrees::{first_with_id, first_with_dir, first_named};

verus! {

broadcast use vstd::string::group_string_axioms;

/// The position of the first repository with id `id`, from `start` on.
pub open spec fn first_repo(rs: Seq<Repository>, id: Seq<char>, start: int) -> Option<int>
    decreases rs.len() - start,
{
    if start < 0 || start >= rs.len() {
        None
    } else if rs[start].id@ == id {
        Some(start)
    } else {
        first_repo(rs, id, start + 1)
    }
}

fn find_repository(settings: &AppSettings, id: &str) -> (r: Option<usize>)
    ensures
        match r {
            Some(i) => first_repo(settings.repositories@, id@, 0) == Some(i as int) && i < settings.repositories@.len(),
            None => first_repo(settings.repositories@, id@, 0) is None,
        },
{
    let rs = &settings.repositories;
    let mut i: usize = 0;
    while i < rs.len()
        invariant
            i <= rs@.len(),
            rs == &settings.repositories,
            first_repo(rs@, id@, 0) == first_repo(rs@, id@, i as int),
        decreases rs@.len() - i,
    {
        if str_eq(rs[i].id.as_str(), id) {
            return Some(i);
        }
        i = i + 1;
    }
    None
}

/// The notification hooks configured on the repository of `wt`, if it has that setting.
pub open spec fn repo_hooks(settings: AppSettings, wt: WorktreeEntry) -> Option<Seq<NotificationHookEntry>> {
    match first_repo(settings.repositories@, wt.repository_id@, 0) {
        Some(i) => match settings.repositories@[i].notification_hooks {
            Some(v) => Some(v@),
            None => None,
        },
        None => None,
    }
}

/// Whether the repository of `worktree` has at least one notification hook configured.
pub fn repo_has_notification_hooks(settings: &AppSettings, worktree: &WorktreeEntry) -> (r: bool)
    ensures
        r == (repo_hooks(*settings, *worktree) matches Some(h) && h.len() > 0),
{
    match find_repository(settings, worktree.repository_id.as_str()) {
        Some(i) => match &settings.repositories[i].notification_hooks {
            Some(h) => h.len() > 0,
            None => false,
        },
        None => false,
    }
}

/// The kind of an event when no hook setting says otherwise.
pub open spec fn default_kind(event: Seq<char>) -> NotifyKind {
    if event == "Stop"@ {
        NotifyKind::Completed
    } else if event == "PermissionRequest"@ {
        NotifyKind::Approval
    } else {
        NotifyKind::Hook
    }
}

/// The kind of an event when no hook setting says otherwise: a stop completes, a
/// permission request asks for approval, anything else is a plain hook.
pub fn default_kind_for_event(event: &str) -> (r: NotifyKind)
    ensures
        r == default_kind(event@),
{
    if str_eq(event, "Stop") {
        NotifyKind::Completed
    } else if str_eq(event, "PermissionRequest") {
        NotifyKind::Approval
    } else {
        NotifyKind::Hook
    }
}

/// The position of the first hook entry for `event`, from `start` on.
pub open spec fn first_hook(hs: Seq<NotificationHookEntry>, event: Seq<char>, start: int) -> Option<int>
    decreases hs.len() - start,
{
    if start < 0 || start >= hs.len() {
        None
    } else if hs[start].event@ == event {
        Some(start)
    } else {
        first_hook(hs, event, start + 1)
    }
}

/// The kind an event of `wt` maps to: the first hook entry of its repository for that event,
/// else the default kind.
pub open spec fn kind_for_event(settings: AppSettings, wt: WorktreeEntry, event: Seq<char>) -> NotifyKind {
    match repo_hooks(settings, wt) {
        Some(hs) => match first_hook(hs, event, 0) {
            Some(i) => hs[i].kind,
            None => default_kind(event),
        },
        None => default_kind(event),
    }
}

/// The kind a lifecycle event of `worktree` maps to: its repository's hook setting for the
/// event, else the default kind of the event.
pub fn resolve_kind_for_event(settings: &AppSettings, worktree: &WorktreeEntry, event: &str) -> (r: NotifyKind)
    ensures
        r == kind_for_event(*settings, *worktree, event@),
{
    let hooks = match find_repository(settings, worktree.repository_id.as_str()) {
        Some(i) => match &settings.repositories[i].notification_hooks {
            Some(h) => h,
            None => return default_kind_for_event(event),
        },
        None => return default_kind_for_event(event),
    };
    let mut j: usize = 0;
    while j < hooks.len()
        invariant
            j <= hooks@.len(),
            repo_hooks(*settings, *worktree) == Some(hooks@),
            first_hook(hooks@, event@, 0) == first_hook(hooks@, event@, j as int),
        decreases hooks@.len() - j,
    {
        if str_eq(hooks[j].event.as_str(), event) {
            return hooks[j].kind;
        }
        j = j + 1;
    }
    default_kind_for_event(event)
}

/// The name, repository name and workgroup id of the first worktree with id `id`, the
/// workgroup being its own or the default one.
pub open spec fn source_scope(settings: AppSettings, id: Seq<char>) -> (Option<Seq<char>>, Option<Seq<char>>, Option<Seq<char>>) {
    match first_with_id(settings.worktrees@, id) {
        Some(i) => {
            let w = settings.worktrees@[i];
            let g = group_by_id(settings.workgroups@, match w.workgroup_id { Some(s) => Some(s@), None => None });
            (Some(w.name@), Some(w.repository_name@), match g {
                Some(k) => Some(settings.workgroups@[k].id@),
                None => None,
            })
        },
        None => (None, None, None),
    }
}

/// Fills in the scope of a notification's source worktree from the settings: its name, its
/// repository's name and its workgroup's id.
pub fn notify_source_scope(settings: &AppSettings, worktree_id: &str) -> (r: (Option<String>, Option<String>, Option<String>))
    ensures
        (opt_chars(r.0), opt_chars(r.1), opt_chars(r.2)) == source_scope(*settings, worktree_id@),
{
    match crate::worktrees::find_worktree_by_id(settings, worktree_id) {
        Some(w) => {
            let group = match crate::grants::resolve_workgroup(settings, w) {
                Some(k) => Some(settings.workgroups[k].id.clone()),
                None => None,
            };
            (Some(w.name.clone()), Some(w.repository_name.clone()), group)
        },
        None => (None, None, None),
    }
}

/// The request the agent hooks send to announce a notification.
#[derive(Debug, Default)]
pub struct NotifyPayload {
    pub project_dir: Option<String>,
    pub event: Option<String>,
    pub worktree: Option<String>,
    pub kind: Option<String>,
    pub body: Option<String>,
    pub agent: Option<String>,
    pub terminal_id: Option<String>,
}

/// Where a notification event comes from.
#[derive(Debug)]
pub struct NotifySource {
    pub worktree_id: String,
    pub worktree_name: Option<String>,
    /// The tab that fired it, when it is known to be a live tab.
    pub terminal_id: Option<String>,
    pub repository_name: Option<String>,
    pub workgroup_id: Option<String>,
    /// Who made the event, for the audit trail.
    pub actor: String,
    /// Where the event entered, for loop analysis.
    pub origin: String,
}

/// A text trimmed, when not blank.
pub open spec fn nonblank_trim(o: Option<String>) -> Option<Seq<char>> {
    match o {
        Some(s) => if trim(s@).len() > 0 { Some(trim(s@)) } else { None },
        None => None,
    }
}

fn trimmed_nonblank(o: &Option<String>) -> (r: Option<String>)
    ensures
        opt_chars(r) == nonblank_trim(*o),
{
    match o {
        Some(s) => {
            let t = str_trim(s.as_str());
            if t.len() > 0 { Some(string_of(t.as_slice())) } else { None }
        },
        None => None,
    }
}

/// The terminal id a hook payload names, trimmed, when not blank: the one tab whose liveness
/// the caller has to look up.
pub fn notify_terminal_candidate(payload: &NotifyPayload) -> (r: Option<String>)
    ensures
        opt_chars(r) == nonblank_trim(payload.terminal_id),
{
    trimmed_nonblank(&payload.terminal_id)
}

/// The worktree a hook payload comes from: found by its project directory, else by its
/// (trimmed, non-blank) worktree name.
pub open spec fn payload_worktree(settings: AppSettings, payload: NotifyPayload) -> Option<int> {
    let by_dir = match payload.project_dir {
        Some(d) => first_with_dir(settings.worktrees@, d@, settings.case_insensitive_paths),
        None => None,
    };
    if by_dir is Some {
        by_dir
    } else {
        match nonblank_trim(payload.worktree) {
            Some(n) => first_named(settings.worktrees@, n),
            None => None,
        }
    }
}

/// What `resolve_notify_source` answers.
pub open spec fn notify_source_is(r: Option<NotifySource>, settings: AppSettings, payload: NotifyPayload, candidate_is_live: bool) -> bool {
    match payload_worktree(settings, payload) {
        None => r is None,
        Some(i) => r matches Some(src) && {
            let id = settings.worktrees@[i].id@;
            let term = if candidate_is_live { nonblank_trim(payload.terminal_id) } else { None };
            &&& src.worktree_id@ == id
            &&& (opt_chars(src.worktree_name), opt_chars(src.repository_name), opt_chars(src.workgroup_id))
                == source_scope(settings, id)
            &&& opt_chars(src.terminal_id) == term
            &&& src.actor@ == "hook"@
            &&& src.origin@ == "http-notify:"@ + match term { Some(t) => t, None => "-"@ }
        },
    }
}

/// The source of a notification sent by a hook: the worktree found from the payload (by
/// project directory, else by name) with its scope; the firing tab only when
/// `candidate_is_live` says the tab the payload names exists. `None` when no worktree is
/// found: such an event is not recorded.
pub fn resolve_notify_source(settings: &AppSettings, payload: &NotifyPayload, candidate_is_live: bool) -> (r: Option<NotifySource>)
    ensures
        notify_source_is(r, *settings, *payload, candidate_is_live),
{
    let by_dir = match &payload.project_dir {
        Some(d) => crate::worktrees::resolve_worktree_by_dir(settings, d.as_str()),
        None => None,
    };
    let wt = match by_dir {
        Some(w) => w,
        None => {
            let name = trimmed_nonblank(&payload.worktree);
            match name {
                Some(n) => match crate::worktrees::find_worktree_by_name(settings, n.as_str()) {
                    Some(w) => w,
                    None => return None,
                },
                None => return None,
            }
        },
    };
    let worktree_id = wt.id.clone();
    let (worktree_name, repository_name, workgroup_id) = notify_source_scope(settings, worktree_id.as_str());
    let terminal_id = if candidate_is_live { trimmed_nonblank(&payload.terminal_id) } else { None };
    let mut origin = String::from_str("http-notify:");
    match &terminal_id {
        Some(t) => origin.append(t.as_str()),
        None => origin.append("-"),
    }
    proof {
        reveal_strlit("http-notify:");
        reveal_strlit("-");
        reveal_strlit("hook");
    }
    Some(NotifySource {
        worktree_id,
        worktree_name,
        terminal_id,
        repository_name,
        workgroup_id,
        actor: String::from_str("hook"),
        origin,
    })
}


/// The kind a hook request names explicitly, when it is a kind an agent may publish.
pub open spec fn explicit_kind(payload: NotifyPayload) -> Option<NotifyKind> {
    match nonblank_trim(payload.kind) {
        Some(k) => match crate::notify::kind_named(k) {
            Some(kind) => if kind == NotifyKind::WorktreeCreated || kind == NotifyKind::WorktreeClosed { None } else { Some(kind) },
            None => None,
        },
        None => None,
    }
}

/// The kind of a notification from a hook request: the explicit kind (when valid and
/// publishable), else the kind its event maps to, else `general`.
pub open spec fn payload_kind(settings: AppSettings, wt: Option<WorktreeEntry>, payload: NotifyPayload) -> NotifyKind {
    match explicit_kind(payload) {
        Some(k) => k,
        None => match payload.event {
            Some(ev) => match wt {
                Some(w) => kind_for_event(settings, w, ev@),
                None => default_kind(ev@),
            },
            None => NotifyKind::General,
        },
    }
}

/// The kind of a notification from a hook request.
pub fn notify_kind_for_payload(settings: &AppSettings, wt: Option<&WorktreeEntry>, payload: &NotifyPayload) -> (r: NotifyKind)
    ensures
        r == payload_kind(*settings, match wt { Some(w) => Some(*w), None => None }, *payload),
{
    let explicit = match trimmed_nonblank(&payload.kind) {
        Some(k) => match NotifyKind::parse(k.as_str()) {
            Some(kind) => if kind.agent_publishable() { Some(kind) } else { None },
            None => None,
        },
        None => None,
    };
    match explicit {
        Some(k) => k,
        None => match &payload.event {
            Some(ev) => match wt {
                Some(w) => resolve_kind_for_event(settings, w, ev.as_str()),
                None => default_kind_for_event(ev.as_str()),
            },
            None => NotifyKind::General,
        },
    }
}

/// What to do with a notification a hook sent.
#[derive(Debug)]
pub struct NotifyPlan {
    /// The worktree name the toast goes to; `None` drops the request.
    pub worktree_name: Option<String>,
    /// Whether the body should be scanned for URLs to register as artifacts.
    pub scan_urls: bool,
    /// Whether the notification is dropped as fired inside a subagent.
    pub skip: bool,
    /// Whether the toast may show in the tray.
    pub tray: bool,
    pub kind: NotifyKind,
    /// Whether a toast is shown at all (a lifecycle notification of a repository without
    /// notification hooks shows none).
    pub toast: bool,
}

/// The worktree a hook request is about, found by its project directory.
pub open spec fn request_worktree(settings: AppSettings, payload: NotifyPayload) -> Option<int> {
    match payload.project_dir {
        Some(d) => first_with_dir(settings.worktrees@, d@, settings.case_insensitive_paths),
        None => None,
    }
}

/// The plan for a hook request with parsed body `body` (`None` when absent or not JSON).
pub open spec fn notify_plan_is(r: NotifyPlan, settings: AppSettings, payload: NotifyPayload, body: Option<JsonValue>) -> bool {
    let ws = settings.worktrees@;
    let wt = match request_worktree(settings, payload) { Some(i) => Some(ws[i]), None => None };
    let lifecycle = payload.kind is None && payload.event is Some;
    &&& opt_chars(r.worktree_name) == match wt {
        Some(w) => Some(w.name@),
        None => opt_chars(payload.worktree),
    }
    &&& r.scan_urls == (wt is Some && (payload.event matches Some(ev) && (ev@ == "PreToolUse"@ || ev@ == "PostToolUse"@))
        && (payload.body matches Some(b) && crate::text::contains_seq(b@, "http"@)))
    &&& r.skip == (payload.kind is None && (payload.agent matches Some(a) && a@ == "cc"@)
        && crate::hooks::member(body, "agent_id"@) is Some)
    &&& r.tray == (if lifecycle { match wt { Some(w) => crate::settings::tray_effective(w.tray_notification), None => true } } else { true })
    &&& r.kind == payload_kind(settings, wt, payload)
    &&& r.toast == !(lifecycle && (wt matches Some(w) && !(repo_hooks(settings, w) matches Some(h) && h.len() > 0)))
}

/// Decides what to do with a notification a hook sent: where its toast goes, whether to scan
/// it for URLs, whether it is a subagent's to drop, whether it may show in the tray, its kind,
/// and whether a toast is shown at all.
pub fn plan_notify(settings: &AppSettings, payload: &NotifyPayload, body: Option<&JsonValue>) -> (r: NotifyPlan)
    ensures
        notify_plan_is(r, *settings, *payload, crate::hooks::body_of(body)),
{
    let wt = match &payload.project_dir {
        Some(d) => crate::worktrees::resolve_worktree_by_dir(settings, d.as_str()),
        None => None,
    };
    let worktree_name = match wt {
        Some(w) => Some(w.name.clone()),
        None => match &payload.worktree {
            Some(n) => Some(n.clone()),
            None => None,
        },
    };
    let http = crate::text::chars_of("http");
    let scan_urls = match (wt, &payload.event, &payload.body) {
        (Some(_), Some(ev), Some(b)) => (str_eq(ev.as_str(), "PreToolUse") || str_eq(ev.as_str(), "PostToolUse"))
            && crate::text::chars_contains(crate::text::chars_of(b.as_str()).as_slice(), http.as_slice()),
        _ => false,
    };
    let skip = crate::hooks::should_skip_subagent_notify(
        match &payload.agent { Some(a) => Some(a.as_str()), None => None },
        match &payload.kind { Some(k) => Some(k.as_str()), None => None },
        body,
    );
    let lifecycle = payload.kind.is_none() && payload.event.is_some();
    let tray = if lifecycle {
        match wt {
            Some(w) => crate::settings::resolve_tray_notification(w),
            None => true,
        }
    } else {
        true
    };
    let kind = notify_kind_for_payload(settings, wt, payload);
    let toast = match wt {
        Some(w) => !(lifecycle && !repo_has_notification_hooks(settings, w)),
        None => true,
    };
    NotifyPlan { worktree_name, scan_urls, skip, tray, kind, toast }
}


/// The text an event carries for a notification's body: a message (`worktree.message`) must
/// have a non-blank body within `message_max_chars`; any other kind takes the body as given
/// (blank as empty), cut to `hook_max_chars` with a mark when longer.
pub open spec fn event_text_is(r: Result<String, crate::errors::ToolError>, kind: NotifyKind, body: Option<Seq<char>>,
    message_max_chars: usize, hook_max_chars: usize) -> bool
{
    let raw = match body {
        Some(b) => if trim(b).len() > 0 { Some(trim(b)) } else { None },
        None => None,
    };
    if kind == NotifyKind::WorktreeMessage {
        match raw {
            None => r matches Err(e) && e.kind == crate::errors::ToolErrorKind::InvalidParams
                && e.message@ == "kind に worktree.message を指定する場合は body（購読者へ届けるメッセージ本文）が必要です"@,
            Some(t) => if t.len() > message_max_chars {
                r matches Err(e) && e.kind == crate::errors::ToolErrorKind::InvalidParams
                    && e.message@ == "body が長すぎます（"@ + crate::text::decimal(t.len()) + " 文字 / 上限 "@
                        + crate::text::decimal(message_max_chars as nat)
                        + " 文字）。要点を絞って送るか、詳細は共有ファイルや issue に置いて参照を送ってください"@
            } else {
                r matches Ok(x) && x@ == t
            },
        }
    } else {
        let t = match raw { Some(t) => t, None => Seq::<char>::empty() };
        r matches Ok(x) && x@ == if t.len() > hook_max_chars { t.take(hook_max_chars as int) + "…（切り詰め）"@ } else { t }
    }
}

/// The text an event carries for a notification of `kind` with `body`.
pub fn event_text(kind: NotifyKind, body: Option<&str>, message_max_chars: usize, hook_max_chars: usize)
    -> (r: Result<String, crate::errors::ToolError>)
    ensures
        event_text_is(r, kind, match body { Some(b) => Some(b@), None => None }, message_max_chars, hook_max_chars),
{
    let raw: Option<Vec<char>> = match body {
        Some(b) => {
            let t = str_trim(b);
            if t.len() > 0 { Some(t) } else { None }
        },
        None => None,
    };
    if kind == NotifyKind::WorktreeMessage {
        let t = match raw {
            None => return Err(crate::errors::invalid_params(String::from_str(
                "kind に worktree.message を指定する場合は body（購読者へ届けるメッセージ本文）が必要です",
            ))),
            Some(t) => t,
        };
        if t.len() > message_max_chars {
            let mut m = String::from_str("body が長すぎます（");
            m.append(string_of(crate::text::decimal_chars(t.len() as u64).as_slice()).as_str());
            m.append(" 文字 / 上限 ");
            m.append(string_of(crate::text::decimal_chars(message_max_chars as u64).as_slice()).as_str());
            m.append(" 文字）。要点を絞って送るか、詳細は共有ファイルや issue に置いて参照を送ってください");
            proof {
                reveal_strlit("body が長すぎます（");
                reveal_strlit(" 文字 / 上限 ");
                reveal_strlit(" 文字）。要点を絞って送るか、詳細は共有ファイルや issue に置いて参照を送ってください");
            }
            return Err(crate::errors::invalid_params(m));
        }
        return Ok(string_of(t.as_slice()));
    }
    let t: Vec<char> = match raw {
        Some(t) => t,
        None => Vec::new(),
    };
    if t.len() > hook_max_chars {
        let cut = crate::text::chars_range(t.as_slice(), 0, hook_max_chars);
        let mut m = string_of(cut.as_slice());
        m.append("…（切り詰め）");
        proof { reveal_strlit("…（切り詰め）"); }
        assert(cut@ == t@.take(hook_max_chars as int));
        Ok(m)
    } else {
        Ok(string_of(t.as_slice()))
    }
}

/// The kinds whose events are skipped when nobody subscribes to them.
pub open spec fn gated(kind: NotifyKind) -> bool {
    kind == NotifyKind::Hook || kind == NotifyKind::Approval || kind == NotifyKind::Completed
        || kind == NotifyKind::General
}

/// Whether the event of `kind` may be skipped: a gated kind, no subscriber may want it, and
/// no subscription was written in between (the subscription epoch is unchanged and even).
pub fn skip_unsubscribed_event(kind: NotifyKind, may_have_subscribers: bool, epoch_before: u64, epoch_after: u64) -> (r: bool)
    ensures
        r == (gated(kind) && !may_have_subscribers && epoch_after == epoch_before && epoch_before % 2 == 0),
{
    let g = match kind {
        NotifyKind::Hook | NotifyKind::Approval | NotifyKind::Completed | NotifyKind::General => true,
        _ => false,
    };
    g && !may_have_subscribers && epoch_after == epoch_before && epoch_before % 2 == 0
}

/// The chain depth of a new event: one past the deepest message the firing tab received
/// lately, for a message from a known tab; 0 otherwise.
pub fn event_depth(kind: NotifyKind, terminal_known: bool, max_inbound: Option<u32>) -> (r: u32)
    requires
        max_inbound matches Some(d) ==> d < u32::MAX,
    ensures
        r == if terminal_known && kind == NotifyKind::WorktreeMessage {
            match max_inbound { Some(d) => (d + 1) as u32, None => 0 }
        } else {
            0
        },
{
    if terminal_known && kind == NotifyKind::WorktreeMessage {
        match max_inbound {
            Some(d) => d + 1,
            None => 0,
        }
    } else {
        0
    }
}


/// The wire names of all kinds, in declaration order.
pub open spec fn all_kind_names() -> Seq<Seq<char>> {
    seq![
        crate::notify::kind_name(NotifyKind::General),
        crate::notify::kind_name(NotifyKind::Hook),
        crate::notify::kind_name(NotifyKind::Approval),
        crate::notify::kind_name(NotifyKind::Completed),
        crate::notify::kind_name(NotifyKind::WorktreeMessage),
        crate::notify::kind_name(NotifyKind::WorktreeCreated),
        crate::notify::kind_name(NotifyKind::WorktreeClosed),
    ]
}

fn kind_names_text() -> (r: String)
    ensures
        r@ == join_with(all_kind_names(), " / "@),
{
    let mut names: Vec<Vec<char>> = Vec::new();
    names.push(crate::text::chars_of(NotifyKind::General.as_str()));
    names.push(crate::text::chars_of(NotifyKind::Hook.as_str()));
    names.push(crate::text::chars_of(NotifyKind::Approval.as_str()));
    names.push(crate::text::chars_of(NotifyKind::Completed.as_str()));
    names.push(crate::text::chars_of(NotifyKind::WorktreeMessage.as_str()));
    names.push(crate::text::chars_of(NotifyKind::WorktreeCreated.as_str()));
    names.push(crate::text::chars_of(NotifyKind::WorktreeClosed.as_str()));
    assert(crate::text::vviews(names@) =~= all_kind_names());
    let sep = crate::text::chars_of(" / ");
    string_of(crate::text::chars_join(&names, sep.as_slice()).as_slice())
}

/// The kind a `notify_worktree` call asks for: its `kind` trimmed (`general` when absent or
/// blank); unknown names are refused, and so are the kinds only the application announces.
pub open spec fn tool_kind_is(r: Result<NotifyKind, crate::errors::ToolError>, kind: Option<Seq<char>>) -> bool {
    let name = match kind {
        Some(k) => if trim(k).len() > 0 { trim(k) } else { "general"@ },
        None => "general"@,
    };
    match crate::notify::kind_named(name) {
        None => r matches Err(e) && e.kind == crate::errors::ToolErrorKind::InvalidParams
            && e.message@ == "kind '"@ + name + "' は不正です。指定できるのは "@ + join_with(all_kind_names(), " / "@) + " のいずれかです"@,
        Some(k) => if k == NotifyKind::WorktreeCreated || k == NotifyKind::WorktreeClosed {
            r matches Err(e) && e.kind == crate::errors::ToolErrorKind::InvalidParams
                && e.message@ == "kind '"@ + name + "' は notify_worktree からは発行できません（'worktree.created' / 'worktree.closed' は oretachi がワークツリーの追加・削除時に自動で発行します）"@
        } else {
            r == Ok::<NotifyKind, crate::errors::ToolError>(k)
        },
    }
}

/// The kind of a `notify_worktree` call.
pub fn notify_tool_kind(kind: Option<&str>) -> (r: Result<NotifyKind, crate::errors::ToolError>)
    ensures
        tool_kind_is(r, match kind { Some(k) => Some(k@), None => None }),
{
    let name: String = match kind {
        Some(k) => {
            let t = str_trim(k);
            if t.len() > 0 { string_of(t.as_slice()) } else { String::from_str("general") }
        },
        None => String::from_str("general"),
    };
    match NotifyKind::parse(name.as_str()) {
        None => {
            let mut m = String::from_str("kind '");
            m.append(name.as_str());
            m.append("' は不正です。指定できるのは ");
            m.append(kind_names_text().as_str());
            m.append(" のいずれかです");
            proof {
                reveal_strlit("kind '");
                reveal_strlit("' は不正です。指定できるのは ");
                reveal_strlit(" のいずれかです");
            }
            Err(crate::errors::invalid_params(m))
        },
        Some(k) => if !k.agent_publishable() {
            let mut m = String::from_str("kind '");
            m.append(name.as_str());
            m.append("' は notify_worktree からは発行できません（'worktree.created' / 'worktree.closed' は oretachi がワークツリーの追加・削除時に自動で発行します）");
            proof {
                reveal_strlit("kind '");
                reveal_strlit("' は notify_worktree からは発行できません（'worktree.created' / 'worktree.closed' は oretachi がワークツリーの追加・削除時に自動で発行します）");
            }
            Err(crate::errors::invalid_params(m))
        } else {
            Ok(k)
        },
    }
}

} // verus!
