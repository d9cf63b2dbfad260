//! What the worktree tools decide: the one-line description a worktree gets, the tray setting
//! it changes to, which worktrees the status listing shows and what it says of each, the
//! workgroup and repository listings, and the page of archives asked for.

use vstd::prelude::*;
use crate::errors::{ToolError, ToolErrorKind, invalid_params};
use crate::grants::resolve_workgroup;
use crate::notifications::{NotificationRegistry, NotificationItem, id_set, item_ids, lists_notifications};
use crate::settings::{AppSettings, WorktreeEntry, tray_effective, effective_tray_setting};
use crate::text::{
    chars_of, chars_join, chars_range, chars_contains, string_of, str_eq, str_trim, to_lowercase, owned, push_str, vviews, join_with, contains_seq, lowercase, trim, is_ws, char_is_ws, opt_chars,
};
use crate::server::CloseWorktreeOutcome;
use crate::workgroups::{
    given, group_by_id, group_label, position_of, workgroup_display_name, find_group, workgroup_target, resolve_workgroup_target, default_workgroup_id,
};
use crate::worktrees::{resolve_worktree, worktree_resolution};

verus! {

broadcast use vstd::string::group_string_axioms;

/// The words of `s`: its maximal runs of non-whitespace (`str::split_whitespace`).
pub open spec fn words(s: Seq<char>) -> Seq<Seq<char>>
    decreases s.len(),
{
    if s.len() == 0 {
        Seq::empty()
    } else {
        let p = words(s.drop_last());
        if is_ws(s.last()) {
            p
        } else if s.len() >= 2 && !is_ws(s[s.len() - 2]) {
            p.update(p.len() - 1, p.last().push(s.last()))
        } else {
            p.push(seq![s.last()])
        }
    }
}

/// The words of `s` (`str::split_whitespace`).
pub fn split_words(s: &[char]) -> (r: Vec<Vec<char>>)
    ensures
        vviews(r@) == words(s@),
{
    let mut out: Vec<Vec<char>> = Vec::new();
    let mut cur: Vec<char> = Vec::new();
    let mut i: usize = 0;
    assert(s@.take(0) =~= Seq::<char>::empty());
    while i < s.len()
        invariant
            i <= s@.len(),
            cur@.len() > 0 <==> (i > 0 && !is_ws(s@[i - 1])),
            words(s@.take(i as int)) == (if cur@.len() > 0 { vviews(out@).push(cur@) } else { vviews(out@) }),
        decreases s@.len() - i,
    {
        let c = s[i];
        let ghost t = s@.take(i + 1);
        assert(t.drop_last() =~= s@.take(i as int));
        assert(t.last() == c);
        if i > 0 {
            assert(t[i - 1] == s@[i - 1]);
        }
        if char_is_ws(c) {
            if cur.len() > 0 {
                let done = cur;
                let ghost before = out@;
                out.push(done);
                assert(vviews(out@) =~= vviews(before).push(out@.last()@));
                cur = Vec::new();
            }
        } else {
            let ghost before = cur@;
            cur.push(c);
            proof {
                if before.len() > 0 {
                    assert(vviews(out@).push(before).update(vviews(out@).len() as int, before.push(c))
                        =~= vviews(out@).push(cur@));
                } else {
                    assert(cur@ =~= seq![c]);
                }
            }
        }
        i = i + 1;
    }
    assert(s@.take(s@.len() as int) =~= s@);
    if cur.len() > 0 {
        let ghost before = out@;
        out.push(cur);
        assert(vviews(out@) =~= vviews(before).push(out@.last()@));
    }
    out
}

/// `s` cut to its first `n` characters.
pub open spec fn at_most(s: Seq<char>, n: nat) -> Seq<char> {
    if s.len() <= n { s } else { s.take(n as int) }
}

/// A text's words joined by single spaces: line breaks and runs of whitespace become one space.
pub open spec fn collapsed(s: Seq<char>) -> Seq<char> {
    join_with(words(s), seq![' '])
}

/// The longest description a worktree keeps, in characters.
pub const DESCRIPTION_MAX_CHARS: usize = 200;

/// The one-line description a worktree gets from `description`: its words joined by single
/// spaces, cut to 200 characters; an error when nothing but whitespace was given.
pub fn normalize_description(description: &str) -> (r: Result<String, ToolError>)
    ensures
        match r {
            Ok(d) => collapsed(description@).len() > 0 && d@ == at_most(collapsed(description@), 200),
            Err(e) => collapsed(description@).len() == 0 && e.kind == ToolErrorKind::InvalidParams
                && e.message@ == "description must not be empty"@,
        },
{
    let v = chars_of(description);
    let ws = split_words(v.as_slice());
    let mut sep: Vec<char> = Vec::new();
    sep.push(' ');
    assert(sep@ =~= seq![' ']);
    let joined = chars_join(&ws, sep.as_slice());
    if joined.len() == 0 {
        return Err(invalid_params(owned("description must not be empty")));
    }
    if joined.len() <= DESCRIPTION_MAX_CHARS {
        Ok(string_of(joined.as_slice()))
    } else {
        let cut = chars_range(joined.as_slice(), 0, DESCRIPTION_MAX_CHARS);
        assert(joined@.subrange(0, 200) =~= joined@.take(200));
        Ok(string_of(cut.as_slice()))
    }
}

/// What a tool that acts on one worktree answers when none was named.
pub open spec fn target_hint() -> Seq<char> {
    "specify one of project_dir / worktree_name / worktree_id"@
}

fn target_hint_text() -> (r: &'static str)
    ensures
        r@ == target_hint(),
{
    "specify one of project_dir / worktree_name / worktree_id"
}

/// The worktree a tool call names by id, name or project directory, as [`resolve_worktree`]
/// settles it with the usual hint.
pub open spec fn named_worktree(
    settings: AppSettings,
    project_dir: Option<&str>,
    worktree_name: Option<&str>,
    worktree_id: Option<&str>,
) -> Result<int, Seq<char>> {
    worktree_resolution(
        settings.worktrees@,
        settings.case_insensitive_paths,
        given(worktree_id),
        given(worktree_name),
        given(project_dir),
        target_hint(),
    )
}

fn copy_opt(o: &Option<String>) -> (r: Option<String>)
    ensures
        opt_chars(r) == opt_chars(*o),
{
    match o {
        Some(s) => Some(s.clone()),
        None => None,
    }
}

/// What setting a description changes: the worktree, the description it had, the new one.
#[derive(Debug)]
pub struct DescriptionChange {
    pub worktree: String,
    pub worktree_id: String,
    pub previous: Option<String>,
    pub description: String,
}

/// Settles what setting `description` on the named worktree changes: the description is made
/// one line first (an empty one is refused before the worktree is looked for).
pub fn plan_set_description(
    settings: &AppSettings,
    description: &str,
    project_dir: Option<&str>,
    worktree_name: Option<&str>,
    worktree_id: Option<&str>,
) -> (r: Result<DescriptionChange, ToolError>)
    ensures
        ({
            let c = collapsed(description@);
            let ws = settings.worktrees@;
            match r {
                Ok(ch) => c.len() > 0 && (named_worktree(*settings, project_dir, worktree_name, worktree_id) matches Ok(i)
                    && 0 <= i < ws.len()
                    && ch.worktree@ == ws[i].name@ && ch.worktree_id@ == ws[i].id@
                    && opt_chars(ch.previous) == opt_chars(ws[i].description)
                    && ch.description@ == at_most(c, 200)),
                Err(e) => e.kind == ToolErrorKind::InvalidParams && if c.len() == 0 {
                    e.message@ == "description must not be empty"@
                } else {
                    named_worktree(*settings, project_dir, worktree_name, worktree_id) == Err::<int, Seq<char>>(e.message@)
                },
            }
        }),
{
    let d = match normalize_description(description) {
        Ok(d) => d,
        Err(e) => return Err(e),
    };
    match resolve_worktree(settings, worktree_id, worktree_name, project_dir, target_hint_text()) {
        Ok(w) => Ok(DescriptionChange {
            worktree: w.name.clone(),
            worktree_id: w.id.clone(),
            previous: copy_opt(&w.description),
            description: d,
        }),
        Err(e) => Err(e),
    }
}

/// What changing a worktree's tray setting changes: the setting before and after, each with
/// whether it lets hook notifications through.
#[derive(Debug)]
pub struct TrayChange {
    pub worktree: String,
    pub worktree_id: String,
    pub previous: Option<bool>,
    pub previous_effective: bool,
    pub enabled: Option<bool>,
    pub new_effective: bool,
}

/// Settles what setting the tray notifications of the named worktree to `enabled` changes
/// (`None` puts the setting back to unset, which lets notifications through).
pub fn plan_tray_notification(
    settings: &AppSettings,
    enabled: Option<bool>,
    project_dir: Option<&str>,
    worktree_name: Option<&str>,
    worktree_id: Option<&str>,
) -> (r: Result<TrayChange, ToolError>)
    ensures
        ({
            let ws = settings.worktrees@;
            match r {
                Ok(ch) => named_worktree(*settings, project_dir, worktree_name, worktree_id) matches Ok(i)
                    && 0 <= i < ws.len()
                    && ch.worktree@ == ws[i].name@ && ch.worktree_id@ == ws[i].id@
                    && ch.previous == ws[i].tray_notification
                    && ch.previous_effective == tray_effective(ws[i].tray_notification)
                    && ch.enabled == enabled
                    && ch.new_effective == tray_effective(enabled),
                Err(e) => e.kind == ToolErrorKind::InvalidParams
                    && named_worktree(*settings, project_dir, worktree_name, worktree_id) == Err::<int, Seq<char>>(e.message@),
            }
        }),
{
    match resolve_worktree(settings, worktree_id, worktree_name, project_dir, target_hint_text()) {
        Ok(w) => Ok(TrayChange {
            worktree: w.name.clone(),
            worktree_id: w.id.clone(),
            previous: w.tray_notification,
            previous_effective: effective_tray_setting(w.tray_notification),
            enabled,
            new_effective: effective_tray_setting(enabled),
        }),
        Err(e) => Err(e),
    }
}

/// The error for asking the git state of the home worktree or a repository root.
pub open spec fn no_git_state_message(w: WorktreeEntry) -> Seq<char> {
    "worktree '"@ + w.name@ + "' is the "@ + (if w.is_home { "home worktree"@ } else { "repository"@ })
        + " and has no worktree git state"@
}

/// The worktree whose git state is asked for, by id or name: the home worktree and the
/// repository roots have none.
pub fn inspectable_worktree<'a>(
    settings: &'a AppSettings,
    worktree_name: Option<&str>,
    worktree_id: Option<&str>,
) -> (r: Result<&'a WorktreeEntry, ToolError>)
    ensures
        ({
            let ws = settings.worktrees@;
            match worktree_resolution(ws, settings.case_insensitive_paths, given(worktree_id), given(worktree_name), None,
                "specify one of worktree_name / worktree_id"@) {
                Ok(i) => if ws[i].is_home || ws[i].is_repository {
                    r matches Err(e) && e.kind == ToolErrorKind::InvalidParams && e.message@ == no_git_state_message(ws[i])
                } else {
                    r matches Ok(w) && *w == ws[i]
                },
                Err(m) => r matches Err(e) && e.kind == ToolErrorKind::InvalidParams && e.message@ == m,
            }
        }),
{
    let w = match resolve_worktree(settings, worktree_id, worktree_name, None, "specify one of worktree_name / worktree_id") {
        Ok(w) => w,
        Err(e) => return Err(e),
    };
    if w.is_home || w.is_repository {
        let mut m = owned("worktree '");
        push_str(&mut m, w.name.as_str());
        push_str(&mut m, "' is the ");
        push_str(&mut m, if w.is_home { "home worktree" } else { "repository" });
        push_str(&mut m, " and has no worktree git state");
        return Err(invalid_params(m));
    }
    Ok(w)
}

/// The status of one worktree as the status listing gives it.
#[derive(Debug)]
pub struct WorktreeStatus {
    pub id: String,
    pub name: String,
    pub path: String,
    pub description: Option<String>,
    pub repository_name: String,
    pub branch_name: String,
    /// The workgroup it shows under: its own, else the first one; `None` without workgroups.
    pub workgroup_id: Option<String>,
    pub workgroup_name: Option<String>,
    pub is_home: bool,
    pub is_repository: bool,
    /// Whether it is shown in a window of its own.
    pub is_detached: bool,
    /// The setting as stored: `None` is unset, which lets notifications through.
    pub tray_notification: Option<bool>,
    pub tray_notification_effective: bool,
    /// Its unread notifications: 0 and no kind when there are none.
    pub notification_count: u32,
    pub notification_kind: Option<String>,
    pub first_notified_at: Option<i64>,
}

/// What a status query searches for: the trimmed query, lowercased; none when blank.
pub open spec fn status_needle(query: Option<&str>) -> Option<Seq<char>> {
    match given(query) {
        Some(q) => Some(lowercase(q)),
        None => None,
    }
}

/// Whether a worktree passes a status query: its name, branch or description contains the
/// query, both lowercased.
pub open spec fn passes_query(w: WorktreeEntry, needle: Option<Seq<char>>) -> bool {
    match needle {
        None => true,
        Some(q) => contains_seq(lowercase(w.name@), q) || contains_seq(lowercase(w.branch_name@), q)
            || match w.description {
                Some(d) => contains_seq(lowercase(d@), q),
                None => false,
            },
    }
}

/// The worktrees of `ws` that pass the query, in their order.
pub open spec fn passing(ws: Seq<WorktreeEntry>, needle: Option<Seq<char>>) -> Seq<WorktreeEntry>
    decreases ws.len(),
{
    if ws.len() == 0 {
        Seq::empty()
    } else {
        let p = passing(ws.drop_last(), needle);
        if passes_query(ws.last(), needle) { p.push(ws.last()) } else { p }
    }
}

/// `row` gives the status of `w` under `settings`, with the unread notifications `m`.
pub open spec fn describes(
    row: WorktreeStatus,
    w: WorktreeEntry,
    settings: AppSettings,
    m: Map<Seq<char>, (u32, Seq<char>, i64)>,
) -> bool {
    let gs = settings.workgroups@;
    let g = group_by_id(gs, opt_chars(w.workgroup_id));
    &&& row.id@ == w.id@
    &&& row.name@ == w.name@
    &&& row.path@ == w.path@
    &&& opt_chars(row.description) == opt_chars(w.description)
    &&& row.repository_name@ == w.repository_name@
    &&& row.branch_name@ == w.branch_name@
    &&& opt_chars(row.workgroup_id) == (match g { Some(i) => Some(gs[i].id@), None => None })
    &&& opt_chars(row.workgroup_name) == (match g {
        Some(i) => Some(group_label(gs, settings.locale, gs[i])),
        None => None,
    })
    &&& row.is_home == w.is_home
    &&& row.is_repository == w.is_repository
    &&& row.is_detached == id_set(settings.detached_worktree_ids@).contains(w.id@)
    &&& row.tray_notification == w.tray_notification
    &&& row.tray_notification_effective == tray_effective(w.tray_notification)
    &&& if m.contains_key(w.id@) {
        &&& row.notification_count == m[w.id@].0
        &&& opt_chars(row.notification_kind) == Some(m[w.id@].1)
        &&& row.first_notified_at == Some(m[w.id@].2)
    } else {
        &&& row.notification_count == 0
        &&& row.notification_kind is None
        &&& row.first_notified_at is None
    }
}

fn list_has_id(list: &Vec<String>, id: &str) -> (r: bool)
    ensures
        r == id_set(list@).contains(id@),
{
    let mut i: usize = 0;
    while i < list.len()
        invariant
            i <= list@.len(),
            forall|j: int| 0 <= j < i ==> (#[trigger] list@[j])@ != id@,
        decreases list@.len() - i,
    {
        if str_eq(list[i].as_str(), id) {
            assert(list@[i as int]@ == id@);
            return true;
        }
        i = i + 1;
    }
    false
}

fn status_needle_of(query: Option<&str>) -> (r: Option<Vec<char>>)
    ensures
        match r {
            Some(q) => status_needle(query) == Some(q@),
            None => status_needle(query) is None,
        },
{
    match query {
        Some(q) => {
            let t = str_trim(q);
            if t.len() > 0 {
                let ts = string_of(t.as_slice());
                let low = to_lowercase(ts.as_str());
                Some(chars_of(low.as_str()))
            } else {
                None
            }
        },
        None => None,
    }
}

fn lower_contains(s: &str, q: &[char]) -> (r: bool)
    ensures
        r == contains_seq(lowercase(s@), q@),
{
    let low = to_lowercase(s);
    let lc = chars_of(low.as_str());
    chars_contains(lc.as_slice(), q)
}

fn worktree_passes(w: &WorktreeEntry, needle: &Option<Vec<char>>) -> (r: bool)
    ensures
        r == passes_query(*w, match needle { Some(q) => Some(q@), None => None }),
{
    match needle {
        None => true,
        Some(q) => {
            lower_contains(w.name.as_str(), q.as_slice()) || lower_contains(w.branch_name.as_str(), q.as_slice())
                || match &w.description {
                Some(d) => lower_contains(d.as_str(), q.as_slice()),
                None => false,
            }
        },
    }
}

fn status_row(settings: &AppSettings, notifications: &NotificationRegistry, w: &WorktreeEntry) -> (r: WorktreeStatus)
    ensures
        describes(r, *w, *settings, notifications@),
{
    let (workgroup_id, workgroup_name) = match resolve_workgroup(settings, w) {
        Some(i) => {
            let g = &settings.workgroups[i];
            (Some(g.id.clone()), Some(workgroup_display_name(settings, g)))
        },
        None => (None, None),
    };
    let (notification_count, notification_kind, first_notified_at) = match notifications.get(w.id.as_str()) {
        Some(n) => (n.count, Some(n.kind.clone()), Some(n.first_notified_at)),
        None => (0, None, None),
    };
    WorktreeStatus {
        id: w.id.clone(),
        name: w.name.clone(),
        path: w.path.clone(),
        description: copy_opt(&w.description),
        repository_name: w.repository_name.clone(),
        branch_name: w.branch_name.clone(),
        workgroup_id,
        workgroup_name,
        is_home: w.is_home,
        is_repository: w.is_repository,
        is_detached: list_has_id(&settings.detached_worktree_ids, w.id.as_str()),
        tray_notification: w.tray_notification,
        tray_notification_effective: effective_tray_setting(w.tray_notification),
        notification_count,
        notification_kind,
        first_notified_at,
    }
}

/// The status of each registered worktree (pseudo worktrees included) that passes `query`, in
/// the settings' order; a blank or missing query passes every worktree.
pub fn worktree_status(settings: &AppSettings, notifications: &NotificationRegistry, query: Option<&str>) -> (r: Vec<WorktreeStatus>)
    ensures
        r@.len() == passing(settings.worktrees@, status_needle(query)).len(),
        forall|i: int| 0 <= i < r@.len()
            ==> describes(#[trigger] r@[i], passing(settings.worktrees@, status_needle(query))[i], *settings, notifications@),
{
    let needle = status_needle_of(query);
    let ghost nv = status_needle(query);
    let ws = &settings.worktrees;
    let mut out: Vec<WorktreeStatus> = Vec::new();
    let mut i: usize = 0;
    assert(ws@.take(0) =~= Seq::<WorktreeEntry>::empty());
    while i < ws.len()
        invariant
            i <= ws@.len(),
            ws == &settings.worktrees,
            nv == status_needle(query),
            nv == match needle { Some(q) => Some(q@), None => None::<Seq<char>> },
            out@.len() == passing(ws@.take(i as int), nv).len(),
            forall|j: int| 0 <= j < out@.len()
                ==> describes(#[trigger] out@[j], passing(ws@.take(i as int), nv)[j], *settings, notifications@),
        decreases ws@.len() - i,
    {
        let w = &ws[i];
        let ghost t = ws@.take(i + 1);
        assert(t.drop_last() =~= ws@.take(i as int));
        assert(t.last() == ws@[i as int]);
        if worktree_passes(w, &needle) {
            let row = status_row(settings, notifications, w);
            out.push(row);
        }
        i = i + 1;
    }
    assert(ws@.take(ws@.len() as int) =~= ws@);
    out
}

/// Once a worktree's notifications are taken out of the mirror (as clearing them does), the
/// status of that worktree shows none and the listing of waiting notifications leaves it out.
pub proof fn lemma_cleared_worktree_shows_nothing(
    row: WorktreeStatus,
    w: WorktreeEntry,
    settings: AppSettings,
    m: Map<Seq<char>, (u32, Seq<char>, i64)>,
    items: Seq<NotificationItem>,
)
    requires
        describes(row, w, settings, m.remove(w.id@)),
        lists_notifications(items, m.remove(w.id@), settings.worktrees@),
    ensures
        row.notification_count == 0,
        row.notification_kind is None,
        row.first_notified_at is None,
        forall|i: int| 0 <= i < items.len() ==> (#[trigger] items[i]).worktree_id@ != w.id@,
{
    assert forall|i: int| 0 <= i < items.len() implies (#[trigger] items[i]).worktree_id@ != w.id@ by {
        assert(item_ids(items)[i] == items[i].worktree_id@);
        if items[i].worktree_id@ == w.id@ {
            assert(item_ids(items).contains(w.id@));
        }
    }
}

/// A workgroup as the workgroup listing gives it.
#[derive(Debug)]
pub struct WorkgroupItem {
    pub id: String,
    /// The name it is shown under.
    pub name: String,
    /// The first workgroup is where worktrees without one are shown, and where tasks go
    /// when no workgroup is named.
    pub is_default: bool,
}

/// The workgroups in order, each with the name it is shown under; the first is the default.
pub fn list_workgroups(settings: &AppSettings) -> (r: Vec<WorkgroupItem>)
    ensures
        r@.len() == settings.workgroups@.len(),
        forall|i: int| 0 <= i < r@.len() ==> {
            &&& (#[trigger] r@[i]).id@ == settings.workgroups@[i].id@
            &&& r@[i].name@ == group_label(settings.workgroups@, settings.locale, settings.workgroups@[i])
            &&& r@[i].is_default == (i == 0)
        },
{
    let gs = &settings.workgroups;
    let mut out: Vec<WorkgroupItem> = Vec::new();
    let mut i: usize = 0;
    while i < gs.len()
        invariant
            i <= gs@.len(),
            gs == &settings.workgroups,
            out@.len() == i,
            forall|j: int| 0 <= j < i ==> {
                &&& (#[trigger] out@[j]).id@ == gs@[j].id@
                &&& out@[j].name@ == group_label(gs@, settings.locale, gs@[j])
                &&& out@[j].is_default == (j == 0)
            },
        decreases gs@.len() - i,
    {
        let g = &gs[i];
        out.push(WorkgroupItem { id: g.id.clone(), name: workgroup_display_name(settings, g), is_default: i == 0 });
        i = i + 1;
    }
    out
}

/// How many of `ws` are real worktrees (neither the home worktree nor a repository root).
pub open spec fn real_worktrees(ws: Seq<WorktreeEntry>) -> nat
    decreases ws.len(),
{
    if ws.len() == 0 {
        0
    } else {
        real_worktrees(ws.drop_last()) + if !ws.last().is_home && !ws.last().is_repository { 1nat } else { 0nat }
    }
}

/// How many real worktrees are registered (the pseudo worktrees not counted).
pub fn registered_worktree_count(settings: &AppSettings) -> (r: usize)
    ensures
        r == real_worktrees(settings.worktrees@),
{
    let ws = &settings.worktrees;
    let mut n: usize = 0;
    let mut i: usize = 0;
    assert(ws@.take(0) =~= Seq::<WorktreeEntry>::empty());
    while i < ws.len()
        invariant
            i <= ws@.len(),
            n <= i,
            n == real_worktrees(ws@.take(i as int)),
        decreases ws@.len() - i,
    {
        let ghost t = ws@.take(i + 1);
        assert(t.drop_last() =~= ws@.take(i as int));
        assert(t.last() == ws@[i as int]);
        if !ws[i].is_home && !ws[i].is_repository {
            n = n + 1;
        }
        i = i + 1;
    }
    assert(ws@.take(ws@.len() as int) =~= ws@);
    n
}

/// The page of archives asked for: the search text, and where the page starts and how long
/// it is.
#[derive(Debug)]
pub struct ArchivePage {
    pub search: String,
    pub offset: i64,
    pub limit: i64,
}

/// The page of archives asked for: the query trimmed (empty when missing), the offset (0 when
/// missing, never negative), the limit (50 when missing, kept between 1 and 200).
pub fn archive_page(query: Option<&str>, offset: Option<i64>, limit: Option<i64>) -> (r: ArchivePage)
    ensures
        r.search@ == match query { Some(q) => trim(q@), None => Seq::<char>::empty() },
        r.offset == match offset { Some(o) => if o < 0 { 0 } else { o }, None => 0 },
        r.limit == match limit { Some(l) => if l < 1 { 1 } else if l > 200 { 200 } else { l }, None => 50 },
{
    let search = match query {
        Some(q) => string_of(str_trim(q).as_slice()),
        None => String::new(),
    };
    let offset = match offset {
        Some(o) => if o < 0 { 0 } else { o },
        None => 0,
    };
    let limit = match limit {
        Some(l) => if l < 1 { 1 } else if l > 200 { 200 } else { l },
        None => 50,
    };
    ArchivePage { search, offset, limit }
}

/// The name of the workgroup an archive was recorded under: the workgroup with exactly that id
/// (no fallback, so a workgroup deleted since is no name at all).
pub fn archive_workgroup_name(settings: &AppSettings, workgroup_id: Option<&str>) -> (r: Option<String>)
    ensures
        opt_chars(r) == match given(workgroup_id) {
            Some(id) => match position_of(settings.workgroups@, id) {
                Some(p) => Some(group_label(settings.workgroups@, settings.locale, settings.workgroups@[p as int])),
                None => None,
            },
            None => None,
        },
{
    let id = match workgroup_id {
        Some(s) => {
            let t = str_trim(s);
            if t.len() == 0 {
                return None;
            }
            string_of(t.as_slice())
        },
        None => return None,
    };
    match find_group(settings, id.as_str()) {
        Some(p) => Some(workgroup_display_name(settings, &settings.workgroups[p])),
        None => None,
    }
}

/// A repository as the repository listing gives it (the remotes are read from git apart).
#[derive(Debug)]
pub struct RepositoryItem {
    pub name: String,
    pub path: String,
    /// Its branch-name pattern, trimmed; `None` when unset or blank.
    pub branch_name_pattern: Option<String>,
}

/// The registered repositories in order, each with its trimmed branch-name pattern.
pub fn list_repositories(settings: &AppSettings) -> (r: Vec<RepositoryItem>)
    ensures
        r@.len() == settings.repositories@.len(),
        forall|i: int| 0 <= i < r@.len() ==> {
            &&& (#[trigger] r@[i]).name@ == settings.repositories@[i].name@
            &&& r@[i].path@ == settings.repositories@[i].path@
            &&& opt_chars(r@[i].branch_name_pattern) == match settings.repositories@[i].branch_name_pattern {
                Some(p) => if trim(p@).len() > 0 { Some(trim(p@)) } else { None },
                None => None,
            }
        },
{
    let rs = &settings.repositories;
    let mut out: Vec<RepositoryItem> = Vec::new();
    let mut i: usize = 0;
    while i < rs.len()
        invariant
            i <= rs@.len(),
            rs == &settings.repositories,
            out@.len() == i,
            forall|j: int| 0 <= j < i ==> {
                &&& (#[trigger] out@[j]).name@ == rs@[j].name@
                &&& out@[j].path@ == rs@[j].path@
                &&& opt_chars(out@[j].branch_name_pattern) == match rs@[j].branch_name_pattern {
                    Some(p) => if trim(p@).len() > 0 { Some(trim(p@)) } else { None },
                    None => None,
                }
            },
        decreases rs@.len() - i,
    {
        let repo = &rs[i];
        let pattern = match &repo.branch_name_pattern {
            Some(p) => {
                let t = str_trim(p.as_str());
                if t.len() > 0 { Some(string_of(t.as_slice())) } else { None }
            },
            None => None,
        };
        out.push(RepositoryItem { name: repo.name.clone(), path: repo.path.clone(), branch_name_pattern: pattern });
        i = i + 1;
    }
    out
}

/// What a close asks the window to do.
#[derive(Debug)]
pub struct CloseRequest {
    pub worktree_id: String,
    pub worktree_name: String,
    /// The branch to merge into first; empty for none.
    pub merge_to: String,
    pub delete_branch: bool,
    /// Whether an unmerged branch is deleted too: as asked, else as `delete_branch`.
    pub force_branch: bool,
}

/// The error for closing the home worktree or a repository root.
pub open spec fn not_closable_message(w: WorktreeEntry) -> Seq<char> {
    "worktree '"@ + w.name@ + "' is the "@ + (if w.is_home { "home worktree"@ } else { "repository"@ })
        + " and cannot be closed"@
}

/// Settles what closing the named worktree asks for: a name is required, the home worktree
/// and the repository roots are never closed, the branch is deleted only when asked, and an
/// unmerged one only when asked or, when not said, when the branch is deleted.
pub fn plan_close_worktree(
    settings: &AppSettings,
    worktree_name: &str,
    worktree_id: Option<&str>,
    merge_to: Option<String>,
    delete_branch: Option<bool>,
    force_branch: Option<bool>,
) -> (r: Result<CloseRequest, ToolError>)
    ensures
        ({
            let ws = settings.worktrees@;
            if trim(worktree_name@).len() == 0 {
                r matches Err(e) && e.kind == ToolErrorKind::InvalidParams && e.message@ == "worktree_name must not be empty"@
            } else {
                match worktree_resolution(ws, settings.case_insensitive_paths, given(worktree_id), given(Some(worktree_name)),
                    None, "specify one of worktree_name / worktree_id"@) {
                    Ok(i) => if ws[i].is_home || ws[i].is_repository {
                        r matches Err(e) && e.kind == ToolErrorKind::InvalidParams && e.message@ == not_closable_message(ws[i])
                    } else {
                        r matches Ok(q) && q.worktree_id@ == ws[i].id@ && q.worktree_name@ == ws[i].name@
                            && q.merge_to@ == (match merge_to { Some(m) => m@, None => Seq::<char>::empty() })
                            && q.delete_branch == (match delete_branch { Some(b) => b, None => false })
                            && q.force_branch == (match force_branch { Some(b) => b, None => q.delete_branch })
                    },
                    Err(m) => r matches Err(e) && e.kind == ToolErrorKind::InvalidParams && e.message@ == m,
                }
            }
        }),
{
    if str_trim(worktree_name).len() == 0 {
        return Err(invalid_params(owned("worktree_name must not be empty")));
    }
    let w = match resolve_worktree(settings, worktree_id, Some(worktree_name), None, "specify one of worktree_name / worktree_id") {
        Ok(w) => w,
        Err(e) => return Err(e),
    };
    if w.is_home || w.is_repository {
        let mut m = owned("worktree '");
        push_str(&mut m, w.name.as_str());
        push_str(&mut m, "' is the ");
        push_str(&mut m, if w.is_home { "home worktree" } else { "repository" });
        push_str(&mut m, " and cannot be closed");
        return Err(invalid_params(m));
    }
    let delete = match delete_branch {
        Some(b) => b,
        None => false,
    };
    let force = match force_branch {
        Some(b) => b,
        None => delete,
    };
    let merge = match merge_to {
        Some(m) => m,
        None => String::new(),
    };
    Ok(CloseRequest {
        worktree_id: w.id.clone(),
        worktree_name: w.name.clone(),
        merge_to: merge,
        delete_branch: delete,
        force_branch: force,
    })
}

/// How waiting for the window's answer to a close ended.
#[derive(Debug)]
pub enum CloseWait {
    /// The window answered.
    Answered(CloseWorktreeOutcome),
    /// The answer was dropped without being sent.
    Dropped,
    /// No answer came in time.
    TimedOut,
}

/// What a close tool call answers.
#[derive(Debug)]
pub enum CloseAnswer {
    /// The call succeeds with this text.
    Done(String),
    /// The call fails with this internal error.
    Failed(String),
}

/// The answer to a close of the worktree `name`: closed, cancelled by the user, already being
/// closed, failed with the window's message, or, when no answer came, what to check instead.
pub open spec fn close_answer_text(wait: CloseWait, name: Seq<char>) -> (bool, Seq<char>) {
    match wait {
        CloseWait::Answered(CloseWorktreeOutcome::Closed) => (true, "ワークツリー '"@ + name + "' をクローズしました。"@),
        CloseWait::Answered(CloseWorktreeOutcome::Cancelled) => (true, "ワークツリー '"@ + name
            + "' のクローズはユーザー操作によりキャンセルされました。ワークツリーはそのまま残っています。"@),
        CloseWait::Answered(CloseWorktreeOutcome::Busy) => (true, "ワークツリー '"@ + name
            + "' は既にクローズ処理中です。再実行せず、oretachi_get_worktree_status で完了を確認してください。"@),
        CloseWait::Answered(CloseWorktreeOutcome::Failed(m)) => (false, "ワークツリー '"@ + name
            + "' のクローズに失敗しました: "@ + m@),
        CloseWait::Dropped => (true,
            "ワークツリーのクローズリクエストを送信しましたが、結果を受け取れませんでした。oretachi_get_worktree_status で確認してください。"@),
        CloseWait::TimedOut => (true,
            "ワークツリーのクローズリクエストを送信しましたが、時間内に完了しませんでした。削除リトライ中（UI からキャンセル可能）か、メインウィンドウがまだ処理を受け付けていない可能性があります。このツールを再実行せず、oretachi_get_worktree_status で状態を確認してください（再実行しても処理中のクローズには影響しません）。"@),
    }
}

fn quoted_name(name: &str, rest: &str) -> (r: String)
    ensures
        r@ == "ワークツリー '"@ + name@ + rest@,
{
    let mut m = owned("ワークツリー '");
    push_str(&mut m, name);
    push_str(&mut m, rest);
    m
}

/// The answer to a close of the worktree `name` (see [`close_answer_text`]).
pub fn close_answer(wait: CloseWait, name: &str) -> (r: CloseAnswer)
    ensures
        match r {
            CloseAnswer::Done(t) => close_answer_text(wait, name@) == (true, t@),
            CloseAnswer::Failed(t) => close_answer_text(wait, name@) == (false, t@),
        },
{
    match wait {
        CloseWait::Answered(CloseWorktreeOutcome::Closed) => CloseAnswer::Done(quoted_name(name, "' をクローズしました。")),
        CloseWait::Answered(CloseWorktreeOutcome::Cancelled) => CloseAnswer::Done(quoted_name(name,
            "' のクローズはユーザー操作によりキャンセルされました。ワークツリーはそのまま残っています。")),
        CloseWait::Answered(CloseWorktreeOutcome::Busy) => CloseAnswer::Done(quoted_name(name,
            "' は既にクローズ処理中です。再実行せず、oretachi_get_worktree_status で完了を確認してください。")),
        CloseWait::Answered(CloseWorktreeOutcome::Failed(m)) => {
            let mut t = quoted_name(name, "' のクローズに失敗しました: ");
            push_str(&mut t, m.as_str());
            CloseAnswer::Failed(t)
        },
        CloseWait::Dropped => CloseAnswer::Done(owned(
            "ワークツリーのクローズリクエストを送信しましたが、結果を受け取れませんでした。oretachi_get_worktree_status で確認してください。")),
        CloseWait::TimedOut => CloseAnswer::Done(owned(
            "ワークツリーのクローズリクエストを送信しましたが、時間内に完了しませんでした。削除リトライ中（UI からキャンセル可能）か、メインウィンドウがまだ処理を受け付けていない可能性があります。このツールを再実行せず、oretachi_get_worktree_status で状態を確認してください（再実行しても処理中のクローズには影響しません）。")),
    }
}

/// What adding a task asks the window to do.
#[derive(Debug)]
pub struct AddTaskRequest {
    pub prompt: String,
    pub remote_exec: bool,
    /// The workgroup the task goes to: the one named, else the default (first) one; `None`
    /// without workgroups.
    pub workgroup_id: Option<String>,
}

/// Settles what adding a task asks for: the prompt trimmed and required, the workgroup the
/// one named by id (else by name), else the default one.
pub fn plan_add_task(
    settings: &AppSettings,
    prompt: &str,
    remote_exec: Option<bool>,
    workgroup_id: Option<&str>,
    workgroup_name: Option<&str>,
) -> (r: Result<AddTaskRequest, ToolError>)
    ensures
        ({
            let gs = settings.workgroups@;
            if trim(prompt@).len() == 0 {
                r matches Err(e) && e.kind == ToolErrorKind::InvalidParams && e.message@ == "prompt must not be empty"@
            } else {
                match workgroup_target(gs, settings.locale, given(workgroup_id), given(workgroup_name)) {
                    Err(m) => r matches Err(e) && e.kind == ToolErrorKind::InvalidParams && e.message@ == m,
                    Ok(g) => r matches Ok(q) && q.prompt@ == trim(prompt@)
                        && q.remote_exec == (match remote_exec { Some(b) => b, None => false })
                        && opt_chars(q.workgroup_id) == match g {
                            Some(id) => Some(id),
                            None => if gs.len() > 0 { Some(gs[0].id@) } else { None },
                        },
                }
            }
        }),
{
    let p = str_trim(prompt);
    if p.len() == 0 {
        return Err(invalid_params(owned("prompt must not be empty")));
    }
    let explicit = match resolve_workgroup_target(settings, workgroup_id, workgroup_name) {
        Ok(g) => g,
        Err(m) => return Err(invalid_params(m)),
    };
    let wg = match explicit {
        Some(id) => Some(id),
        None => default_workgroup_id(settings),
    };
    Ok(AddTaskRequest {
        prompt: string_of(p.as_slice()),
        remote_exec: match remote_exec {
            Some(b) => b,
            None => false,
        },
        workgroup_id: wg,
    })
}

/// Settles the worktree a new terminal opens in: the worktree name and the command are both
/// required (not blank).
pub fn plan_spawn_terminal<'a>(
    settings: &'a AppSettings,
    worktree_name: &str,
    worktree_id: Option<&str>,
    command: &str,
) -> (r: Result<&'a WorktreeEntry, ToolError>)
    ensures
        ({
            let ws = settings.worktrees@;
            if trim(worktree_name@).len() == 0 {
                r matches Err(e) && e.kind == ToolErrorKind::InvalidParams && e.message@ == "worktree_name must not be empty"@
            } else if trim(command@).len() == 0 {
                r matches Err(e) && e.kind == ToolErrorKind::InvalidParams && e.message@ == "command must not be empty"@
            } else {
                match worktree_resolution(ws, settings.case_insensitive_paths, given(worktree_id), given(Some(worktree_name)),
                    None, "specify one of worktree_name / worktree_id"@) {
                    Ok(i) => r matches Ok(w) && *w == ws[i],
                    Err(m) => r matches Err(e) && e.kind == ToolErrorKind::InvalidParams && e.message@ == m,
                }
            }
        }),
{
    if str_trim(worktree_name).len() == 0 {
        return Err(invalid_params(owned("worktree_name must not be empty")));
    }
    if str_trim(command).len() == 0 {
        return Err(invalid_params(owned("command must not be empty")));
    }
    resolve_worktree(settings, worktree_id, Some(worktree_name), None, "specify one of worktree_name / worktree_id")
}

/// What showing a worktree asks the window for, and what the call answers.
#[derive(Debug)]
pub struct ShowRequest {
    pub worktree_id: String,
    pub reply: String,
}

/// Settles the worktree to bring to the front (by name or id) and the answer.
pub fn plan_show_worktree(
    settings: &AppSettings,
    worktree_name: Option<&str>,
    worktree_id: Option<&str>,
) -> (r: Result<ShowRequest, ToolError>)
    ensures
        ({
            let ws = settings.worktrees@;
            match worktree_resolution(ws, settings.case_insensitive_paths, given(worktree_id), given(worktree_name), None,
                "specify one of worktree_name / worktree_id"@) {
                Ok(i) => r matches Ok(q) && q.worktree_id@ == ws[i].id@
                    && q.reply@ == "ワークツリー '"@ + ws[i].name@ + "' を表示しました。"@,
                Err(m) => r matches Err(e) && e.kind == ToolErrorKind::InvalidParams && e.message@ == m,
            }
        }),
{
    match resolve_worktree(settings, worktree_id, worktree_name, None, "specify one of worktree_name / worktree_id") {
        Ok(w) => Ok(ShowRequest { worktree_id: w.id.clone(), reply: quoted_name(w.name.as_str(), "' を表示しました。") }),
        Err(e) => Err(e),
    }
}

/// Settles which worktree's terminals a terminal listing keeps: every terminal when neither
/// a name nor an id is given (blank counts as not given), else the terminals of the worktree
/// they name, given by its id.
pub fn terminal_filter(
    settings: &AppSettings,
    worktree_name: Option<&str>,
    worktree_id: Option<&str>,
) -> (r: Result<Option<String>, ToolError>)
    ensures
        ({
            let ws = settings.worktrees@;
            if given(worktree_id) is None && given(worktree_name) is None {
                r matches Ok(None)
            } else {
                match worktree_resolution(ws, settings.case_insensitive_paths, given(worktree_id), given(worktree_name), None,
                    "specify one of worktree_name / worktree_id"@) {
                    Ok(i) => r matches Ok(Some(id)) && id@ == ws[i].id@,
                    Err(m) => r matches Err(e) && e.kind == ToolErrorKind::InvalidParams && e.message@ == m,
                }
            }
        }),
{
    let has_id = match worktree_id {
        Some(s) => str_trim(s).len() > 0,
        None => false,
    };
    let has_name = match worktree_name {
        Some(s) => str_trim(s).len() > 0,
        None => false,
    };
    if !has_id && !has_name {
        return Ok(None);
    }
    match resolve_worktree(settings, worktree_id, worktree_name, None, "specify one of worktree_name / worktree_id") {
        Ok(w) => Ok(Some(w.id.clone())),
        Err(e) => Err(e),
    }
}

} // verus!
