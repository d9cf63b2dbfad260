//! What the task listing asks the task store for, and the registered worktree that each step
//! of a task's generated code names.

use vstd::prelude::*;
use crate::errors::{ToolError, ToolErrorKind, invalid_params};
use crate::json::{JsonValue, lookup, str_of, get, get_str, with_key};
use crate::settings::{AppSettings, WorktreeEntry};
use crate::text::{
    chars_of, chars_join, vviews, join_with, string_of, str_eq, str_trim, to_lowercase, lowercase, trim, push_str, owned,
};
use crate::workgroups::given;
use crate::worktrees::{first_where, is_entry_at};

verus! {

broadcast use vstd::string::group_string_axioms;

/// The states a task can be in.
pub const TASK_STATUSES: [&'static str; 5] = ["generating", "queued", "executing", "completed", "error"];

/// The states a task can be in.
pub open spec fn task_statuses() -> Seq<Seq<char>> {
    seq!["generating"@, "queued"@, "executing"@, "completed"@, "error"@]
}

proof fn lemma_task_statuses_const()
    ensures
        forall|i: int| 0 <= i < 5 ==> #[trigger] TASK_STATUSES@[i]@ == task_statuses()[i],
        task_statuses().len() == 5,
{
}

fn is_task_status(s: &str) -> (r: bool)
    ensures
        r == task_statuses().contains(s@),
{
    proof { lemma_task_statuses_const(); }
    let mut i: usize = 0;
    while i < 5
        invariant
            i <= 5,
            forall|k: int| 0 <= k < i ==> task_statuses()[k] != s@,
        decreases 5 - i,
    {
        if str_eq(TASK_STATUSES[i], s) {
            assert(task_statuses()[i as int] == s@);
            return true;
        }
        i = i + 1;
    }
    false
}

/// The error for a status no task can be in.
pub open spec fn unknown_status_message(s: Seq<char>) -> Seq<char> {
    "unknown status '"@ + s + "'. valid: "@ + join_with(task_statuses(), " / "@)
}

fn unknown_status_error(s: &str) -> (r: ToolError)
    ensures
        r.kind == ToolErrorKind::InvalidParams,
        r.message@ == unknown_status_message(s@),
{
    proof { lemma_task_statuses_const(); }
    let mut names: Vec<Vec<char>> = Vec::new();
    let mut i: usize = 0;
    while i < 5
        invariant
            i <= 5,
            vviews(names@) == task_statuses().take(i as int),
        decreases 5 - i,
    {
        let ghost before = names@;
        names.push(chars_of(TASK_STATUSES[i]));
        assert(vviews(names@) =~= vviews(before).push(task_statuses()[i as int]));
        assert(task_statuses().take(i + 1) =~= task_statuses().take(i as int).push(task_statuses()[i as int]));
        i = i + 1;
    }
    assert(task_statuses().take(5) == task_statuses());
    let sep = chars_of(" / ");
    let joined = chars_join(&names, sep.as_slice());
    let mut m = owned("unknown status '");
    push_str(&mut m, s);
    push_str(&mut m, "'. valid: ");
    push_str(&mut m, string_of(joined.as_slice()).as_str());
    invalid_params(m)
}

/// What the task listing asks the task store for.
#[derive(Debug)]
pub enum TaskQuery {
    /// The one task with this id.
    One(String),
    /// A page of the tasks whose prompt or generated code contains `search`, in state
    /// `status` (empty: any state).
    Page { search: String, status: String, offset: i64, limit: i64 },
}

/// A text argument trimmed, empty when missing.
pub open spec fn trimmed_or_empty(o: Option<&str>) -> Seq<char> {
    match o {
        Some(s) => trim(s@),
        None => Seq::<char>::empty(),
    }
}

/// Settles what the task listing asks for: a task id (trimmed, not blank) asks for that task
/// alone and the other arguments are not looked at; otherwise a page, with the status checked
/// (trimmed, compared lowercased; an unknown one is an error rather than an empty page), the
/// offset 0 when missing and never negative, the limit 20 when missing and kept between 1 and
/// 100.
pub fn task_query(
    task_id: Option<&str>,
    query: Option<&str>,
    status: Option<&str>,
    offset: Option<i64>,
    limit: Option<i64>,
) -> (r: Result<TaskQuery, ToolError>)
    ensures
        match given(task_id) {
            Some(id) => r matches Ok(TaskQuery::One(t)) && t@ == id,
            None => {
                let st = trimmed_or_empty(status);
                if st.len() > 0 && !task_statuses().contains(lowercase(st)) {
                    r matches Err(e) && e.kind == ToolErrorKind::InvalidParams && e.message@ == unknown_status_message(st)
                } else {
                    r matches Ok(TaskQuery::Page { search, status: sv, offset: o, limit: l })
                        && search@ == trimmed_or_empty(query)
                        && sv@ == (if st.len() > 0 { lowercase(st) } else { Seq::<char>::empty() })
                        && o == (match offset { Some(x) => if x < 0 { 0 } else { x }, None => 0 })
                        && l == (match limit { Some(x) => if x < 1 { 1 } else if x > 100 { 100 } else { x }, None => 20 })
                }
            },
        },
{
    if let Some(id) = task_id {
        let t = str_trim(id);
        if t.len() > 0 {
            return Ok(TaskQuery::One(string_of(t.as_slice())));
        }
    }
    let st: Vec<char> = match status {
        Some(s) => str_trim(s),
        None => Vec::new(),
    };
    let sv = if st.len() == 0 {
        String::new()
    } else {
        let sts = string_of(st.as_slice());
        let lowered = to_lowercase(sts.as_str());
        if !is_task_status(lowered.as_str()) {
            return Err(unknown_status_error(sts.as_str()));
        }
        lowered
    };
    let search = match query {
        Some(q) => string_of(str_trim(q).as_slice()),
        None => String::new(),
    };
    let offset = match offset {
        Some(x) => if x < 0 { 0 } else { x },
        None => 0,
    };
    let limit = match limit {
        Some(x) => if x < 1 { 1 } else if x > 100 { 100 } else { x },
        None => 20,
    };
    Ok(TaskQuery::Page { search, status: sv, offset, limit })
}

/// The position of the worktree a generated step names: the first registered one of that
/// repository on that branch.
pub open spec fn step_worktree(ws: Seq<WorktreeEntry>, repo: Seq<char>, branch: Seq<char>) -> Option<int> {
    first_where(ws, |w: WorktreeEntry| w.repository_name@ == repo && w.branch_name@ == branch, 0)
}

fn find_step_worktree<'a>(settings: &'a AppSettings, repo: &str, branch: &str) -> (r: Option<&'a WorktreeEntry>)
    ensures
        is_entry_at(r, settings.worktrees@, step_worktree(settings.worktrees@, repo@, branch@)),
{
    let ws = &settings.worktrees;
    let ghost f = |w: WorktreeEntry| w.repository_name@ == repo@ && w.branch_name@ == branch@;
    let mut i: usize = 0;
    while i < ws.len()
        invariant
            i <= ws@.len(),
            ws == &settings.worktrees,
            f == |w: WorktreeEntry| w.repository_name@ == repo@ && w.branch_name@ == branch@,
            first_where(ws@, f, 0) == first_where(ws@, f, i as int),
        decreases ws@.len() - i,
    {
        if str_eq(ws[i].repository_name.as_str(), repo) && str_eq(ws[i].branch_name.as_str(), branch) {
            return Some(&ws[i]);
        }
        i = i + 1;
    }
    None
}

/// The part of a step that holds its code: its `code` member, else the step itself.
pub open spec fn step_code(step: JsonValue) -> JsonValue {
    match step {
        JsonValue::Object(es) => match lookup(es@, "code"@) {
            Some(c) => c,
            None => step,
        },
        _ => step,
    }
}

/// The text of member `k` of a value that is an object, when that member is a string.
pub open spec fn member_str(v: JsonValue, k: Seq<char>) -> Option<Seq<char>> {
    match v {
        JsonValue::Object(es) => str_of(lookup(es@, k)),
        _ => None,
    }
}

/// `v` is the JSON for an optional text: the string, or null.
pub open spec fn text_or_null(v: Option<JsonValue>, t: Option<Seq<char>>) -> bool {
    match t {
        Some(s) => v matches Some(JsonValue::Str(x)) && x@ == s,
        None => v matches Some(JsonValue::Null),
    }
}

/// A generated step with the registered worktree it names: when the step is an object whose
/// code (its `code` member, else itself) names a repository and a branch, it gets
/// `worktreeName` and `worktreeId` of the first worktree of that repository on that branch
/// (null when none is registered); any other step is kept as it is.
pub fn annotate_task_step(settings: &AppSettings, step: JsonValue) -> (r: JsonValue)
    ensures
        ({
            let code = step_code(step);
            let ws = settings.worktrees@;
            match (member_str(code, "repository"@), member_str(code, "branch"@), step) {
                (Some(repo), Some(branch), JsonValue::Object(es)) => r matches JsonValue::Object(out) && {
                    let at = step_worktree(ws, repo, branch);
                    &&& text_or_null(lookup(out@, "worktreeName"@), match at { Some(i) => Some(ws[i].name@), None => None })
                    &&& text_or_null(lookup(out@, "worktreeId"@), match at { Some(i) => Some(ws[i].id@), None => None })
                    &&& forall|q: Seq<char>| q != "worktreeName"@ && q != "worktreeId"@ ==> #[trigger] lookup(out@, q) == lookup(es@, q)
                },
                _ => r == step,
            }
        }),
{
    let named: Option<(String, String)> = {
        let code: &JsonValue = match &step {
            JsonValue::Object(es) => match get(es, "code") {
                Some(c) => c,
                None => &step,
            },
            _ => &step,
        };
        match code {
            JsonValue::Object(ces) => match (get_str(ces, "repository"), get_str(ces, "branch")) {
                (Some(repo), Some(branch)) => Some((repo.clone(), branch.clone())),
                _ => None,
            },
            _ => None,
        }
    };
    match (named, step) {
        (Some((repo, branch)), JsonValue::Object(es)) => {
            let wt = find_step_worktree(settings, repo.as_str(), branch.as_str());
            let (name, id) = match wt {
                Some(w) => (JsonValue::Str(w.name.clone()), JsonValue::Str(w.id.clone())),
                None => (JsonValue::Null, JsonValue::Null),
            };
            let es = with_key(es, "worktreeName", name);
            let es = with_key(es, "worktreeId", id);
            proof {
                reveal_strlit("worktreeName");
                reveal_strlit("worktreeId");
                assert("worktreeName"@.len() != "worktreeId"@.len());
            }
            JsonValue::Object(es)
        },
        (_, step) => step,
    }
}

/// Each generated step with the registered worktree it names (see [`annotate_task_step`]).
pub fn annotate_task_steps(settings: &AppSettings, steps: Vec<JsonValue>) -> (r: Vec<JsonValue>)
    ensures
        r@.len() == steps@.len(),
        forall|i: int| 0 <= i < r@.len() ==> {
            let code = step_code(steps@[i]);
            let ws = settings.worktrees@;
            match (member_str(code, "repository"@), member_str(code, "branch"@), steps@[i]) {
                (Some(repo), Some(branch), JsonValue::Object(es)) => (#[trigger] r@[i]) matches JsonValue::Object(out) && {
                    let at = step_worktree(ws, repo, branch);
                    &&& text_or_null(lookup(out@, "worktreeName"@), match at { Some(j) => Some(ws[j].name@), None => None })
                    &&& text_or_null(lookup(out@, "worktreeId"@), match at { Some(j) => Some(ws[j].id@), None => None })
                    &&& forall|q: Seq<char>| q != "worktreeName"@ && q != "worktreeId"@ ==> #[trigger] lookup(out@, q) == lookup(es@, q)
                },
                _ => r@[i] == steps@[i],
            }
        },
{
    let ghost all = steps@;
    let mut rest = steps;
    let mut out: Vec<JsonValue> = Vec::new();
    let ghost mut i: int = 0;
    assert(all.skip(0) =~= all);
    while rest.len() > 0
        invariant
            0 <= i <= all.len(),
            rest@ == all.skip(i),
            out@.len() == i,
            forall|j: int| 0 <= j < i ==> {
                let code = step_code(all[j]);
                let ws = settings.worktrees@;
                match (member_str(code, "repository"@), member_str(code, "branch"@), all[j]) {
                    (Some(repo), Some(branch), JsonValue::Object(es)) => (#[trigger] out@[j]) matches JsonValue::Object(o) && {
                        let at = step_worktree(ws, repo, branch);
                        &&& text_or_null(lookup(o@, "worktreeName"@), match at { Some(k) => Some(ws[k].name@), None => None })
                        &&& text_or_null(lookup(o@, "worktreeId"@), match at { Some(k) => Some(ws[k].id@), None => None })
                        &&& forall|q: Seq<char>| q != "worktreeName"@ && q != "worktreeId"@ ==> #[trigger] lookup(o@, q) == lookup(es@, q)
                    },
                    _ => out@[j] == all[j],
                }
            },
        decreases rest@.len(),
    {
        let s = rest.remove(0);
        proof {
            assert(s == all[i]);
            assert(rest@ =~= all.skip(i + 1));
        }
        let a = annotate_task_step(settings, s);
        out.push(a);
        proof { i = i + 1; }
    }
    out
}

} // verus!
