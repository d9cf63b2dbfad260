//! Finding the worktree a tool call or a hook is about: by id, by name, or by the
//! agent's project directory.

use vstd::prelude::*;
use crate::errors::{ToolError, ToolErrorKind, invalid_params};
use crate::settings::{AppSettings, WorktreeEntry};
use crate::text::{
    chars_of, chars_join, chars_range, chars_replace_char, str_eq, str_trim, string_of, to_lowercase, owned, push_str, vviews, join_with, lowercase, replace_char,
};
use crate::workgroups::given;
use crate::platform_paths::{PrefixAnswer, DepthAnswer, ask_starts_with, ask_depth};

verus! {

broadcast use vstd::string::group_string_axioms;

/// `s` without trailing `/`, keeping a lone `/`.
pub open spec fn drop_trailing_slashes(s: Seq<char>) -> Seq<char>
    decreases s.len(),
{
    if s.len() > 1 && s.last() == '/' {
        drop_trailing_slashes(s.drop_last())
    } else {
        s
    }
}

/// A path prepared for matching: `\` → `/`, trailing `/` removed (a lone `/` kept),
/// lowercased when paths compare without case.
pub open spec fn path_for_match(p: Seq<char>, fold_case: bool) -> Seq<char> {
    let s = drop_trailing_slashes(replace_char(p, '\\', '/'));
    if fold_case { lowercase(s) } else { s }
}

proof fn lemma_drop_trailing_take(s: Seq<char>, j: int)
    requires
        1 <= j <= s.len(),
        forall|k: int| j <= k < s.len() ==> s[k] == '/',
    ensures
        drop_trailing_slashes(s) == drop_trailing_slashes(s.take(j)),
    decreases s.len() - j,
{
    if j < s.len() {
        assert(s.drop_last() == s.take(s.len() - 1));
        lemma_drop_trailing_take(s.drop_last(), j);
        assert(s.drop_last().take(j) == s.take(j));
    } else {
        assert(s.take(j) == s);
    }
}

/// Prepares a path for matching against worktree paths.
pub fn normalize_path_for_match(p: &str, fold_case: bool) -> (r: String)
    ensures
        r@ == path_for_match(p@, fold_case),
{
    let v = chars_of(p);
    let s = chars_replace_char(v.as_slice(), '\\', '/');
    let mut j: usize = s.len();
    while j > 1 && s[j - 1] == '/'
        invariant
            j <= s@.len(),
            s@.len() == 0 || j >= 1,
            forall|k: int| j <= k < s@.len() ==> s@[k] == '/',
        decreases j,
    {
        j = j - 1;
    }
    let t = chars_range(s.as_slice(), 0, j);
    proof {
        if s@.len() > 0 {
            lemma_drop_trailing_take(s@, j as int);
            assert(s@.subrange(0, j as int) == s@.take(j as int));
            let u = s@.take(j as int);
            if u.len() > 1 {
                assert(u.last() == s@[j - 1]);
            }
        } else {
            assert(t@ == s@);
        }
    }
    let out = string_of(t.as_slice());
    if fold_case {
        to_lowercase(out.as_str())
    } else {
        out
    }
}

/// Path matching does not see which separator a path was written with: two paths that are
/// the same once every `\` is read as `/` prepare to the same form, and the prepared form of
/// a path compared with case has no `\` left. So a project directory written with
/// backslashes finds the worktree registered with slashes.
pub proof fn lemma_match_ignores_separator_kind(p: Seq<char>, q: Seq<char>, fold_case: bool)
    requires
        replace_char(p, '\\', '/') == replace_char(q, '\\', '/'),
    ensures
        path_for_match(p, fold_case) == path_for_match(q, fold_case),
        path_for_match(p, fold_case) == path_for_match(replace_char(p, '\\', '/'), fold_case),
        !path_for_match(p, false).contains('\\'),
{
    let s = replace_char(p, '\\', '/');
    assert(replace_char(s, '\\', '/') =~= s);
    lemma_drop_trailing_keeps_chars(s);
}

/// Dropping trailing slashes keeps a prefix of the text.
proof fn lemma_drop_trailing_keeps_chars(s: Seq<char>)
    ensures
        drop_trailing_slashes(s).len() <= s.len(),
        drop_trailing_slashes(s) =~= s.take(drop_trailing_slashes(s).len() as int),
    decreases s.len(),
{
    if s.len() > 1 && s.last() == '/' {
        lemma_drop_trailing_keeps_chars(s.drop_last());
        let d = drop_trailing_slashes(s.drop_last());
        assert(s.drop_last().take(d.len() as int) =~= s.take(d.len() as int));
    }
}

/// Whether an optional worktree reference is the worktree at the given position.
pub open spec fn is_entry_at(r: Option<&WorktreeEntry>, ws: Seq<WorktreeEntry>, idx: Option<int>) -> bool {
    match (r, idx) {
        (Some(w), Some(i)) => 0 <= i < ws.len() && *w == ws[i],
        (None, None) => true,
        _ => false,
    }
}

/// The position of the first worktree satisfying `f`, among those from `start` on.
pub open spec fn first_where(ws: Seq<WorktreeEntry>, f: spec_fn(WorktreeEntry) -> bool, start: int) -> Option<int>
    decreases ws.len() - start,
{
    if start < 0 || start >= ws.len() {
        None
    } else if f(ws[start]) {
        Some(start)
    } else {
        first_where(ws, f, start + 1)
    }
}

/// The position of the first worktree with id `id`, among those from `start` on.
pub open spec fn id_from(ws: Seq<WorktreeEntry>, id: Seq<char>, start: int) -> Option<int>
    decreases ws.len() - start,
{
    if start < 0 || start >= ws.len() {
        None
    } else if ws[start].id@ == id {
        Some(start)
    } else {
        id_from(ws, id, start + 1)
    }
}

/// The position of the first worktree with id `id`.
pub open spec fn first_with_id(ws: Seq<WorktreeEntry>, id: Seq<char>) -> Option<int> {
    id_from(ws, id, 0)
}

/// The position of the first worktree whose path matches `dir`.
pub open spec fn first_with_dir(ws: Seq<WorktreeEntry>, dir: Seq<char>, fold: bool) -> Option<int> {
    first_where(ws, |w: WorktreeEntry| path_for_match(w.path@, fold) == path_for_match(dir, fold), 0)
}

/// The position of the first worktree named `name`.
pub open spec fn first_named(ws: Seq<WorktreeEntry>, name: Seq<char>) -> Option<int> {
    first_where(ws, |w: WorktreeEntry| w.name@ == name, 0)
}

/// The worktree with id `id`.
pub fn find_worktree_by_id<'a>(settings: &'a AppSettings, id: &str) -> (r: Option<&'a WorktreeEntry>)
    ensures
        is_entry_at(r, settings.worktrees@, first_with_id(settings.worktrees@, id@)),
{
    let ws = &settings.worktrees;
    let mut i: usize = 0;
    while i < ws.len()
        invariant
            i <= ws@.len(),
            ws == &settings.worktrees,
            id_from(ws@, id@, 0) == id_from(ws@, id@, i as int),
        decreases ws@.len() - i,
    {
        if str_eq(ws[i].id.as_str(), id) {
            return Some(&ws[i]);
        }
        i = i + 1;
    }
    None
}

/// The worktree whose path is `dir` (after normalizing both).
pub fn resolve_worktree_by_dir<'a>(settings: &'a AppSettings, dir: &str) -> (r: Option<&'a WorktreeEntry>)
    ensures
        is_entry_at(r, settings.worktrees@, first_with_dir(settings.worktrees@, dir@, settings.case_insensitive_paths)),
{
    let ws = &settings.worktrees;
    let fold = settings.case_insensitive_paths;
    let target = normalize_path_for_match(dir, fold);
    let ghost f = |w: WorktreeEntry| path_for_match(w.path@, fold) == path_for_match(dir@, fold);
    let mut i: usize = 0;
    while i < ws.len()
        invariant
            i <= ws@.len(),
            ws == &settings.worktrees,
            fold == settings.case_insensitive_paths,
            target@ == path_for_match(dir@, fold),
            f == |w: WorktreeEntry| path_for_match(w.path@, fold) == path_for_match(dir@, fold),
            first_where(ws@, f, 0) == first_where(ws@, f, i as int),
        decreases ws@.len() - i,
    {
        let wp = normalize_path_for_match(ws[i].path.as_str(), fold);
        if str_eq(wp.as_str(), target.as_str()) {
            return Some(&ws[i]);
        }
        i = i + 1;
    }
    None
}

/// The worktree named `name`.
pub fn find_worktree_by_name<'a>(settings: &'a AppSettings, name: &str) -> (r: Option<&'a WorktreeEntry>)
    ensures
        is_entry_at(r, settings.worktrees@, first_named(settings.worktrees@, name@)),
{
    let ws = &settings.worktrees;
    let ghost f = |w: WorktreeEntry| w.name@ == name@;
    let mut i: usize = 0;
    while i < ws.len()
        invariant
            i <= ws@.len(),
            ws == &settings.worktrees,
            f == |w: WorktreeEntry| w.name@ == name@,
            first_where(ws@, f, 0) == first_where(ws@, f, i as int),
        decreases ws@.len() - i,
    {
        if str_eq(ws[i].name.as_str(), name) {
            return Some(&ws[i]);
        }
        i = i + 1;
    }
    None
}

/// The names of all worktrees, joined with ", ".
pub open spec fn worktree_names(ws: Seq<WorktreeEntry>) -> Seq<char> {
    join_with(ws.map_values(|w: WorktreeEntry| w.name@), ", "@)
}

/// The names of the registered worktrees, for error messages.
pub fn available_worktree_names(settings: &AppSettings) -> (r: String)
    ensures
        r@ == worktree_names(settings.worktrees@),
{
    let ws = &settings.worktrees;
    let ghost names = ws@.map_values(|w: WorktreeEntry| w.name@);
    let mut parts: Vec<Vec<char>> = Vec::new();
    let mut i: usize = 0;
    while i < ws.len()
        invariant
            i <= ws@.len(),
            ws == &settings.worktrees,
            names == ws@.map_values(|w: WorktreeEntry| w.name@),
            vviews(parts@) == names.take(i as int),
        decreases ws@.len() - i,
    {
        let ghost before = parts@;
        parts.push(chars_of(ws[i].name.as_str()));
        assert(vviews(parts@) =~= vviews(before).push(names[i as int]));
        assert(names.take(i + 1) == names.take(i as int).push(names[i as int]));
        i = i + 1;
    }
    assert(names.take(ws@.len() as int) == names);
    let sep = chars_of(", ");
    let joined = chars_join(&parts, sep.as_slice());
    string_of(joined.as_slice())
}

/// The positions, among the first `n` worktrees, of those named `name`.
pub open spec fn named_upto(ws: Seq<WorktreeEntry>, name: Seq<char>, n: int) -> Seq<int>
    decreases n,
{
    if n <= 0 {
        Seq::<int>::empty()
    } else {
        let rest = named_upto(ws, name, n - 1);
        if ws[n - 1].name@ == name { rest.push(n - 1) } else { rest }
    }
}

/// The ids of the worktrees at the given positions, joined with ", ".
pub open spec fn ids_text(ws: Seq<WorktreeEntry>, idx: Seq<int>) -> Seq<char> {
    join_with(idx.map_values(|i: int| ws[i].id@), ", "@)
}

/// Which worktree an id, a name or a project directory designates, in that order of
/// preference (blank arguments count as absent), or the message of the error.
pub open spec fn worktree_resolution(
    ws: Seq<WorktreeEntry>,
    fold: bool,
    id: Option<Seq<char>>,
    name: Option<Seq<char>>,
    dir: Option<Seq<char>>,
    missing_hint: Seq<char>,
) -> Result<int, Seq<char>> {
    match id {
        Some(i) => match first_with_id(ws, i) {
            Some(p) => Ok(p),
            None => Err("worktree id '"@ + i + "' not found"@),
        },
        None => match name {
            Some(nm) => {
                let m = named_upto(ws, nm, ws.len() as int);
                if m.len() == 1 {
                    Ok(m[0])
                } else if m.len() == 0 {
                    Err("worktree '"@ + nm + "' not found. available: ["@ + worktree_names(ws) + "]"@)
                } else {
                    Err("multiple worktrees named '"@ + nm + "'. specify worktree_id to disambiguate: ["@
                        + ids_text(ws, m) + "]"@)
                }
            },
            None => match dir {
                Some(d) => match first_with_dir(ws, d, fold) {
                    Some(p) => Ok(p),
                    None => Err("no worktree matches project_dir '"@ + d + "'. available: ["@ + worktree_names(ws)
                        + "]"@),
                },
                None => Err(missing_hint),
            },
        },
    }
}

/// Whether a resolution result is the given outcome: the worktree at that position,
/// or an invalid-parameters error with that message.
pub open spec fn resolved_as(r: Result<&WorktreeEntry, ToolError>, ws: Seq<WorktreeEntry>, want: Result<int, Seq<char>>) -> bool {
    match (r, want) {
        (Ok(w), Ok(i)) => 0 <= i < ws.len() && *w == ws[i],
        (Err(e), Err(m)) => e.kind == ToolErrorKind::InvalidParams && e.message@ == m,
        _ => false,
    }
}

fn trimmed(o: Option<&str>) -> (r: Option<String>)
    ensures
        match r {
            Some(v) => given(o) == Some(v@),
            None => given(o) is None,
        },
{
    match o {
        Some(s) => {
            let t = str_trim(s);
            if t.len() > 0 { Some(string_of(t.as_slice())) } else { None }
        },
        None => None,
    }
}

fn bracketed_error(prefix: &str, subject: &str, middle: &str, list: &str) -> (r: ToolError)
    ensures
        r.kind == ToolErrorKind::InvalidParams,
        r.message@ == prefix@ + subject@ + middle@ + list@ + "]"@,
{
    let mut m = owned(prefix);
    push_str(&mut m, subject);
    push_str(&mut m, middle);
    push_str(&mut m, list);
    push_str(&mut m, "]");
    invalid_params(m)
}

/// Settles on one worktree from `worktree_id`, else `worktree_name`, else `project_dir`
/// (blank arguments count as absent). A name that several worktrees share is an error
/// listing their ids; when nothing is given the error is `missing_hint`.
pub fn resolve_worktree<'a>(
    settings: &'a AppSettings,
    worktree_id: Option<&str>,
    worktree_name: Option<&str>,
    project_dir: Option<&str>,
    missing_hint: &str,
) -> (r: Result<&'a WorktreeEntry, ToolError>)
    ensures
        resolved_as(r, settings.worktrees@, worktree_resolution(
            settings.worktrees@,
            settings.case_insensitive_paths,
            given(worktree_id),
            given(worktree_name),
            given(project_dir),
            missing_hint@,
        )),
{
    if let Some(id) = trimmed(worktree_id) {
        return match find_worktree_by_id(settings, id.as_str()) {
            Some(w) => Ok(w),
            None => {
                let mut m = owned("worktree id '");
                push_str(&mut m, id.as_str());
                push_str(&mut m, "' not found");
                Err(invalid_params(m))
            },
        };
    }
    if let Some(name) = trimmed(worktree_name) {
        let ws = &settings.worktrees;
        let mut matched: Vec<usize> = Vec::new();
        let mut i: usize = 0;
        while i < ws.len()
            invariant
                i <= ws@.len(),
                ws == &settings.worktrees,
                matched@.map_values(|x: usize| x as int) == named_upto(ws@, name@, i as int),
                forall|k: int| 0 <= k < matched@.len() ==> matched@[k] < ws@.len(),
            decreases ws@.len() - i,
        {
            if str_eq(ws[i].name.as_str(), name.as_str()) {
                let ghost before = matched@;
                matched.push(i);
                assert(matched@.map_values(|x: usize| x as int) =~= before.map_values(|x: usize| x as int).push(i as int));
            }
            i = i + 1;
        }
        let ghost m = named_upto(ws@, name@, ws@.len() as int);
        if matched.len() == 1 {
            assert(m[0] == matched@[0] as int);
            return Ok(&ws[matched[0]]);
        }
        if matched.len() == 0 {
            let names = available_worktree_names(settings);
            return Err(bracketed_error("worktree '", name.as_str(), "' not found. available: [", names.as_str()));
        }
        let mut ids: Vec<Vec<char>> = Vec::new();
        let mut k: usize = 0;
        while k < matched.len()
            invariant
                k <= matched@.len(),
                ws == &settings.worktrees,
                matched@.map_values(|x: usize| x as int) == m,
                forall|j: int| 0 <= j < matched@.len() ==> matched@[j] < ws@.len(),
                vviews(ids@) == m.map_values(|i: int| ws@[i].id@).take(k as int),
            decreases matched@.len() - k,
        {
            let ghost before = ids@;
            ids.push(chars_of(ws[matched[k]].id.as_str()));
            assert(vviews(ids@) =~= vviews(before).push(ws@[matched@[k as int] as int].id@));
            assert(m.map_values(|i: int| ws@[i].id@).take(k + 1)
                =~= m.map_values(|i: int| ws@[i].id@).take(k as int).push(ws@[m[k as int]].id@));
            k = k + 1;
        }
        assert(m.map_values(|i: int| ws@[i].id@).take(matched@.len() as int) == m.map_values(|i: int| ws@[i].id@));
        let sep = chars_of(", ");
        let joined = chars_join(&ids, sep.as_slice());
        let id_list = string_of(joined.as_slice());
        return Err(bracketed_error(
            "multiple worktrees named '",
            name.as_str(),
            "'. specify worktree_id to disambiguate: [",
            id_list.as_str(),
        ));
    }
    if let Some(dir) = trimmed(project_dir) {
        return match resolve_worktree_by_dir(settings, dir.as_str()) {
            Some(w) => Ok(w),
            None => {
                let names = available_worktree_names(settings);
                Err(bracketed_error("no worktree matches project_dir '", dir.as_str(), "'. available: [", names.as_str()))
            },
        };
    }
    Err(invalid_params(owned(missing_hint)))
}

/// The worktree with id `value`, else the one named `value` (see [`resolve_worktree`]).
pub fn resolve_worktree_by_name_or_id<'a>(settings: &'a AppSettings, value: &str) -> (r: Result<&'a WorktreeEntry, ToolError>)
    ensures
        match first_with_id(settings.worktrees@, value@) {
            Some(i) => resolved_as(r, settings.worktrees@, Ok(i)),
            None => resolved_as(r, settings.worktrees@, worktree_resolution(
                settings.worktrees@,
                settings.case_insensitive_paths,
                None,
                given(Some(value)),
                None,
                "specify a worktree name or id"@,
            )),
        },
{
    if let Some(w) = find_worktree_by_id(settings, value) {
        return Ok(w);
    }
    resolve_worktree(settings, None, Some(value), None, "specify a worktree name or id")
}

/// The position of the first worktree of repository `repo` on branch `branch`.
pub open spec fn first_on_branch(ws: Seq<WorktreeEntry>, repo: Seq<char>, branch: Seq<char>) -> Option<int> {
    first_where(ws, |w: WorktreeEntry| w.repository_name@ == repo && w.branch_name@ == branch, 0)
}

/// Which worktree the artifact tools store into: by id, else by project directory,
/// else by repository and branch together, or the message of the error.
pub open spec fn artifact_worktree_resolution(
    ws: Seq<WorktreeEntry>,
    fold: bool,
    id: Option<Seq<char>>,
    dir: Option<Seq<char>>,
    repo: Option<Seq<char>>,
    branch: Option<Seq<char>>,
) -> Result<int, Seq<char>> {
    match id {
        Some(i) => match first_with_id(ws, i) {
            Some(p) => Ok(p),
            None => Err("worktree id '"@ + i + "' が存在しません"@),
        },
        None => match dir {
            Some(d) => match first_with_dir(ws, d, fold) {
                Some(p) => Ok(p),
                None => Err("project_dir '"@ + d + "' に一致するワークツリーが存在しません。available: ["@
                    + worktree_names(ws) + "]"@),
            },
            None => match (repo, branch) {
                (Some(r), Some(b)) => match first_on_branch(ws, r, b) {
                    Some(p) => Ok(p),
                    None => Err("repository='"@ + r + "', branch='"@ + b
                        + "' に一致するワークツリーが存在しません。HOMEタブやリポジトリルートで作業している場合は project_dir を指定してください"@),
                },
                (None, None) => Err("project_dir / worktree_id / repository+branch のいずれかを指定してください。available: ["@
                    + worktree_names(ws) + "]"@),
                _ => Err("repository と branch は両方セットで指定してください（片方のみでは解決できません）。作業ディレクトリが分かる場合は project_dir を指定してください"@),
            },
        },
    }
}

fn find_on_branch<'a>(settings: &'a AppSettings, repo: &str, branch: &str) -> (r: Option<&'a WorktreeEntry>)
    ensures
        is_entry_at(r, settings.worktrees@, first_on_branch(settings.worktrees@, repo@, branch@)),
{
    let ws = &settings.worktrees;
    let ghost f = |w: WorktreeEntry| w.repository_name@ == repo@ && w.branch_name@ == branch@;
    let mut i: usize = 0;
    while i < ws.len()
        invariant
            i <= ws@.len(),
            ws == &settings.worktrees,
            f == |w: WorktreeEntry| w.repository_name@ == repo@ && w.branch_name@ == branch@,
            first_where(ws@, f, 0) == first_where(ws@, f, i as int),
        decreases ws@.len() - i,
    {
        if str_eq(ws[i].repository_name.as_str(), repo) && str_eq(ws[i].branch_name.as_str(), branch) {
            return Some(&ws[i]);
        }
        i = i + 1;
    }
    None
}

/// Resolves the worktree the artifact tools work on: `worktree_id`, else `project_dir`,
/// else `repository` and `branch` together (blank arguments count as absent).
pub fn resolve_artifact_worktree<'a>(
    settings: &'a AppSettings,
    worktree_id: Option<&str>,
    project_dir: Option<&str>,
    repository: Option<&str>,
    branch: Option<&str>,
) -> (r: Result<&'a WorktreeEntry, ToolError>)
    ensures
        resolved_as(r, settings.worktrees@, artifact_worktree_resolution(
            settings.worktrees@,
            settings.case_insensitive_paths,
            given(worktree_id),
            given(project_dir),
            given(repository),
            given(branch),
        )),
{
    if let Some(id) = trimmed(worktree_id) {
        return match find_worktree_by_id(settings, id.as_str()) {
            Some(w) => Ok(w),
            None => {
                let mut m = owned("worktree id '");
                push_str(&mut m, id.as_str());
                push_str(&mut m, "' が存在しません");
                Err(invalid_params(m))
            },
        };
    }
    if let Some(dir) = trimmed(project_dir) {
        return match resolve_worktree_by_dir(settings, dir.as_str()) {
            Some(w) => Ok(w),
            None => {
                let names = available_worktree_names(settings);
                Err(bracketed_error("project_dir '", dir.as_str(), "' に一致するワークツリーが存在しません。available: [", names.as_str()))
            },
        };
    }
    let repo = trimmed(repository);
    let br = trimmed(branch);
    match (repo, br) {
        (Some(r), Some(b)) => match find_on_branch(settings, r.as_str(), b.as_str()) {
            Some(w) => Ok(w),
            None => {
                let mut m = owned("repository='");
                push_str(&mut m, r.as_str());
                push_str(&mut m, "', branch='");
                push_str(&mut m, b.as_str());
                push_str(&mut m, "' に一致するワークツリーが存在しません。HOMEタブやリポジトリルートで作業している場合は project_dir を指定してください");
                Err(invalid_params(m))
            },
        },
        (None, None) => {
            let names = available_worktree_names(settings);
            let mut m = owned("project_dir / worktree_id / repository+branch のいずれかを指定してください。available: [");
            push_str(&mut m, names.as_str());
            push_str(&mut m, "]");
            Err(invalid_params(m))
        },
        _ => Err(invalid_params(owned(
            "repository と branch は両方セットで指定してください（片方のみでは解決できません）。作業ディレクトリが分かる場合は project_dir を指定してください",
        ))),
    }
}

/// A path separator (`/` or `\`).
pub open spec fn is_sep(c: char) -> bool {
    c == '/' || c == '\\'
}

/// `s` without trailing separators.
pub open spec fn trim_end_seps(s: Seq<char>) -> Seq<char>
    decreases s.len(),
{
    if s.len() > 0 && is_sep(s.last()) { trim_end_seps(s.drop_last()) } else { s }
}

/// The part of `s` after its last separator (all of `s` when it has none).
pub open spec fn last_segment(s: Seq<char>) -> Seq<char>
    decreases s.len(),
{
    if s.len() == 0 || is_sep(s.last()) {
        Seq::<char>::empty()
    } else {
        last_segment(s.drop_last()).push(s.last())
    }
}

/// The display name of a worktree path: its last directory name, or the path itself
/// when there is none.
pub open spec fn name_from_path(path: Seq<char>) -> Seq<char> {
    let seg = last_segment(trim_end_seps(path));
    if seg.len() == 0 { path } else { seg }
}

proof fn lemma_trim_end_seps_take(s: Seq<char>, j: int)
    requires
        0 <= j <= s.len(),
        forall|k: int| j <= k < s.len() ==> is_sep(s[k]),
    ensures
        trim_end_seps(s) == trim_end_seps(s.take(j)),
    decreases s.len() - j,
{
    if j < s.len() {
        assert(s.drop_last() == s.take(s.len() - 1));
        lemma_trim_end_seps_take(s.drop_last(), j);
        assert(s.drop_last().take(j) == s.take(j));
    } else {
        assert(s.take(j) == s);
    }
}

proof fn lemma_last_segment_skip(s: Seq<char>, i: int)
    requires
        0 <= i <= s.len(),
        forall|k: int| i <= k < s.len() ==> !is_sep(s[k]),
        i == 0 || is_sep(s[i - 1]),
    ensures
        last_segment(s) == s.skip(i),
    decreases s.len() - i,
{
    if s.len() == i {
        if i > 0 {
            assert(last_segment(s) == Seq::<char>::empty());
        }
        assert(s.skip(i) == Seq::<char>::empty());
    } else {
        lemma_last_segment_skip(s.drop_last(), i);
        assert(s.drop_last().skip(i).push(s.last()) == s.skip(i));
    }
}

/// The last directory name of a worktree path (the frontend's rule), or the path itself.
pub fn worktree_name_from_path(path: &str) -> (r: String)
    ensures
        r@ == name_from_path(path@),
{
    let v = chars_of(path);
    let mut j: usize = v.len();
    while j > 0 && (v[j - 1] == '/' || v[j - 1] == '\\')
        invariant
            j <= v@.len(),
            forall|k: int| j <= k < v@.len() ==> is_sep(v@[k]),
        decreases j,
    {
        j = j - 1;
    }
    proof {
        lemma_trim_end_seps_take(v@, j as int);
        let u = v@.take(j as int);
        if u.len() > 0 {
            assert(u.last() == v@[j - 1]);
        }
    }
    let mut i: usize = j;
    while i > 0 && !(v[i - 1] == '/' || v[i - 1] == '\\')
        invariant
            i <= j <= v@.len(),
            forall|k: int| i <= k < j ==> !is_sep(v@[k]),
        decreases i,
    {
        i = i - 1;
    }
    proof {
        let t = v@.take(j as int);
        assert forall|k: int| i <= k < t.len() implies !is_sep(t[k]) by {}
        lemma_last_segment_skip(t, i as int);
        assert(t.skip(i as int) == v@.subrange(i as int, j as int));
    }
    if i == j {
        owned(path)
    } else {
        let seg = chars_range(v.as_slice(), i, j);
        string_of(seg.as_slice())
    }
}

/// The position of the deepest candidate: among the positions with a depth, one with the
/// greatest depth, the last of them when several share it (as `Iterator::max_by_key` picks).
pub open spec fn deepest(depths: Seq<Option<usize>>) -> Option<int>
    decreases depths.len(),
{
    if depths.len() == 0 {
        None
    } else {
        let p = deepest(depths.drop_last());
        match depths.last() {
            None => p,
            Some(d) => match p {
                Some(j) => if d >= depths[j]->0 { Some(depths.len() - 1) } else { p },
                None => Some(depths.len() - 1),
            },
        }
    }
}

proof fn lemma_deepest_found(depths: Seq<Option<usize>>, k: int)
    requires
        0 <= k < depths.len(),
        depths[k] is Some,
    ensures
        deepest(depths) is Some,
    decreases depths.len(),
{
    if k < depths.len() - 1 {
        lemma_deepest_found(depths.drop_last(), k);
    }
}

proof fn lemma_deepest_in_range(depths: Seq<Option<usize>>)
    ensures
        deepest(depths) matches Some(j) ==> 0 <= j < depths.len() && depths[j] is Some,
    decreases depths.len(),
{
    if depths.len() > 0 {
        lemma_deepest_in_range(depths.drop_last());
    }
}

/// The position of the deepest candidate (see [`deepest`]).
pub fn deepest_match(depths: &Vec<Option<usize>>) -> (r: Option<usize>)
    ensures
        match r {
            Some(i) => deepest(depths@) == Some(i as int),
            None => deepest(depths@) is None,
        },
{
    let mut best: Option<usize> = None;
    let mut i: usize = 0;
    assert(depths@.take(0) =~= Seq::<Option<usize>>::empty());
    while i < depths.len()
        invariant
            i <= depths@.len(),
            match best {
                Some(b) => deepest(depths@.take(i as int)) == Some(b as int) && b < i && depths@[b as int] is Some,
                None => deepest(depths@.take(i as int)) is None,
            },
        decreases depths@.len() - i,
    {
        let ghost t = depths@.take(i + 1);
        assert(t.drop_last() =~= depths@.take(i as int));
        assert(t.last() == depths@[i as int]);
        proof {
            if let Some(b) = best {
                assert(t[b as int] == depths@[b as int]);
            }
        }
        match depths[i] {
            Some(d) => {
                match best {
                    Some(b) => {
                        let bd = match depths[b] {
                            Some(x) => x,
                            None => 0,
                        };
                        if d >= bd {
                            best = Some(i);
                        }
                    },
                    None => {
                        best = Some(i);
                    },
                }
            },
            None => {},
        }
        i = i + 1;
    }
    assert(depths@.take(depths@.len() as int) =~= depths@);
    best
}

/// One registered worktree's part in finding the worktree a directory lies in: the platform's
/// answer whether its path is a prefix of the directory and, only when it is, the platform's
/// count of the path's components.
#[derive(Debug)]
pub struct CwdCandidate {
    pub prefix: PrefixAnswer,
    pub depth: Option<DepthAnswer>,
}

/// The worktree a directory lies in, with the platform's answers for every registered worktree
/// (in the settings' order) that it was chosen from.
#[derive(Debug)]
pub struct CwdResolution {
    pub candidates: Vec<CwdCandidate>,
    pub worktree: Option<usize>,
}

/// The depth a candidate competes with: its path's component count when the platform took the
/// path as a prefix of the directory, else none.
pub open spec fn candidate_depth(c: CwdCandidate) -> Option<usize> {
    if c.prefix.accepted() {
        match c.depth {
            Some(d) => Some(d.depth()),
            None => None,
        }
    } else {
        None
    }
}

/// The competing depths of the candidates, in order.
pub open spec fn candidate_depths(cs: Seq<CwdCandidate>) -> Seq<Option<usize>> {
    cs.map_values(|c: CwdCandidate| candidate_depth(c))
}

/// `cs` holds the platform's answers for directory `cwd` and the worktrees `ws`: candidate `k`
/// asked whether `ws[k].path` is a prefix of `cwd`, and counted the components of that path
/// exactly when it is.
pub open spec fn answers_for(cs: Seq<CwdCandidate>, ws: Seq<WorktreeEntry>, cwd: Seq<char>) -> bool {
    &&& cs.len() == ws.len()
    &&& forall|k: int| 0 <= k < cs.len() ==> {
        &&& (#[trigger] cs[k]).prefix.dir() == cwd
        &&& cs[k].prefix.base() == ws[k].path@
        &&& (cs[k].depth is Some <==> cs[k].prefix.accepted())
        &&& (cs[k].depth matches Some(d) ==> d.path() == ws[k].path@)
    }
}

/// The worktree a terminal's working directory lies in: among the worktrees whose path the
/// platform takes as a prefix of `cwd` (in whole path components), the one whose path has the
/// most components, the last of them on a tie; so the home worktree, an ancestor of every
/// worktree, is chosen only for a directory of no other one. The answers it rests on come
/// with it; a directory that is the path of a registered worktree always lies in one.
pub fn resolve_worktree_by_cwd(settings: &AppSettings, cwd: &str) -> (r: CwdResolution)
    ensures
        answers_for(r.candidates@, settings.worktrees@, cwd@),
        match r.worktree {
            Some(i) => deepest(candidate_depths(r.candidates@)) == Some(i as int) && i < settings.worktrees@.len(),
            None => deepest(candidate_depths(r.candidates@)) is None,
        },
        (exists|k: int| 0 <= k < settings.worktrees@.len() && #[trigger] settings.worktrees@[k].path@ == cwd@)
            ==> r.worktree is Some,
{
    let ws = &settings.worktrees;
    let mut candidates: Vec<CwdCandidate> = Vec::new();
    let mut depths: Vec<Option<usize>> = Vec::new();
    let mut i: usize = 0;
    while i < ws.len()
        invariant
            i <= ws@.len(),
            ws == &settings.worktrees,
            candidates@.len() == i,
            depths@.len() == i,
            forall|k: int| 0 <= k < i ==> {
                &&& (#[trigger] candidates@[k]).prefix.dir() == cwd@
                &&& candidates@[k].prefix.base() == ws@[k].path@
                &&& (candidates@[k].depth is Some <==> candidates@[k].prefix.accepted())
                &&& (candidates@[k].depth matches Some(d) ==> d.path() == ws@[k].path@)
                &&& depths@[k] == candidate_depth(candidates@[k])
            },
            forall|k: int| 0 <= k < i && #[trigger] ws@[k].path@ == cwd@ ==> depths@[k] is Some,
        decreases ws@.len() - i,
    {
        let w = &ws[i];
        let prefix = ask_starts_with(cwd, w.path.as_str());
        if prefix.is_accepted() {
            let d = ask_depth(w.path.as_str());
            depths.push(Some(d.components()));
            candidates.push(CwdCandidate { prefix, depth: Some(d) });
        } else {
            depths.push(None);
            candidates.push(CwdCandidate { prefix, depth: None });
        }
        i = i + 1;
    }
    assert(depths@ =~= candidate_depths(candidates@));
    let worktree = deepest_match(&depths);
    proof {
        lemma_deepest_in_range(depths@);
        if exists|k: int| 0 <= k < settings.worktrees@.len() && #[trigger] settings.worktrees@[k].path@ == cwd@ {
            let k = choose|k: int| 0 <= k < settings.worktrees@.len() && #[trigger] settings.worktrees@[k].path@ == cwd@;
            lemma_deepest_found(depths@, k);
        }
    }
    CwdResolution { candidates, worktree }
}

proof fn lemma_id_from_range(ws: Seq<WorktreeEntry>, id: Seq<char>, start: int)
    requires
        0 <= start,
    ensures
        id_from(ws, id, start) matches Some(p) ==> start <= p < ws.len() && ws[p].id@ == id,
    decreases ws.len() - start,
{
    if start < ws.len() && ws[start].id@ != id {
        lemma_id_from_range(ws, id, start + 1);
    }
}

proof fn lemma_id_from_found(ws: Seq<WorktreeEntry>, id: Seq<char>, start: int, k: int)
    requires
        0 <= start <= k < ws.len(),
        ws[k].id@ == id,
    ensures
        id_from(ws, id, start) is Some,
    decreases k - start,
{
    if ws[start].id@ != id {
        lemma_id_from_found(ws, id, start + 1, k);
    }
}

/// The first worktree with an id has that id.
pub proof fn lemma_first_with_id_range(ws: Seq<WorktreeEntry>, id: Seq<char>)
    ensures
        first_with_id(ws, id) matches Some(p) ==> 0 <= p < ws.len() && ws[p].id@ == id,
{
    lemma_id_from_range(ws, id, 0);
}

/// A registered id is found.
pub proof fn lemma_first_with_id_found(ws: Seq<WorktreeEntry>, id: Seq<char>, k: int)
    requires
        0 <= k < ws.len(),
        ws[k].id@ == id,
    ensures
        first_with_id(ws, id) is Some,
{
    lemma_id_from_found(ws, id, 0, k);
}

} // verus!
