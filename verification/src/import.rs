//! Taking worktrees that git knows of, but the application does not, into the settings.

use vstd::prelude::*;
use crate::errors::{ToolError, ToolErrorKind, invalid_params};
use crate::settings::{AppSettings, Repository};
use crate::text::{trim, str_trim, str_eq, string_of, chars_eq, chars_of, join_with, vviews};
use crate::worktrees::{path_for_match, normalize_path_for_match};

verus! {

broadcast use vstd::string::group_string_axioms;

/// The repositories to look in: those named `wanted` (trimmed, when not blank), else all.
pub open spec fn selected_repos(rs: Seq<Repository>, wanted: Option<Seq<char>>, n: int) -> Seq<int>
    decreases n,
{
    if n <= 0 {
        Seq::<int>::empty()
    } else {
        let acc = selected_repos(rs, wanted, n - 1);
        if wanted is None || rs[n - 1].name@ == wanted->0 { acc.push(n - 1) } else { acc }
    }
}

/// The repository filter of an import request.
pub open spec fn wanted_repo(name: Option<Seq<char>>) -> Option<Seq<char>> {
    match name {
        Some(n) => if trim(n).len() > 0 { Some(trim(n)) } else { None },
        None => None,
    }
}

/// The names of all repositories.
pub open spec fn repo_name_list(rs: Seq<Repository>) -> Seq<Seq<char>> {
    rs.map_values(|r: Repository| r.name@)
}

/// The repositories an import looks in (positions in the settings), or why there are none.
pub fn import_repositories(settings: &AppSettings, repository_name: Option<&str>) -> (r: Result<Vec<usize>, ToolError>)
    ensures
        ({
            let rs = settings.repositories@;
            let wanted = wanted_repo(match repository_name { Some(n) => Some(n@), None => None });
            let sel = selected_repos(rs, wanted, rs.len() as int);
            match r {
                Ok(v) => sel.len() > 0 && v@.map_values(|i: usize| i as int) == sel,
                Err(e) => sel.len() == 0 && e.kind == ToolErrorKind::InvalidParams && e.message@ == match wanted {
                    Some(n) => "repository '"@ + n + "' not found. available: ["@ + join_with(repo_name_list(rs), ", "@) + "]"@,
                    None => "no repository is registered in oretachi"@,
                },
            }
        }),
{
    let rs = &settings.repositories;
    let wanted: Option<Vec<char>> = match repository_name {
        Some(n) => {
            let t = str_trim(n);
            if t.len() > 0 { Some(t) } else { None }
        },
        None => None,
    };
    let ghost wv = wanted_repo(match repository_name { Some(n) => Some(n@), None => None });
    assert(match wanted { Some(w) => wv == Some(w@), None => wv is None });
    let mut out: Vec<usize> = Vec::new();
    let mut i: usize = 0;
    while i < rs.len()
        invariant
            i <= rs@.len(),
            rs == &settings.repositories,
            match wanted { Some(w) => wv == Some(w@), None => wv is None },
            out@.map_values(|k: usize| k as int) == selected_repos(rs@, wv, i as int),
        decreases rs@.len() - i,
    {
        let take = match &wanted {
            None => true,
            Some(w) => chars_eq(chars_of(rs[i].name.as_str()).as_slice(), w.as_slice()),
        };
        let ghost before = out@;
        if take {
            out.push(i);
            assert(out@.map_values(|k: usize| k as int) =~= before.map_values(|k: usize| k as int).push(i as int));
        }
        i = i + 1;
    }
    if out.len() > 0 {
        return Ok(out);
    }
    assert(out@.map_values(|k: usize| k as int).len() == 0);
    match wanted {
        Some(w) => {
            let mut names: Vec<Vec<char>> = Vec::new();
            let mut j: usize = 0;
            while j < rs.len()
                invariant
                    j <= rs@.len(),
                    rs == &settings.repositories,
                    vviews(names@) == repo_name_list(rs@).take(j as int),
                decreases rs@.len() - j,
            {
                let ghost before = names@;
                names.push(chars_of(rs[j].name.as_str()));
                assert(vviews(names@) =~= vviews(before).push(rs@[j as int].name@));
                assert(repo_name_list(rs@).take(j + 1) =~= repo_name_list(rs@).take(j as int).push(rs@[j as int].name@));
                j = j + 1;
            }
            assert(repo_name_list(rs@).take(rs@.len() as int) == repo_name_list(rs@));
            let sep = chars_of(", ");
            let joined = crate::text::chars_join(&names, sep.as_slice());
            let mut m = String::from_str("repository '");
            m.append(string_of(w.as_slice()).as_str());
            m.append("' not found. available: [");
            m.append(string_of(joined.as_slice()).as_str());
            m.append("]");
            proof {
                reveal_strlit("repository '");
                reveal_strlit("' not found. available: [");
                reveal_strlit("]");
            }
            Err(invalid_params(m))
        },
        None => Err(invalid_params(String::from_str("no repository is registered in oretachi"))),
    }
}

/// A worktree as `git worktree list` reports it.
#[derive(Debug)]
pub struct GitWorktreeInfo {
    pub path: String,
    pub branch: Option<String>,
    pub detached: bool,
    pub bare: bool,
    pub is_main: bool,
    pub prunable: bool,
}

/// A worktree of a repository, as found by git.
#[derive(Debug)]
pub struct FoundWorktree {
    pub repository_id: String,
    pub repository_name: String,
    pub info: GitWorktreeInfo,
}

/// The paths (as compared) that an import must not take: every known worktree's (the home
/// and repository entries among them) and every searched repository's own.
pub open spec fn taken_paths(settings: AppSettings, repos: Seq<int>) -> Set<Seq<char>> {
    let fold = settings.case_insensitive_paths;
    Set::new(|p: Seq<char>|
        (exists|i: int| 0 <= i < settings.worktrees@.len() && p == path_for_match(#[trigger] settings.worktrees@[i].path@, fold))
        || (exists|j: int| 0 <= j < repos.len() && 0 <= repos[j] < settings.repositories@.len()
            && p == path_for_match(#[trigger] settings.repositories@[repos[j]].path@, fold)))
}

/// The compared paths an import must not take (see `taken_paths`).
pub fn registered_paths(settings: &AppSettings, repos: &Vec<usize>) -> (r: Vec<String>)
    requires
        forall|j: int| 0 <= j < repos@.len() ==> #[trigger] repos@[j] < settings.repositories@.len(),
    ensures
        forall|p: Seq<char>| taken_paths(*settings, repos@.map_values(|k: usize| k as int)).contains(p)
            <==> crate::targets::sviews(r@).contains(p),
{
    let fold = settings.case_insensitive_paths;
    let ws = &settings.worktrees;
    let mut out: Vec<String> = Vec::new();
    let mut i: usize = 0;
    while i < ws.len()
        invariant
            i <= ws@.len(),
            ws == &settings.worktrees,
            fold == settings.case_insensitive_paths,
            out@.len() == i,
            forall|a: int| 0 <= a < i ==> #[trigger] out@[a]@ == path_for_match(ws@[a].path@, fold),
        decreases ws@.len() - i,
    {
        out.push(normalize_path_for_match(ws[i].path.as_str(), fold));
        i = i + 1;
    }
    let mut j: usize = 0;
    while j < repos.len()
        invariant
            j <= repos@.len(),
            ws == &settings.worktrees,
            fold == settings.case_insensitive_paths,
            forall|k: int| 0 <= k < repos@.len() ==> #[trigger] repos@[k] < settings.repositories@.len(),
            out@.len() == ws@.len() + j,
            forall|a: int| 0 <= a < ws@.len() ==> #[trigger] out@[a]@ == path_for_match(ws@[a].path@, fold),
            forall|b: int| 0 <= b < j ==> #[trigger] out@[ws@.len() + b]@
                == path_for_match(settings.repositories@[repos@[b] as int].path@, fold),
        decreases repos@.len() - j,
    {
        let k = repos[j];
        out.push(normalize_path_for_match(settings.repositories[k].path.as_str(), fold));
        j = j + 1;
    }
    proof {
        let rv = repos@.map_values(|k: usize| k as int);
        let sv = crate::targets::sviews(out@);
        assert(rv.len() == repos@.len());
        assert(sv.len() == out@.len());
        assert forall|p: Seq<char>| taken_paths(*settings, rv).contains(p) <==> #[trigger] sv.contains(p) by {
            if sv.contains(p) {
                let a = choose|a: int| 0 <= a < sv.len() && sv[a] == p;
                assert(sv[a] == out@[a]@);
                if a < ws@.len() {
                    assert(p == path_for_match(settings.worktrees@[a].path@, fold));
                } else {
                    let b = a - ws@.len();
                    assert(out@[ws@.len() + b]@ == path_for_match(settings.repositories@[repos@[b] as int].path@, fold));
                    assert(rv[b] == repos@[b] as int);
                    assert(0 <= rv[b] < settings.repositories@.len());
                    assert(p == path_for_match(settings.repositories@[rv[b]].path@, fold));
                }
                assert(taken_paths(*settings, rv).contains(p));
            }
            if taken_paths(*settings, rv).contains(p) {
                if exists|i: int| 0 <= i < settings.worktrees@.len() && p == path_for_match(#[trigger] settings.worktrees@[i].path@, fold) {
                    let i = choose|i: int| 0 <= i < settings.worktrees@.len() && p == path_for_match(#[trigger] settings.worktrees@[i].path@, fold);
                    assert(sv[i] == out@[i]@);
                    assert(sv[i] == p);
                } else {
                    let b = choose|b: int| 0 <= b < rv.len() && 0 <= rv[b] < settings.repositories@.len()
                        && p == path_for_match(#[trigger] settings.repositories@[rv[b]].path@, fold);
                    assert(rv[b] == repos@[b] as int);
                    assert(sv[ws@.len() + b] == out@[ws@.len() + b]@);
                    assert(sv[ws@.len() + b] == p);
                }
            }
        }
    }
    out
}

/// Whether git's worktree `w` can be taken in: not a bare repository, not the main worktree,
/// not prunable, and not at a path already taken.
pub open spec fn importable(w: FoundWorktree, taken: Seq<Seq<char>>, fold: bool) -> bool {
    !w.info.bare && !w.info.is_main && !w.info.prunable && !taken.contains(path_for_match(w.info.path@, fold))
}

/// The worktrees that can be taken in, in git's order.
pub open spec fn importable_upto(found: Seq<FoundWorktree>, taken: Seq<Seq<char>>, fold: bool, n: int) -> Seq<FoundWorktree>
    decreases n,
{
    if n <= 0 {
        Seq::<FoundWorktree>::empty()
    } else {
        let acc = importable_upto(found, taken, fold, n - 1);
        if importable(found[n - 1], taken, fold) { acc.push(found[n - 1]) } else { acc }
    }
}

/// Keeps the worktrees git found that can be taken in.
pub fn import_candidates(found: Vec<FoundWorktree>, taken: &Vec<String>, fold: bool) -> (r: Vec<FoundWorktree>)
    ensures
        r@ == importable_upto(found@, crate::targets::sviews(taken@), fold, found@.len() as int),
{
    let ghost all = found@;
    assert(all.len() == found.len());
    let mut rest = found;
    let mut out: Vec<FoundWorktree> = Vec::new();
    let mut i: usize = 0;
    assert(all.skip(0) == all);
    while rest.len() > 0
        invariant
            all.len() <= usize::MAX,
            i + rest@.len() == all.len(),
            rest@ == all.skip(i as int),
            out@ == importable_upto(all, crate::targets::sviews(taken@), fold, i as int),
        decreases rest.len(),
    {
        let w = rest.remove(0);
        assert(w == all[i as int]);
        assert(rest@ =~= all.skip(i + 1));
        let key = normalize_path_for_match(w.info.path.as_str(), fold);
        let seen = crate::targets::strings_contain(taken.as_slice(), key.as_str());
        if !w.info.bare && !w.info.is_main && !w.info.prunable && !seen {
            out.push(w);
        }
        i = i + 1;
    }
    out
}

/// The candidate whose path matches `path` (both compared as paths), if any.
pub open spec fn first_at(cands: Seq<FoundWorktree>, want: Seq<char>, fold: bool, k: int) -> Option<int>
    decreases cands.len() - k,
{
    if k < 0 || k >= cands.len() {
        None
    } else if path_for_match(cands[k].info.path@, fold) == want {
        Some(k)
    } else {
        first_at(cands, want, fold, k + 1)
    }
}

/// Picks the candidate to take in for the requested `path` (trimmed, not blank).
pub fn pick_import_target(cands: &Vec<FoundWorktree>, path: &str, fold: bool) -> (r: Result<usize, ToolError>)
    ensures
        ({
            let t = trim(path@);
            match first_at(cands@, path_for_match(t, fold), fold, 0) {
                Some(k) => r == Ok::<usize, ToolError>(k as usize),
                None => r matches Err(e) && e.kind == ToolErrorKind::InvalidParams && e.message@ == "'"@ + t
                    + "' is not an unregistered worktree of any registered repository. call this tool without path to list candidates"@,
            }
        }),
{
    let t = string_of(str_trim(path).as_slice());
    let want = normalize_path_for_match(t.as_str(), fold);
    let mut k: usize = 0;
    while k < cands.len()
        invariant
            k <= cands@.len(),
            t@ == trim(path@),
            want@ == path_for_match(t@, fold),
            first_at(cands@, want@, fold, 0) == first_at(cands@, want@, fold, k as int),
        decreases cands@.len() - k,
    {
        let p = normalize_path_for_match(cands[k].info.path.as_str(), fold);
        if str_eq(p.as_str(), want.as_str()) {
            return Ok(k);
        }
        k = k + 1;
    }
    let mut m = String::from_str("'");
    m.append(t.as_str());
    m.append("' is not an unregistered worktree of any registered repository. call this tool without path to list candidates");
    proof {
        reveal_strlit("'");
        reveal_strlit("' is not an unregistered worktree of any registered repository. call this tool without path to list candidates");
    }
    Err(invalid_params(m))
}

/// The seconds the UI has to answer an import.
pub const IMPORT_WORKTREE_ACK_TIMEOUT_SECS: u64 = 30;

/// How an import request ended, as the tool reports it.
#[derive(Debug)]
pub enum ImportAnswer {
    /// The tool succeeds with this text.
    Done(String),
    /// The tool fails with this internal error.
    Failed(String),
}

/// The tool's answer for the UI's outcome of importing the worktree at `path` as `name`;
/// `None` when no outcome came in time.
pub fn import_answer(name: &str, path: &str, outcome: Option<crate::server::ImportWorktreeOutcome>) -> (r: ImportAnswer)
    ensures
        match outcome {
            Some(crate::server::ImportWorktreeOutcome::Imported(id)) => r matches ImportAnswer::Done(t)
                && t@ == "ワークツリー '"@ + name@ + "' ("@ + path@ + ") を登録しました。id="@ + id@,
            Some(crate::server::ImportWorktreeOutcome::AlreadyRegistered) => r matches ImportAnswer::Done(t)
                && t@ == "'"@ + path@ + "' は既に登録済みでした。"@,
            Some(crate::server::ImportWorktreeOutcome::Failed(e)) => r matches ImportAnswer::Failed(t)
                && t@ == "取り込みに失敗しました: "@ + e@,
            None => r matches ImportAnswer::Failed(t)
                && t@ == "'"@ + path@ + "' の取り込み結果を 30 秒以内に受け取れませんでした。oretachi_get_worktree_status で登録状況を確認してください。"@,
        },
{
    proof {
        reveal_strlit("ワークツリー '");
        reveal_strlit("' (");
        reveal_strlit(") を登録しました。id=");
        reveal_strlit("'");
        reveal_strlit("' は既に登録済みでした。");
        reveal_strlit("取り込みに失敗しました: ");
        reveal_strlit("' の取り込み結果を 30 秒以内に受け取れませんでした。oretachi_get_worktree_status で登録状況を確認してください。");
    }
    match outcome {
        Some(crate::server::ImportWorktreeOutcome::Imported(id)) => {
            let mut m = String::from_str("ワークツリー '");
            m.append(name);
            m.append("' (");
            m.append(path);
            m.append(") を登録しました。id=");
            m.append(id.as_str());
            ImportAnswer::Done(m)
        },
        Some(crate::server::ImportWorktreeOutcome::AlreadyRegistered) => {
            let mut m = String::from_str("'");
            m.append(path);
            m.append("' は既に登録済みでした。");
            ImportAnswer::Done(m)
        },
        Some(crate::server::ImportWorktreeOutcome::Failed(e)) => {
            let mut m = String::from_str("取り込みに失敗しました: ");
            m.append(e.as_str());
            ImportAnswer::Failed(m)
        },
        None => {
            let mut m = String::from_str("'");
            m.append(path);
            m.append("' の取り込み結果を 30 秒以内に受け取れませんでした。oretachi_get_worktree_status で登録状況を確認してください。");
            ImportAnswer::Failed(m)
        },
    }
}

} // verus!
