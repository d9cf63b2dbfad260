//! Subscription targets (`*`, `workgroup:<id>`, `repo:<name>`, a worktree id), what they
//! are shown as, and the subscriptions that allow one worktree to act on another.

use vstd::prelude::*;
use crate::errors::{ToolError, ToolErrorKind, invalid_params};
use crate::settings::{AppSettings, WorktreeEntry, Repository, Workgroup};
use crate::text::{
    chars_of, chars_skip, chars_starts_with, chars_join, str_eq, str_trim, string_of, to_lowercase, owned, push_str, vviews, join_with, lowercase, trim, is_prefix,
    is_ws, trim_start, trim_end, opt_chars,
};
use crate::workgroups::{
    group_label, position_of, workgroup_display_name, resolve_workgroup_target, workgroup_target, given,
    group_by_id, shown_as_upto,
};
use crate::worktrees::{
    first_with_id, find_worktree_by_id, resolve_worktree_by_name_or_id, worktree_resolution, named_upto,
    lemma_first_with_id_range, lemma_first_with_id_found,
};

verus! {

broadcast use vstd::string::group_string_axioms;

/// The target that matches every worktree.
pub const TARGET_ALL: &'static str = "*";
/// The prefix of a workgroup target.
pub const TARGET_WORKGROUP_PREFIX: &'static str = "workgroup:";
/// The prefix of a repository target.
pub const TARGET_REPO_PREFIX: &'static str = "repo:";
/// A subscription that is in force.
pub const STATE_ACTIVE: &'static str = "active";
/// A subscription whose subscriber terminal went away but which still counts.
pub const STATE_ORPHANED: &'static str = "orphaned";

/// The stored form of a target: trimmed, with the repository name of a `repo:` target
/// lowercased (repository targets match without regard to case).
pub open spec fn normalized_target(t: Seq<char>) -> Seq<char> {
    let s = trim(t);
    if is_prefix("repo:"@, s) {
        "repo:"@ + lowercase(s.skip(5))
    } else {
        s
    }
}

/// The stored form of a target.
pub fn normalize_target(t: &str) -> (r: String)
    ensures
        r@ == normalized_target(t@),
{
    let s = str_trim(t);
    let p = chars_of("repo:");
    proof { reveal_strlit("repo:"); }
    if chars_starts_with(s.as_slice(), p.as_slice()) {
        let rest = string_of(chars_skip(s.as_slice(), 5).as_slice());
        let low = to_lowercase(rest.as_str());
        let mut out = owned("repo:");
        push_str(&mut out, low.as_str());
        out
    } else {
        string_of(s.as_slice())
    }
}

/// Every stored target that matches a worktree: its id, `*`, its workgroup and its
/// repository (the last two only when non-empty).
pub open spec fn targets_matching(id: Seq<char>, group: Option<Seq<char>>, repo: Option<Seq<char>>) -> Seq<Seq<char>> {
    let base = seq![id, "*"@];
    let with_group = match group {
        Some(g) => if g.len() > 0 { base.push("workgroup:"@ + g) } else { base },
        None => base,
    };
    match repo {
        Some(r) => if r.len() > 0 { with_group.push("repo:"@ + lowercase(r)) } else { with_group },
        None => with_group,
    }
}

/// The views of a list of strings.
pub open spec fn sviews(v: Seq<String>) -> Seq<Seq<char>> {
    v.map_values(|s: String| s@)
}

/// The stored targets that match a worktree.
pub fn matching_targets(worktree_id: &str, group: Option<&str>, repo: Option<&str>) -> (r: Vec<String>)
    ensures
        sviews(r@) == targets_matching(
            worktree_id@,
            match group { Some(g) => Some(g@), None => None },
            match repo { Some(s) => Some(s@), None => None },
        ),
{
    let mut out: Vec<String> = Vec::new();
    out.push(owned(worktree_id));
    out.push(owned("*"));
    assert(sviews(out@) =~= seq![worktree_id@, "*"@]);
    match group {
        Some(g) => {
            if !g.is_empty() {
                let mut t = owned("workgroup:");
                push_str(&mut t, g);
                let ghost before = out@;
                out.push(t);
                assert(sviews(out@) =~= sviews(before).push(t@));
            }
        },
        None => {},
    }
    match repo {
        Some(r) => {
            if !r.is_empty() {
                let low = to_lowercase(r);
                let mut t = owned("repo:");
                push_str(&mut t, low.as_str());
                let ghost before = out@;
                out.push(t);
                assert(sviews(out@) =~= sviews(before).push(t@));
            }
        },
        None => {},
    }
    out
}

/// The position of the first repository name, registered repositories first and then the
/// repositories of worktrees, whose lowercase is `needle`.
pub open spec fn repo_names(settings: AppSettings) -> Seq<Seq<char>> {
    settings.repositories@.map_values(|r: Repository| r.name@)
        + settings.worktrees@.map_values(|w: WorktreeEntry| w.repository_name@)
}

/// The first name of `names` whose lowercase is `needle`.
pub open spec fn first_name_folding_to(names: Seq<Seq<char>>, needle: Seq<char>) -> Option<Seq<char>>
    decreases names.len(),
{
    if names.len() == 0 {
        None
    } else if lowercase(names[0]) == needle {
        Some(names[0])
    } else {
        first_name_folding_to(names.drop_first(), needle)
    }
}

fn repo_name_list(settings: &AppSettings) -> (r: Vec<String>)
    ensures
        sviews(r@) == repo_names(*settings),
{
    let mut out: Vec<String> = Vec::new();
    let mut i: usize = 0;
    let ghost rn = settings.repositories@.map_values(|r: Repository| r.name@);
    let ghost wn = settings.worktrees@.map_values(|w: WorktreeEntry| w.repository_name@);
    while i < settings.repositories.len()
        invariant
            i <= settings.repositories@.len(),
            rn == settings.repositories@.map_values(|r: Repository| r.name@),
            sviews(out@) == rn.take(i as int),
        decreases settings.repositories@.len() - i,
    {
        let ghost before = out@;
        out.push(settings.repositories[i].name.clone());
        assert(sviews(out@) =~= sviews(before).push(rn[i as int]));
        assert(rn.take(i + 1) == rn.take(i as int).push(rn[i as int]));
        i = i + 1;
    }
    assert(rn.take(settings.repositories@.len() as int) == rn);
    let mut k: usize = 0;
    while k < settings.worktrees.len()
        invariant
            k <= settings.worktrees@.len(),
            rn == settings.repositories@.map_values(|r: Repository| r.name@),
            wn == settings.worktrees@.map_values(|w: WorktreeEntry| w.repository_name@),
            sviews(out@) == rn + wn.take(k as int),
        decreases settings.worktrees@.len() - k,
    {
        let ghost before = out@;
        out.push(settings.worktrees[k].repository_name.clone());
        assert(sviews(out@) =~= sviews(before).push(wn[k as int]));
        assert(wn.take(k + 1) == wn.take(k as int).push(wn[k as int]));
        k = k + 1;
    }
    assert(wn.take(settings.worktrees@.len() as int) == wn);
    out
}

fn find_folding_to(names: &Vec<String>, needle: &str) -> (r: Option<usize>)
    ensures
        match r {
            Some(i) => i < names@.len() && first_name_folding_to(sviews(names@), needle@) == Some(names@[i as int]@),
            None => first_name_folding_to(sviews(names@), needle@) is None,
        },
{
    let mut i: usize = 0;
    assert(sviews(names@).skip(0) == sviews(names@));
    while i < names.len()
        invariant
            i <= names@.len(),
            first_name_folding_to(sviews(names@), needle@) == first_name_folding_to(sviews(names@).skip(i as int), needle@),
        decreases names@.len() - i,
    {
        let ghost rest = sviews(names@).skip(i as int);
        assert(rest[0] == names@[i as int]@);
        assert(rest.drop_first() == sviews(names@).skip(i + 1));
        let low = to_lowercase(names[i].as_str());
        if str_eq(low.as_str(), needle) {
            return Some(i);
        }
        i = i + 1;
    }
    None
}

/// What a stored target is shown as: its kind (`all`, `workgroup`, `repo`, `worktree`)
/// and a name: none for `*`; the workgroup's display name (else its id); the repository's
/// own spelling (else the stored name); the worktree's name, none when it is gone.
pub open spec fn target_description(settings: AppSettings, target: Seq<char>) -> (Seq<char>, Option<Seq<char>>) {
    if target == "*"@ {
        ("all"@, None)
    } else if is_prefix("workgroup:"@, target) {
        let gid = target.skip(10);
        let ws = settings.workgroups@;
        ("workgroup"@, Some(match position_of(ws, gid) {
            Some(p) => group_label(ws, settings.locale, ws[p as int]),
            None => gid,
        }))
    } else if is_prefix("repo:"@, target) {
        let repo = target.skip(5);
        ("repo"@, Some(match first_name_folding_to(repo_names(settings), repo) {
            Some(n) => n,
            None => repo,
        }))
    } else {
        ("worktree"@, match first_with_id(settings.worktrees@, target) {
            Some(i) => Some(settings.worktrees@[i].name@),
            None => None,
        })
    }
}

/// Splits a stored target into its kind and display name. The kind tells wildcard
/// subscriptions apart from a worktree that has been closed (a worktree without a name).
pub fn describe_target(settings: &AppSettings, target: &str) -> (r: (String, Option<String>))
    ensures
        (r.0@, match r.1 { Some(s) => Some(s@), None => None }) == target_description(*settings, target@),
{
    proof {
        reveal_strlit("*");
        reveal_strlit("workgroup:");
        reveal_strlit("repo:");
    }
    let tv = chars_of(target);
    if str_eq(target, "*") {
        return (owned("all"), None);
    }
    let wp = chars_of("workgroup:");
    if chars_starts_with(tv.as_slice(), wp.as_slice()) {
        let gid = string_of(chars_skip(tv.as_slice(), 10).as_slice());
        let ws = &settings.workgroups;
        let label = match crate::workgroups::find_group(settings, gid.as_str()) {
            Some(p) => workgroup_display_name(settings, &ws[p]),
            None => gid,
        };
        return (owned("workgroup"), Some(label));
    }
    let rp = chars_of("repo:");
    if chars_starts_with(tv.as_slice(), rp.as_slice()) {
        let repo = string_of(chars_skip(tv.as_slice(), 5).as_slice());
        let names = repo_name_list(settings);
        let label = match find_folding_to(&names, repo.as_str()) {
            Some(i) => names[i].clone(),
            None => repo,
        };
        return (owned("repo"), Some(label));
    }
    let name = match find_worktree_by_id(settings, target) {
        Some(w) => Some(w.name.clone()),
        None => None,
    };
    (owned("worktree"), name)
}

/// A resolved subscription target.
pub struct ResolvedTarget {
    /// The stored (normalized) target.
    pub stored: String,
    /// What to call it when answering.
    pub label: String,
    /// The worktree id, for a target naming one worktree; `None` for wildcards.
    pub worktree_id: Option<String>,
}

/// Which worktree `value` designates as an id or else as a name, or the error message.
pub open spec fn name_or_id_resolution(settings: AppSettings, value: Seq<char>) -> Result<int, Seq<char>> {
    match first_with_id(settings.worktrees@, value) {
        Some(i) => Ok(i),
        None => worktree_resolution(
            settings.worktrees@,
            settings.case_insensitive_paths,
            None,
            if trim(value).len() > 0 { Some(trim(value)) } else { None },
            None,
            "specify a worktree name or id"@,
        ),
    }
}

/// `v` trimmed when not blank.
pub open spec fn nonblank(v: Seq<char>) -> Option<Seq<char>> {
    if trim(v).len() > 0 { Some(trim(v)) } else { None }
}

/// The registered repository names, joined with ", ".
pub open spec fn registered_repo_names(settings: AppSettings) -> Seq<char> {
    join_with(settings.repositories@.map_values(|r: Repository| r.name@), ", "@)
}

/// The workgroup the value of a `workgroup:` target names: by id, else by name.
pub open spec fn named_group(settings: AppSettings, v: Seq<char>) -> Result<Option<Seq<char>>, Seq<char>> {
    let ws = settings.workgroups@;
    let loc = settings.locale;
    match workgroup_target(ws, loc, nonblank(v), None) {
        Err(_) => workgroup_target(ws, loc, None, nonblank(v)),
        ok => ok,
    }
}

/// The registered repository the value of a `repo:` target names, compared lowercased.
pub open spec fn named_repo(settings: AppSettings, v: Seq<char>) -> Option<Seq<char>> {
    first_name_folding_to(repo_names(settings), lowercase(v))
}

/// How a raw subscription target resolves: (stored target, label, worktree id), or the
/// error message.
pub open spec fn subscription_resolution(settings: AppSettings, raw: Seq<char>) -> Result<(Seq<char>, Seq<char>, Option<Seq<char>>), Seq<char>> {
    let t = trim(raw);
    let ws = settings.workgroups@;
    let loc = settings.locale;
    if t == "*"@ {
        Ok(("*"@, "全ワークツリー"@, None))
    } else if is_prefix("workgroup:"@, t) {
        let v = trim(t.skip(10));
        if v.len() == 0 {
            Err("workgroup: の後にワークグループ ID または名前を指定してください"@)
        } else {
            match named_group(settings, v) {
                Err(e) => Err(e),
                Ok(None) => Err("ワークグループを解決できませんでした"@),
                Ok(Some(gid)) => {
                    let label = match position_of(ws, gid) {
                        Some(p) => group_label(ws, loc, ws[p as int]),
                        None => gid,
                    };
                    Ok((normalized_target("workgroup:"@ + gid), "ワークグループ '"@ + label + "'"@, None))
                },
            }
        }
    } else if is_prefix("repo:"@, t) {
        let v = trim(t.skip(5));
        if v.len() == 0 {
            Err("repo: の後にリポジトリ名を指定してください"@)
        } else {
            match named_repo(settings, v) {
                None => Err("リポジトリ '"@ + v + "' が見つかりません。利用可能: ["@ + registered_repo_names(settings) + "]"@),
                Some(name) => Ok((normalized_target("repo:"@ + name), "リポジトリ '"@ + name + "'"@, None)),
            }
        }
    } else {
        match name_or_id_resolution(settings, t) {
            Err(e) => Err(e),
            Ok(i) => {
                let w = settings.worktrees@[i];
                if w.is_home {
                    Err("'"@ + w.name@ + "' はホーム擬似ワークツリーでクローズされることがないため購読できません"@)
                } else if w.is_repository {
                    Err("'"@ + w.name@ + "' はリポジトリ擬似ワークツリーでクローズされることがないため購読できません"@)
                } else {
                    Ok((w.id@, "ワークツリー '"@ + w.name@ + "'"@, Some(w.id@)))
                }
            },
        }
    }
}

/// Whether a result is the given resolution (errors being invalid-parameters errors).
pub open spec fn resolution_is(r: Result<ResolvedTarget, ToolError>, want: Result<(Seq<char>, Seq<char>, Option<Seq<char>>), Seq<char>>) -> bool {
    match (r, want) {
        (Ok(t), Ok((stored, label, id))) => t.stored@ == stored && t.label@ == label
            && match t.worktree_id { Some(x) => id == Some(x@), None => id is None },
        (Err(e), Err(m)) => e.kind == ToolErrorKind::InvalidParams && e.message@ == m,
        _ => false,
    }
}

fn quoted(prefix: &str, subject: &str, suffix: &str) -> (r: String)
    ensures
        r@ == prefix@ + subject@ + suffix@,
{
    let mut m = owned(prefix);
    push_str(&mut m, subject);
    push_str(&mut m, suffix);
    m
}

fn registered_repo_names_text(settings: &AppSettings) -> (r: String)
    ensures
        r@ == registered_repo_names(*settings),
{
    let rs = &settings.repositories;
    let ghost names = rs@.map_values(|r: Repository| r.name@);
    let mut parts: Vec<Vec<char>> = Vec::new();
    let mut i: usize = 0;
    while i < rs.len()
        invariant
            i <= rs@.len(),
            rs == &settings.repositories,
            names == rs@.map_values(|r: Repository| r.name@),
            vviews(parts@) == names.take(i as int),
        decreases rs@.len() - i,
    {
        let ghost before = parts@;
        parts.push(chars_of(rs[i].name.as_str()));
        assert(vviews(parts@) =~= vviews(before).push(names[i as int]));
        assert(names.take(i + 1) == names.take(i as int).push(names[i as int]));
        i = i + 1;
    }
    assert(names.take(rs@.len() as int) == names);
    let sep = chars_of(", ");
    let joined = chars_join(&parts, sep.as_slice());
    string_of(joined.as_slice())
}

/// Resolves the `target` of a subscription: `*`, `workgroup:<id or name>`,
/// `repo:<name>` (case ignored), or a worktree id or name. A pseudo worktree (home,
/// repository root) can never close, so it cannot be subscribed to by itself.
pub fn resolve_subscription_target(settings: &AppSettings, raw: &str) -> (r: Result<ResolvedTarget, ToolError>)
    ensures
        resolution_is(r, subscription_resolution(*settings, raw@)),
{
    proof {
        reveal_strlit("*");
        reveal_strlit("workgroup:");
        reveal_strlit("repo:");
    }
    let tv = str_trim(raw);
    let t = string_of(tv.as_slice());
    if str_eq(t.as_str(), "*") {
        return Ok(ResolvedTarget { stored: owned("*"), label: owned("全ワークツリー"), worktree_id: None });
    }
    let wp = chars_of("workgroup:");
    if chars_starts_with(tv.as_slice(), wp.as_slice()) {
        let rest = string_of(chars_skip(tv.as_slice(), 10).as_slice());
        let v = string_of(str_trim(rest.as_str()).as_slice());
        if v.as_str().is_empty() {
            return Err(invalid_params(owned("workgroup: の後にワークグループ ID または名前を指定してください")));
        }
        let found = match resolve_workgroup_target(settings, Some(v.as_str()), None) {
            Err(_) => resolve_workgroup_target(settings, None, Some(v.as_str())),
            ok => ok,
        };
        let gid = match found {
            Err(e) => return Err(invalid_params(e)),
            Ok(None) => return Err(invalid_params(owned("ワークグループを解決できませんでした"))),
            Ok(Some(g)) => g,
        };
        let label = match crate::workgroups::find_group(settings, gid.as_str()) {
            Some(p) => workgroup_display_name(settings, &settings.workgroups[p]),
            None => gid.clone(),
        };
        let stored = normalize_target(quoted("workgroup:", gid.as_str(), "").as_str());
        proof { reveal_strlit(""); assert("workgroup:"@ + gid@ + ""@ =~= "workgroup:"@ + gid@); }
        return Ok(ResolvedTarget {
            stored,
            label: quoted("ワークグループ '", label.as_str(), "'"),
            worktree_id: None,
        });
    }
    let rp = chars_of("repo:");
    if chars_starts_with(tv.as_slice(), rp.as_slice()) {
        let rest = string_of(chars_skip(tv.as_slice(), 5).as_slice());
        let v = string_of(str_trim(rest.as_str()).as_slice());
        if v.as_str().is_empty() {
            return Err(invalid_params(owned("repo: の後にリポジトリ名を指定してください")));
        }
        let needle = to_lowercase(v.as_str());
        let names = repo_name_list(settings);
        return match find_folding_to(&names, needle.as_str()) {
            None => {
                let avail = registered_repo_names_text(settings);
                let mut m = quoted("リポジトリ '", v.as_str(), "' が見つかりません。利用可能: [");
                push_str(&mut m, avail.as_str());
                push_str(&mut m, "]");
                Err(invalid_params(m))
            },
            Some(i) => {
                let name = &names[i];
                let stored = normalize_target(quoted("repo:", name.as_str(), "").as_str());
                proof { reveal_strlit(""); assert("repo:"@ + name@ + ""@ =~= "repo:"@ + name@); }
                Ok(ResolvedTarget { stored, label: quoted("リポジトリ '", name.as_str(), "'"), worktree_id: None })
            },
        };
    }
    let w = match resolve_worktree_by_name_or_id(settings, t.as_str()) {
        Err(e) => return Err(e),
        Ok(w) => w,
    };
    if w.is_home {
        return Err(invalid_params(quoted("'", w.name.as_str(), "' はホーム擬似ワークツリーでクローズされることがないため購読できません")));
    }
    if w.is_repository {
        return Err(invalid_params(quoted("'", w.name.as_str(), "' はリポジトリ擬似ワークツリーでクローズされることがないため購読できません")));
    }
    Ok(ResolvedTarget {
        stored: w.id.clone(),
        label: quoted("ワークツリー '", w.name.as_str(), "'"),
        worktree_id: Some(w.id.clone()),
    })
}

/// Whether `list` holds `x`.
pub fn strings_contain(list: &[String], x: &str) -> (r: bool)
    ensures
        r == sviews(list@).contains(x@),
{
    let mut i: usize = 0;
    while i < list.len()
        invariant
            i <= list@.len(),
            forall|k: int| 0 <= k < i ==> sviews(list@)[k] != x@,
        decreases list@.len() - i,
    {
        if str_eq(list[i].as_str(), x) {
            assert(sviews(list@)[i as int] == x@);
            return true;
        }
        i = i + 1;
    }
    false
}

/// A text with no whitespace at either end and something in it, which trimming keeps.
pub open spec fn untrimmed(s: Seq<char>) -> bool {
    s.len() > 0 && !is_ws(s[0]) && !is_ws(s.last())
}

proof fn lemma_trim_keeps(s: Seq<char>)
    requires
        untrimmed(s),
    ensures
        trim(s) == s,
{
    assert(trim_start(s) == s);
    assert(trim_end(s) == s);
}

/// A text that ends in something other than whitespace, so that trimming its end keeps it.
pub open spec fn ends_plain(s: Seq<char>) -> bool {
    s.len() > 0 && !is_ws(s.last())
}

/// A worktree id that no wildcard form could be taken for.
pub open spec fn plain_id(id: Seq<char>) -> bool {
    id != "*"@ && !is_prefix("workgroup:"@, id) && !is_prefix("repo:"@, id)
}

proof fn lemma_trim_prefixed(p: Seq<char>, x: Seq<char>)
    requires
        p.len() > 0,
        !is_ws(p[0]),
        ends_plain(x),
    ensures
        trim(p + x) == p + x,
{
    let s = p + x;
    assert(s[0] == p[0]);
    assert(s.last() == x.last());
    lemma_trim_keeps(s);
}

proof fn lemma_position_in_range(ws: Seq<Workgroup>, id: Seq<char>)
    ensures
        position_of(ws, id) matches Some(p) ==> p < ws.len() && ws[p as int].id@ == id,
    decreases ws.len(),
{
    if ws.len() > 0 && ws[0].id@ != id {
        lemma_position_in_range(ws.drop_first(), id);
    }
}

proof fn lemma_position_found(ws: Seq<Workgroup>, id: Seq<char>, k: int)
    requires
        0 <= k < ws.len(),
        ws[k].id@ == id,
    ensures
        position_of(ws, id) is Some,
    decreases ws.len(),
{
    if ws[0].id@ != id {
        assert(ws.drop_first()[k - 1] == ws[k]);
        lemma_position_found(ws.drop_first(), id, k - 1);
    }
}

proof fn lemma_shown_in_range(ws: Seq<Workgroup>, locale: Option<String>, name: Seq<char>, n: int)
    requires
        n <= ws.len(),
    ensures
        forall|j: int| 0 <= j < shown_as_upto(ws, locale, name, n).len()
            ==> 0 <= #[trigger] shown_as_upto(ws, locale, name, n)[j] < n,
    decreases n,
{
    if n > 0 {
        lemma_shown_in_range(ws, locale, name, n - 1);
        let rest = shown_as_upto(ws, locale, name, n - 1);
        let m = shown_as_upto(ws, locale, name, n);
        assert forall|j: int| 0 <= j < m.len() implies 0 <= #[trigger] m[j] < n by {
            if j < rest.len() {
                assert(m[j] == rest[j]);
            }
        }
    }
}

/// The id a workgroup target settles on is the id of a workgroup.
proof fn lemma_named_group_exists(settings: AppSettings, v: Seq<char>)
    ensures
        named_group(settings, v) matches Ok(Some(gid)) ==> position_of(settings.workgroups@, gid) is Some,
{
    let gs = settings.workgroups@;
    lemma_shown_in_range(gs, settings.locale, trim(v), gs.len() as int);
    if let Some(x) = nonblank(v) {
        lemma_position_in_range(gs, x);
        lemma_shown_in_range(gs, settings.locale, x, gs.len() as int);
    }
    if let Ok(Some(gid)) = named_group(settings, v) {
        let k = choose|k: int| 0 <= k < gs.len() && gs[k].id@ == gid;
        lemma_position_found(gs, gid, k);
    }
}

proof fn lemma_folding_names(names: Seq<Seq<char>>, needle: Seq<char>)
    ensures
        first_name_folding_to(names, needle) matches Some(n) ==> lowercase(n) == needle,
    decreases names.len(),
{
    if names.len() > 0 && lowercase(names[0]) != needle {
        lemma_folding_names(names.drop_first(), needle);
    }
}

proof fn lemma_folding_found(names: Seq<Seq<char>>, needle: Seq<char>, k: int)
    requires
        0 <= k < names.len(),
        lowercase(names[k]) == needle,
    ensures
        first_name_folding_to(names, needle) is Some,
    decreases names.len(),
{
    if lowercase(names[0]) != needle {
        assert(names.drop_first()[k - 1] == names[k]);
        lemma_folding_found(names.drop_first(), needle, k - 1);
    }
}

proof fn lemma_named_upto_range(ws: Seq<WorktreeEntry>, name: Seq<char>, n: int)
    requires
        n <= ws.len(),
    ensures
        forall|j: int| 0 <= j < named_upto(ws, name, n).len() ==> 0 <= #[trigger] named_upto(ws, name, n)[j] < n,
    decreases n,
{
    if n > 0 {
        lemma_named_upto_range(ws, name, n - 1);
        let rest = named_upto(ws, name, n - 1);
        let m = named_upto(ws, name, n);
        assert forall|j: int| 0 <= j < m.len() implies 0 <= #[trigger] m[j] < n by {
            if j < rest.len() {
                assert(m[j] == rest[j]);
            }
        }
    }
}

/// A worktree target resolves to a registered worktree.
proof fn lemma_name_or_id_in_range(settings: AppSettings, value: Seq<char>)
    ensures
        name_or_id_resolution(settings, value) matches Ok(i) ==> 0 <= i < settings.worktrees@.len(),
{
    let ws = settings.worktrees@;
    lemma_first_with_id_range(ws, value);
    lemma_named_upto_range(ws, trim(value), ws.len() as int);
    let m = named_upto(ws, trim(value), ws.len() as int);
    if m.len() == 1 {
        assert(0 <= m[0] < ws.len());
    }
}

/// A subscription target, stored as it resolves, is among the targets that the events of the
/// worktrees it is meant for are matched against, so a subscription that succeeds is one that
/// gets its events; and naming a worktree's workgroup by its id or a worktree's repository in
/// any letter case does succeed. `*` reaches every worktree, a worktree target that worktree,
/// a workgroup target the worktrees shown under that workgroup, a repository target the
/// worktrees of that repository. Trimming makes the stored form differ for a workgroup id or
/// a repository name that is empty or ends in whitespace; those are left out.
pub proof fn lemma_stored_target_reaches(settings: AppSettings, raw: Seq<char>, d: int)
    requires
        0 <= d < settings.worktrees@.len(),
    ensures
        ({
            let t = trim(raw);
            let w = settings.worktrees@[d];
            let gs = settings.workgroups@;
            let g = match group_by_id(gs, opt_chars(w.workgroup_id)) {
                Some(k) => Some(gs[k].id@),
                None => None,
            };
            let targets = targets_matching(w.id@, g, Some(w.repository_name@));
            let res = subscription_resolution(settings, raw);
            let v = trim(t.skip(5));
            &&& t == "*"@ ==> (res matches Ok((stored, _, _)) && targets.contains(stored))
            &&& res matches Ok((stored, _, wid)) ==> (wid == Some(w.id@) ==> targets.contains(stored))
            &&& g matches Some(x) ==> ((untrimmed(x) && t == "workgroup:"@ + x)
                ==> named_group(settings, trim(t.skip(10))) == Ok::<Option<Seq<char>>, Seq<char>>(Some(x)))
            &&& g matches Some(x) ==> ((ends_plain(x) && is_prefix("workgroup:"@, t)
                && named_group(settings, trim(t.skip(10))) == Ok::<Option<Seq<char>>, Seq<char>>(Some(x)))
                ==> (res matches Ok((stored, _, _)) && targets.contains(stored)))
            &&& (is_prefix("repo:"@, t) && v.len() > 0 && w.repository_name@.len() > 0
                && lowercase(v) == lowercase(w.repository_name@)) ==> named_repo(settings, v) is Some
            &&& named_repo(settings, v) matches Some(n) ==> ((is_prefix("repo:"@, t) && v.len() > 0
                && w.repository_name@.len() > 0 && lowercase(v) == lowercase(w.repository_name@) && ends_plain(n))
                ==> (res matches Ok((stored, _, _)) && targets.contains(stored)))
        }),
{
    reveal_strlit("*");
    reveal_strlit("workgroup:");
    reveal_strlit("repo:");
    let t = trim(raw);
    let w = settings.worktrees@[d];
    let gs = settings.workgroups@;
    let gk = group_by_id(gs, opt_chars(w.workgroup_id));
    let g = match gk {
        Some(k) => Some(gs[k].id@),
        None => None,
    };
    let targets = targets_matching(w.id@, g, Some(w.repository_name@));
    let v = trim(t.skip(5));
    assert(targets[0] == w.id@);
    assert(targets[1] == "*"@);
    if let Some(x) = g {
        let k = gk->0;
        lemma_position_in_range(gs, match opt_chars(w.workgroup_id) { Some(i) => i, None => Seq::<char>::empty() });
        assert(0 <= k < gs.len());
        if untrimmed(x) && t == "workgroup:"@ + x {
            assert(t.skip(10) =~= x);
            lemma_trim_keeps(x);
            lemma_position_found(gs, x, k);
            lemma_position_in_range(gs, x);
        }
        if ends_plain(x) && is_prefix("workgroup:"@, t)
            && named_group(settings, trim(t.skip(10))) == Ok::<Option<Seq<char>>, Seq<char>>(Some(x)) {
            assert(t != "*"@) by {
                assert(t[0] == 'w');
            }
            let full = "workgroup:"@ + x;
            lemma_trim_prefixed("workgroup:"@, x);
            assert(!is_prefix("repo:"@, full)) by {
                assert(full[0] != "repo:"@[0]);
            }
            assert(targets[2] == full);
        }
    }
    if is_prefix("repo:"@, t) && v.len() > 0 && w.repository_name@.len() > 0
        && lowercase(v) == lowercase(w.repository_name@) {
        let names = repo_names(settings);
        let k = settings.repositories@.len() + d;
        assert(names[k] == w.repository_name@);
        lemma_folding_found(names, lowercase(v), k);
        lemma_folding_names(names, lowercase(v));
        let n = named_repo(settings, v)->0;
        if ends_plain(n) {
            assert(t != "*"@ && !is_prefix("workgroup:"@, t)) by {
                assert(t[0] == 'r');
            }
            let full = "repo:"@ + n;
            lemma_trim_prefixed("repo:"@, n);
            assert(is_prefix("repo:"@, full)) by {
                assert(full.take(5) =~= "repo:"@);
            }
            assert(full.skip(5) =~= n);
            assert(targets.last() == "repo:"@ + lowercase(w.repository_name@));
        }
    }
}

/// Describing a stored target that a subscription resolved to gives back what it names: `*`
/// is all worktrees, a worktree id names its worktree, a workgroup target the workgroup under
/// its shown name, a repository target the repository under its registered name in its own
/// letter case. Left out as above: a workgroup id or repository name that ends in whitespace,
/// and a worktree id that reads as a wildcard.
pub proof fn lemma_resolved_target_described(settings: AppSettings, raw: Seq<char>)
    ensures
        subscription_resolution(settings, raw) matches Ok((stored, _, wid)) ==> ({
            let t = trim(raw);
            let ws = settings.worktrees@;
            let gs = settings.workgroups@;
            let desc = target_description(settings, stored);
            &&& t == "*"@ ==> desc == ("all"@, None::<Seq<char>>)
            &&& wid matches Some(id) ==> (plain_id(id)
                ==> (first_with_id(ws, id) matches Some(j) && desc == ("worktree"@, Some(ws[j].name@))))
            &&& named_group(settings, trim(t.skip(10))) matches Ok(Some(gid)) ==> ((is_prefix("workgroup:"@, t)
                && ends_plain(gid)) ==> (position_of(gs, gid) matches Some(p)
                && desc == ("workgroup"@, Some(group_label(gs, settings.locale, gs[p as int])))))
            &&& named_repo(settings, trim(t.skip(5))) matches Some(n) ==> ((is_prefix("repo:"@, t) && ends_plain(n))
                ==> desc == ("repo"@, Some(n)))
        }),
{
    reveal_strlit("*");
    reveal_strlit("workgroup:");
    reveal_strlit("repo:");
    let t = trim(raw);
    let ws = settings.worktrees@;
    let gs = settings.workgroups@;
    if let Ok((stored, _, wid)) = subscription_resolution(settings, raw) {
        if let Some(id) = wid {
            lemma_name_or_id_in_range(settings, t);
            let i = name_or_id_resolution(settings, t)->Ok_0;
            assert(id == ws[i].id@);
            if plain_id(id) {
                lemma_first_with_id_found(ws, id, i);
                lemma_first_with_id_range(ws, id);
            }
        }
        if is_prefix("workgroup:"@, t) {
            lemma_named_group_exists(settings, trim(t.skip(10)));
            if let Ok(Some(gid)) = named_group(settings, trim(t.skip(10))) {
                if ends_plain(gid) {
                    let full = "workgroup:"@ + gid;
                    lemma_trim_prefixed("workgroup:"@, gid);
                    assert(t != "*"@) by {
                        assert(t[0] == 'w');
                    }
                    assert(full != "*"@) by {
                        assert(full[0] == 'w');
                    }
                    assert(!is_prefix("repo:"@, full)) by {
                        assert(full[0] != "repo:"@[0]);
                    }
                    assert(is_prefix("workgroup:"@, full)) by {
                        assert(full.take(10) =~= "workgroup:"@);
                    }
                    assert(full.skip(10) =~= gid);
                }
            }
        }
        if is_prefix("repo:"@, t) {
            let v = trim(t.skip(5));
            lemma_folding_names(repo_names(settings), lowercase(v));
            if let Some(n) = named_repo(settings, v) {
                if ends_plain(n) {
                    assert(t != "*"@ && !is_prefix("workgroup:"@, t)) by {
                        assert(t[0] == 'r');
                    }
                    let full = "repo:"@ + n;
                    lemma_trim_prefixed("repo:"@, n);
                    assert(is_prefix("repo:"@, full)) by {
                        assert(full.take(5) =~= "repo:"@);
                    }
                    assert(full.skip(5) =~= n);
                    let low = "repo:"@ + lowercase(n);
                    assert(low != "*"@) by {
                        assert(low[0] == 'r');
                    }
                    assert(!is_prefix("workgroup:"@, low)) by {
                        assert(low[0] != "workgroup:"@[0]);
                    }
                    assert(is_prefix("repo:"@, low)) by {
                        assert(low.take(5) =~= "repo:"@);
                    }
                    assert(low.skip(5) =~= lowercase(n));
                }
            }
        }
    }
}

} // verus!
