//! Which terminal a subscription or inbox tool call comes from.

use vstd::prelude::*;
use crate::errors::{ToolError, ToolErrorKind, invalid_params};
use crate::settings::AppSettings;
use crate::notify_source::{NotifySource, notify_source_scope, source_scope};
use crate::text::{trim, str_trim, string_of, chars_eq, chars_of, opt_chars};

verus! {

broadcast use vstd::string::group_string_axioms;

/// A terminal session as the subscriber lookup sees it: its tab id, the worktree its working
/// directory lies in (if any), its agent session, whether it still runs and whether an agent
/// runs in it.
#[derive(Debug)]
pub struct SessionView {
    pub terminal_id: String,
    pub worktree_id: Option<String>,
    pub agent_session: Option<String>,
    pub running: bool,
    pub is_ai_agent: bool,
}

/// The terminal a call is taken to come from.
#[derive(Debug)]
pub struct SubscriberIdentity {
    pub terminal_id: String,
    pub worktree_id: Option<String>,
    pub agent_session: Option<String>,
}

/// A text trimmed, when not blank.
pub open spec fn given_text(o: Option<Seq<char>>) -> Option<Seq<char>> {
    match o {
        Some(s) => if trim(s).len() > 0 { Some(trim(s)) } else { None },
        None => None,
    }
}

/// The position of the first session of tab `t`.
pub open spec fn first_tab(ss: Seq<SessionView>, t: Seq<char>, k: int) -> Option<int>
    decreases ss.len() - k,
{
    if k < 0 || k >= ss.len() {
        None
    } else if ss[k].terminal_id@ == t {
        Some(k)
    } else {
        first_tab(ss, t, k + 1)
    }
}

/// Whether session `s` is a running agent terminal of worktree `wt`.
pub open spec fn agent_of(s: SessionView, wt: Seq<char>) -> bool {
    s.running && s.is_ai_agent && (s.worktree_id matches Some(w) && w@ == wt)
}

/// The positions of the running agent terminals of worktree `wt`, among the first `n`.
pub open spec fn agents_of(ss: Seq<SessionView>, wt: Seq<char>, n: int) -> Seq<int>
    decreases n,
{
    if n <= 0 {
        Seq::<int>::empty()
    } else {
        let acc = agents_of(ss, wt, n - 1);
        if agent_of(ss[n - 1], wt) { acc.push(n - 1) } else { acc }
    }
}

/// `r` is the identity of session `s`.
pub open spec fn identity_of(r: SubscriberIdentity, s: SessionView) -> bool {
    r.terminal_id@ == s.terminal_id@
        && crate::text::opt_chars(r.worktree_id) == crate::text::opt_chars(s.worktree_id)
        && crate::text::opt_chars(r.agent_session) == crate::text::opt_chars(s.agent_session)
}

/// What `resolve_subscriber` answers. `dir_worktree` is the worktree the trimmed project
/// directory lies in.
pub open spec fn subscriber_is(
    r: Result<SubscriberIdentity, ToolError>,
    settings: AppSettings,
    ss: Seq<SessionView>,
    terminal_id: Option<Seq<char>>,
    project_dir: Option<Seq<char>>,
    dir_worktree: Option<int>,
) -> bool {
    match given_text(terminal_id) {
        Some(t) => match first_tab(ss, t, 0) {
            Some(k) => r matches Ok(id) && identity_of(id, ss[k]),
            None => r matches Err(e) && e.kind == ToolErrorKind::InvalidParams && e.message@ == "terminal_id '"@ + t
                + "' に一致するターミナルがありません。セッション開始時に oretachi から注入された terminal_id をそのまま渡すか、oretachi_list_terminals で確認してください"@,
        },
        None => match given_text(project_dir) {
            None => r matches Err(e) && e.kind == ToolErrorKind::InvalidParams
                && e.message@ == "terminal_id または project_dir を指定してください。terminal_id はセッション開始時に oretachi から注入されています"@,
            Some(dir) => match dir_worktree {
                None => r matches Err(e) && e.kind == ToolErrorKind::InvalidParams && e.message@ == "project_dir '"@ + dir
                    + "' に一致するワークツリーがありません。available: ["@
                    + crate::worktrees::worktree_names(settings.worktrees@) + "]"@,
                Some(w) => {
                    let wt = settings.worktrees@[w];
                    let cands = agents_of(ss, wt.id@, ss.len() as int);
                    if cands.len() == 1 {
                        r matches Ok(id) && identity_of(id, ss[cands[0]])
                    } else if cands.len() == 0 {
                        r matches Err(e) && e.kind == ToolErrorKind::InvalidParams && e.message@ == "ワークツリー '"@ + wt.name@
                            + "' に走行中の AI エージェント端末が見つかりません。terminal_id を明示してください（セッション開始時に oretachi から注入されています）"@
                    } else {
                        r matches Err(e) && e.kind == ToolErrorKind::InvalidParams && e.message@ == "ワークツリー '"@ + wt.name@
                            + "' に AI エージェント端末が "@ + crate::text::decimal(cands.len())
                            + " 個あるため呼び出し元を特定できません。terminal_id を明示してください（セッション開始時に oretachi から注入されています）"@
                    }
                },
            },
        },
    }
}

fn identity(s: &SessionView) -> (r: SubscriberIdentity)
    ensures
        identity_of(r, *s),
{
    SubscriberIdentity {
        terminal_id: s.terminal_id.clone(),
        worktree_id: match &s.worktree_id { Some(w) => Some(w.clone()), None => None },
        agent_session: match &s.agent_session { Some(a) => Some(a.clone()), None => None },
    }
}

/// Finds the terminal a call comes from: the tab `terminal_id` names (trimmed), which must
/// exist; else the one running agent terminal of the worktree the project directory lies in
/// (`dir_worktree`, its position in the settings), refusing to guess among several.
pub fn resolve_subscriber(
    settings: &AppSettings,
    sessions: &Vec<SessionView>,
    terminal_id: Option<&str>,
    project_dir: Option<&str>,
    dir_worktree: Option<usize>,
) -> (r: Result<SubscriberIdentity, ToolError>)
    requires
        dir_worktree matches Some(w) ==> w < settings.worktrees@.len(),
    ensures
        subscriber_is(r, *settings, sessions@, match terminal_id { Some(t) => Some(t@), None => None },
            match project_dir { Some(d) => Some(d@), None => None }, match dir_worktree { Some(w) => Some(w as int), None => None }),
{
    let tid: Option<Vec<char>> = match terminal_id {
        Some(t) => {
            let v = str_trim(t);
            if v.len() > 0 { Some(v) } else { None }
        },
        None => None,
    };
    match tid {
        Some(t) => {
            let mut k: usize = 0;
            while k < sessions.len()
                invariant
                    k <= sessions@.len(),
                    given_text(match terminal_id { Some(x) => Some(x@), None => None }) == Some(t@),
                    first_tab(sessions@, t@, 0) == first_tab(sessions@, t@, k as int),
                decreases sessions@.len() - k,
            {
                if chars_eq(chars_of(sessions[k].terminal_id.as_str()).as_slice(), t.as_slice()) {
                    return Ok(identity(&sessions[k]));
                }
                k = k + 1;
            }
            let mut m = String::from_str("terminal_id '");
            m.append(string_of(t.as_slice()).as_str());
            m.append("' に一致するターミナルがありません。セッション開始時に oretachi から注入された terminal_id をそのまま渡すか、oretachi_list_terminals で確認してください");
            proof {
                reveal_strlit("terminal_id '");
                reveal_strlit("' に一致するターミナルがありません。セッション開始時に oretachi から注入された terminal_id をそのまま渡すか、oretachi_list_terminals で確認してください");
            }
            return Err(invalid_params(m));
        },
        None => {},
    }
    let dir: Vec<char> = match project_dir {
        Some(d) => {
            let v = str_trim(d);
            if v.len() > 0 {
                v
            } else {
                return Err(invalid_params(String::from_str(
                    "terminal_id または project_dir を指定してください。terminal_id はセッション開始時に oretachi から注入されています",
                )));
            }
        },
        None => return Err(invalid_params(String::from_str(
            "terminal_id または project_dir を指定してください。terminal_id はセッション開始時に oretachi から注入されています",
        ))),
    };
    let w = match dir_worktree {
        Some(w) => w,
        None => {
            let mut m = String::from_str("project_dir '");
            m.append(string_of(dir.as_slice()).as_str());
            m.append("' に一致するワークツリーがありません。available: [");
            m.append(crate::worktrees::available_worktree_names(settings).as_str());
            m.append("]");
            proof {
                reveal_strlit("project_dir '");
                reveal_strlit("' に一致するワークツリーがありません。available: [");
                reveal_strlit("]");
            }
            return Err(invalid_params(m));
        },
    };
    let wt = &settings.worktrees[w];
    let wid = chars_of(wt.id.as_str());
    let mut cands: Vec<usize> = Vec::new();
    let mut k: usize = 0;
    while k < sessions.len()
        invariant
            k <= sessions@.len(),
            wid@ == wt.id@,
            cands@.map_values(|x: usize| x as int) == agents_of(sessions@, wt.id@, k as int),
            forall|a: int| 0 <= a < cands@.len() ==> #[trigger] cands@[a] < k,
        decreases sessions@.len() - k,
    {
        let s = &sessions[k];
        let same = match &s.worktree_id {
            Some(x) => chars_eq(chars_of(x.as_str()).as_slice(), wid.as_slice()),
            None => false,
        };
        let ghost before = cands@;
        if s.running && s.is_ai_agent && same {
            cands.push(k);
            assert(cands@.map_values(|x: usize| x as int) =~= before.map_values(|x: usize| x as int).push(k as int));
        }
        k = k + 1;
    }
    let ghost cv = cands@.map_values(|x: usize| x as int);
    assert(cv.len() == cands@.len());
    if cands.len() == 1 {
        assert(cv[0] == cands@[0] as int);
        return Ok(identity(&sessions[cands[0]]));
    }
    let mut m = String::from_str("ワークツリー '");
    m.append(wt.name.as_str());
    if cands.len() == 0 {
        m.append("' に走行中の AI エージェント端末が見つかりません。terminal_id を明示してください（セッション開始時に oretachi から注入されています）");
        proof {
            reveal_strlit("ワークツリー '");
            reveal_strlit("' に走行中の AI エージェント端末が見つかりません。terminal_id を明示してください（セッション開始時に oretachi から注入されています）");
        }
    } else {
        m.append("' に AI エージェント端末が ");
        m.append(string_of(crate::text::decimal_chars(cands.len() as u64).as_slice()).as_str());
        m.append(" 個あるため呼び出し元を特定できません。terminal_id を明示してください（セッション開始時に oretachi から注入されています）");
        proof {
            reveal_strlit("ワークツリー '");
            reveal_strlit("' に AI エージェント端末が ");
            reveal_strlit(" 個あるため呼び出し元を特定できません。terminal_id を明示してください（セッション開始時に oretachi から注入されています）");
        }
    }
    Err(invalid_params(m))
}

/// Where a notification announced by a tool call comes from: the caller's worktree (which it
/// must have) with its name, repository and workgroup, the caller's tab, and the tool server
/// as the way in.
pub fn mcp_notify_source(settings: &AppSettings, subscriber: SubscriberIdentity) -> (r: Result<NotifySource, ToolError>)
    ensures
        match subscriber.worktree_id {
            Some(w) => r matches Ok(src) && src.worktree_id@ == w@
                && (opt_chars(src.worktree_name), opt_chars(src.repository_name), opt_chars(src.workgroup_id))
                    == source_scope(*settings, w@)
                && opt_chars(src.terminal_id) == Some(subscriber.terminal_id@)
                && src.origin@ == "mcp-notify:"@ + subscriber.terminal_id@
                && src.actor@ == "mcp"@,
            None => r matches Err(e) && e.kind == ToolErrorKind::InvalidParams
                && e.message@ == "呼び出し元ターミナルの作業ディレクトリから oretachi 管理下のワークツリーを特定できませんでした。oretachi が管理しているワークツリー内で実行してください"@,
        },
{
    let worktree_id = match subscriber.worktree_id {
        Some(w) => w,
        None => {
            return Err(invalid_params(crate::text::owned(
                "呼び出し元ターミナルの作業ディレクトリから oretachi 管理下のワークツリーを特定できませんでした。oretachi が管理しているワークツリー内で実行してください",
            )));
        },
    };
    let (worktree_name, repository_name, workgroup_id) = notify_source_scope(settings, worktree_id.as_str());
    let mut origin = crate::text::owned("mcp-notify:");
    crate::text::push_str(&mut origin, subscriber.terminal_id.as_str());
    Ok(NotifySource {
        worktree_id,
        worktree_name,
        terminal_id: Some(subscriber.terminal_id),
        repository_name,
        workgroup_id,
        actor: crate::text::owned("mcp"),
        origin,
    })
}

} // verus!
