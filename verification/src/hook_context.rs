//! What the agent hooks get back: the system prompt a session starts with, the worktree
//! description a prompt carries (at most once per throttle period), the worktree a plan
//! description goes to, and the digest a hook acknowledges.

use vstd::prelude::*;
use crate::grants::resolve_workgroup;
use crate::notify::{DebounceMap, DebounceKey, window_passes};
use crate::settings::AppSettings;
use crate::text::{string_of, str_trim, trim, opt_chars};
use crate::workgroups::group_by_id;
use crate::worktrees::{resolve_worktree_by_dir, first_with_dir};

verus! {

broadcast use vstd::string::group_string_axioms;

/// The system prompt a session started in `project_dir` gets before blank ones are dropped:
/// the home agent's prompt in the home worktree, none in a repository root, else the prompt of
/// the worktree's workgroup (its own, else the first one).
pub open spec fn session_prompt_of(settings: AppSettings, project_dir: Option<Seq<char>>, home_prompt: Seq<char>) -> Option<Seq<char>> {
    let ws = settings.worktrees@;
    let gs = settings.workgroups@;
    match project_dir {
        None => None,
        Some(d) => match first_with_dir(ws, d, settings.case_insensitive_paths) {
            None => None,
            Some(i) => if ws[i].is_home {
                Some(home_prompt)
            } else if ws[i].is_repository {
                None
            } else {
                match group_by_id(gs, opt_chars(ws[i].workgroup_id)) {
                    Some(g) => opt_chars(gs[g].system_prompt),
                    None => None,
                }
            },
        },
    }
}

/// The system prompt a session started in `project_dir` gets (see [`session_prompt_of`]);
/// none when it is blank. `home_prompt` is the home agent's prompt.
pub fn session_prompt(settings: &AppSettings, project_dir: Option<&str>, home_prompt: &str) -> (r: Option<String>)
    ensures
        opt_chars(r) == match session_prompt_of(*settings, match project_dir { Some(d) => Some(d@), None => None }, home_prompt@) {
            Some(p) => if trim(p).len() > 0 { Some(p) } else { None },
            None => None,
        },
{
    let w = match project_dir {
        Some(d) => match resolve_worktree_by_dir(settings, d) {
            Some(w) => w,
            None => return None,
        },
        None => return None,
    };
    let p: Option<String> = if w.is_home {
        Some(home_prompt.to_string())
    } else if w.is_repository {
        None
    } else {
        match resolve_workgroup(settings, w) {
            Some(g) => match &settings.workgroups[g].system_prompt {
                Some(s) => Some(s.clone()),
                None => None,
            },
            None => None,
        }
    };
    match p {
        Some(s) => if str_trim(s.as_str()).len() > 0 { Some(s) } else { None },
        None => None,
    }
}

/// How long a worktree's description is not sent again with a prompt, in seconds.
pub const PROMPT_CONTEXT_THROTTLE_SECS: u64 = 600;

/// The key under which a worktree's last description is remembered.
pub open spec fn throttle_key(worktree_id: Seq<char>) -> DebounceKey {
    (worktree_id, Seq::<char>::empty(), false)
}

/// When each worktree's description last went out with a prompt.
pub struct PromptContextThrottle {
    windows: DebounceMap,
}

impl PromptContextThrottle {
    /// When each worktree's description last went out (epoch ms), by worktree id.
    pub closed spec fn last_sent(&self) -> Map<Seq<char>, u64> {
        Map::new(
            |k: Seq<char>| self.windows.view_map().contains_key(throttle_key(k)),
            |k: Seq<char>| self.windows.view_map()[throttle_key(k)],
        )
    }

    /// Nothing sent yet.
    pub fn new() -> (r: Self)
        ensures
            r.last_sent() == Map::<Seq<char>, u64>::empty(),
    {
        let r = PromptContextThrottle { windows: DebounceMap::new() };
        assert(r.last_sent() =~= Map::<Seq<char>, u64>::empty());
        r
    }

    /// Whether the description of worktree `worktree_id` goes out at `now_ms`: the first time,
    /// and then once a whole throttle period has passed since it last went out; when it goes
    /// out, `now_ms` is remembered.
    pub fn should_send_at(&mut self, worktree_id: &str, now_ms: u64) -> (r: bool)
        ensures
            r == window_passes(
                if old(self).last_sent().contains_key(worktree_id@) { Some(old(self).last_sent()[worktree_id@]) } else { None },
                now_ms,
                600,
            ),
            final(self).last_sent() == if r { old(self).last_sent().insert(worktree_id@, now_ms) } else { old(self).last_sent() },
    {
        let ghost before = self.windows.view_map();
        let r = self.windows.pass_window(worktree_id, "", false, PROMPT_CONTEXT_THROTTLE_SECS, now_ms);
        proof {
            reveal_strlit("");
            assert(""@ =~= Seq::<char>::empty());
            let after = self.windows.view_map();
            assert forall|k: Seq<char>| #![trigger throttle_key(k)]
                throttle_key(k) == throttle_key(worktree_id@) ==> k == worktree_id@ by {}
            if r {
                assert(self.last_sent() =~= old(self).last_sent().insert(worktree_id@, now_ms));
            } else {
                assert(self.last_sent() =~= old(self).last_sent());
            }
        }
        r
    }
}

/// The description a prompt carries.
#[derive(Debug)]
pub struct PromptDescription {
    pub worktree_name: String,
    pub description: Option<String>,
}

/// The description a prompt from `project_dir` carries at `now_ms`: none when the directory is
/// no registered worktree or when the worktree's description went out less than a throttle
/// period ago (the throttle is then left as it was); otherwise the worktree's name and
/// description, remembered as sent.
pub fn prompt_description(
    settings: &AppSettings,
    throttle: &mut PromptContextThrottle,
    project_dir: Option<&str>,
    now_ms: u64,
) -> (r: Option<PromptDescription>)
    ensures
        ({
            let ws = settings.worktrees@;
            let at = match project_dir {
                Some(d) => first_with_dir(ws, d@, settings.case_insensitive_paths),
                None => None,
            };
            match at {
                None => r is None && final(throttle).last_sent() == old(throttle).last_sent(),
                Some(i) => {
                    let id = ws[i].id@;
                    let last = old(throttle).last_sent();
                    let pass = window_passes(if last.contains_key(id) { Some(last[id]) } else { None }, now_ms, 600);
                    &&& pass ==> (r matches Some(p) && p.worktree_name@ == ws[i].name@
                        && opt_chars(p.description) == opt_chars(ws[i].description)
                        && final(throttle).last_sent() == last.insert(id, now_ms))
                    &&& !pass ==> r is None && final(throttle).last_sent() == last
                },
            }
        }),
{
    let w = match project_dir {
        Some(d) => match resolve_worktree_by_dir(settings, d) {
            Some(w) => w,
            None => return None,
        },
        None => return None,
    };
    if !throttle.should_send_at(w.id.as_str(), now_ms) {
        return None;
    }
    Some(PromptDescription {
        worktree_name: w.name.clone(),
        description: match &w.description {
            Some(s) => Some(s.clone()),
            None => None,
        },
    })
}

/// The name of the worktree a plan description goes to: the worktree of the project
/// directory, else the worktree name the hook sent as it is.
pub fn description_target(settings: &AppSettings, project_dir: Option<&str>, worktree: Option<&str>) -> (r: Option<String>)
    ensures
        opt_chars(r) == match match project_dir {
            Some(d) => first_with_dir(settings.worktrees@, d@, settings.case_insensitive_paths),
            None => None,
        } {
            Some(i) => Some(settings.worktrees@[i].name@),
            None => match worktree {
                Some(n) => Some(n@),
                None => None,
            },
        },
{
    let by_dir = match project_dir {
        Some(d) => resolve_worktree_by_dir(settings, d),
        None => None,
    };
    match by_dir {
        Some(w) => Some(w.name.clone()),
        None => match worktree {
            Some(n) => Some(n.to_string()),
            None => None,
        },
    }
}

/// The digest a hook acknowledges: its id trimmed; `None` (a bad request) when blank.
pub fn digest_ack_id(digest_id: &str) -> (r: Option<String>)
    ensures
        opt_chars(r) == if trim(digest_id@).len() > 0 { Some(trim(digest_id@)) } else { None },
{
    let t = str_trim(digest_id);
    if t.len() > 0 { Some(string_of(t.as_slice())) } else { None }
}

} // verus!
