//! What the agent hooks send: reading their JSON bodies.

use vstd::prelude::*;
use crate::json::{JsonValue, lookup, str_of, get};
use crate::text::{trim, string_of, str_trim};

verus! {

broadcast use vstd::string::group_string_axioms;

/// Member `k` of a value that is an object.
pub open spec fn member(v: Option<JsonValue>, k: Seq<char>) -> Option<JsonValue> {
    match v {
        Some(JsonValue::Object(es)) => lookup(es@, k),
        _ => None,
    }
}

/// Member `k` of a value, when the value is an object.
pub fn member_of<'a>(v: Option<&'a JsonValue>, k: &str) -> (r: Option<&'a JsonValue>)
    ensures
        match r {
            Some(x) => member(match v { Some(w) => Some(*w), None => None }, k@) == Some(*x),
            None => member(match v { Some(w) => Some(*w), None => None }, k@) is None,
        },
{
    match v {
        Some(JsonValue::Object(es)) => get(es, k),
        _ => None,
    }
}

/// The parsed body as a plain option.
pub open spec fn body_of(body: Option<&JsonValue>) -> Option<JsonValue> {
    match body {
        Some(w) => Some(*w),
        None => None,
    }
}

/// Whether a hook body carries `agent_id`, the mark of a hook fired inside a subagent.
/// A missing body, or one that is not JSON (`None`), carries none.
pub fn hook_body_has_agent_id(body: Option<&JsonValue>) -> (r: bool)
    ensures
        r == member(body_of(body), "agent_id"@) is Some,
{
    member_of(body, "agent_id").is_some()
}

/// Whether a notification should be dropped as fired inside a subagent: no explicit kind,
/// sent by the agent sidecar as `agent == "cc"`, and a body that carries `agent_id`.
pub fn should_skip_subagent_notify(agent: Option<&str>, kind: Option<&str>, body: Option<&JsonValue>) -> (r: bool)
    ensures
        r == (kind is None && (agent matches Some(a) && a@ == "cc"@) && member(body_of(body), "agent_id"@) is Some),
{
    if kind.is_some() {
        return false;
    }
    let is_cc = match agent {
        Some(a) => crate::text::str_eq(a, "cc"),
        None => false,
    };
    is_cc && hook_body_has_agent_id(body)
}

/// The text of a string member, trimmed, when not blank.
pub open spec fn nonblank_trimmed(v: Option<JsonValue>) -> Option<Seq<char>> {
    match str_of(v) {
        Some(s) => if trim(s).len() > 0 { Some(trim(s)) } else { None },
        None => None,
    }
}

/// The boolean a member holds, if it holds one.
pub open spec fn bool_of(v: Option<JsonValue>) -> Option<bool> {
    match v {
        Some(JsonValue::Bool(b)) => Some(b),
        _ => None,
    }
}

/// Reads `(prompt_id, stop_hook_active)` from a Stop hook body: the prompt id trimmed and only
/// when not blank; the flag false unless the body says true. A missing or broken body gives
/// `(None, false)`.
pub fn parse_stop_hook_fields(hook: Option<&JsonValue>) -> (r: (Option<String>, bool))
    ensures
        match r.0 {
            Some(p) => nonblank_trimmed(member(body_of(hook), "prompt_id"@)) == Some(p@),
            None => nonblank_trimmed(member(body_of(hook), "prompt_id"@)) is None,
        },
        r.1 == (bool_of(member(body_of(hook), "stop_hook_active"@)) == Some(true)),
{
    let prompt_id = match member_of(hook, "prompt_id") {
        Some(JsonValue::Str(s)) => {
            let t = str_trim(s.as_str());
            if t.len() > 0 { Some(string_of(t.as_slice())) } else { None }
        },
        _ => None,
    };
    let active = match member_of(hook, "stop_hook_active") {
        Some(JsonValue::Bool(b)) => *b,
        _ => false,
    };
    (prompt_id, active)
}

/// The string at `outer.inner` of a hook body.
pub open spec fn nested_str(v: Option<JsonValue>, outer: Seq<char>, inner: Seq<char>) -> Option<Seq<char>> {
    str_of(member(member(v, outer), inner))
}

fn nested<'a>(v: Option<&'a JsonValue>, outer: &str, inner: &str) -> (r: Option<&'a String>)
    ensures
        match r {
            Some(s) => nested_str(body_of(v), outer@, inner@) == Some(s@),
            None => nested_str(body_of(v), outer@, inner@) is None,
        },
{
    let o = member_of(v, outer);
    match member_of(o, inner) {
        Some(JsonValue::Str(s)) => Some(s),
        _ => None,
    }
}

/// The plan a plan-mode hook carries inline: `tool_response.plan`, else `tool_input.plan`,
/// whichever is first not blank.
pub open spec fn inline_plan_of(v: Option<JsonValue>) -> Option<Seq<char>> {
    let a = nested_str(v, "tool_response"@, "plan"@);
    let b = nested_str(v, "tool_input"@, "plan"@);
    if a is Some && trim(a->0).len() > 0 {
        a
    } else if b is Some && trim(b->0).len() > 0 {
        b
    } else {
        None
    }
}

/// The plan text carried inline in a hook body, if any.
pub fn inline_plan(hook: Option<&JsonValue>) -> (r: Option<String>)
    ensures
        match r {
            Some(p) => inline_plan_of(body_of(hook)) == Some(p@),
            None => inline_plan_of(body_of(hook)) is None,
        },
{
    match nested(hook, "tool_response", "plan") {
        Some(s) => {
            if str_trim(s.as_str()).len() > 0 {
                return Some(s.clone());
            }
        },
        None => {},
    }
    match nested(hook, "tool_input", "plan") {
        Some(s) => {
            if str_trim(s.as_str()).len() > 0 {
                return Some(s.clone());
            }
        },
        None => {},
    }
    None
}

/// The plan files a hook body names, to try in order: `tool_response.filePath`, then
/// `tool_input.filePath`, each where present.
pub open spec fn plan_files_of(v: Option<JsonValue>) -> Seq<Seq<char>> {
    let a = nested_str(v, "tool_response"@, "filePath"@);
    let b = nested_str(v, "tool_input"@, "filePath"@);
    let first = match a { Some(x) => seq![x], None => Seq::<Seq<char>>::empty() };
    match b { Some(y) => first.push(y), None => first }
}

/// The plan files named in a hook body, in the order to try them.
pub fn plan_file_candidates(hook: Option<&JsonValue>) -> (r: Vec<String>)
    ensures
        crate::targets::sviews(r@) == plan_files_of(body_of(hook)),
{
    let mut out: Vec<String> = Vec::new();
    match nested(hook, "tool_response", "filePath") {
        Some(s) => out.push(s.clone()),
        None => {},
    }
    let ghost before = out@;
    match nested(hook, "tool_input", "filePath") {
        Some(s) => out.push(s.clone()),
        None => {},
    }
    assert(crate::targets::sviews(out@) =~= plan_files_of(body_of(hook)));
    out
}

/// Whether a plan file's text is worth taking: not blank.
pub fn is_usable_plan(text: &str) -> (r: bool)
    ensures
        r == (trim(text@).len() > 0),
{
    str_trim(text).len() > 0
}

} // verus!
