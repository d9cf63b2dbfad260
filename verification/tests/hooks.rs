use oretachi::hooks::{
    hook_body_has_agent_id, inline_plan, is_usable_plan, parse_stop_hook_fields, plan_file_candidates,
    should_skip_subagent_notify,
};
use oretachi::json::{JsonEntry, JsonValue};

fn s(v: &str) -> JsonValue {
    JsonValue::Str(v.to_string())
}

fn obj(members: Vec<(&str, JsonValue)>) -> JsonValue {
    JsonValue::Object(members.into_iter().map(|(k, v)| JsonEntry { key: k.to_string(), value: v }).collect())
}

/// A Stop hook body as the agent sends it.
fn stop_payload(active: bool) -> JsonValue {
    obj(vec![
        ("session_id", s("bcbd95af-3066-4bc9-9b6b-98fabdd3ef8b")),
        ("transcript_path", s("X:/t.jsonl")),
        ("cwd", s("X:/wt/foo")),
        ("prompt_id", s("46513e5d-9375-47f3-a6c0-c3a4452eb2fa")),
        ("permission_mode", s("default")),
        ("effort", obj(vec![("level", s("medium"))])),
        ("hook_event_name", s("Stop")),
        ("stop_hook_active", JsonValue::Bool(active)),
        ("last_assistant_message", s("2")),
        ("background_tasks", JsonValue::Array(vec![])),
        ("session_crons", JsonValue::Array(vec![])),
    ])
}

/// A permission request fired inside a subagent: it carries `agent_id`.
fn subagent_permission_request() -> JsonValue {
    obj(vec![
        ("session_id", s("bcbd95af-3066-4bc9-9b6b-98fabdd3ef8b")),
        ("transcript_path", s("X:/t.jsonl")),
        ("cwd", s("X:/wt/foo")),
        ("hook_event_name", s("PermissionRequest")),
        ("agent_id", s("agent-01")),
        ("agent_type", s("general-purpose")),
        ("tool_name", s("Bash")),
        ("tool_input", obj(vec![("command", s("ls"))])),
    ])
}

#[test]
fn test_parse_stop_hook_fields_initial_firing() {
    let v = stop_payload(false);
    let (prompt_id, active) = parse_stop_hook_fields(Some(&v));
    assert_eq!(prompt_id.as_deref(), Some("46513e5d-9375-47f3-a6c0-c3a4452eb2fa"));
    assert!(!active, "初回発火は stop_hook_active=false");
}

#[test]
fn test_parse_stop_hook_fields_continuation() {
    let v = stop_payload(true);
    let (prompt_id, active) = parse_stop_hook_fields(Some(&v));
    assert_eq!(prompt_id.as_deref(), Some("46513e5d-9375-47f3-a6c0-c3a4452eb2fa"));
    assert!(active);
}

#[test]
fn test_parse_stop_hook_fields_missing_or_broken() {
    // a missing body and one that is not JSON both arrive as no parsed body
    assert_eq!(parse_stop_hook_fields(None), (None, false));
    assert_eq!(parse_stop_hook_fields(Some(&obj(vec![]))), (None, false));
    let v = obj(vec![("prompt_id", s("  ")), ("stop_hook_active", JsonValue::Bool(true))]);
    assert_eq!(parse_stop_hook_fields(Some(&v)), (None, true));
    let v = obj(vec![("prompt_id", s("  p-1 "))]);
    assert_eq!(parse_stop_hook_fields(Some(&v)), (Some("p-1".to_string()), false));
    // a body that is not an object has no members
    assert_eq!(parse_stop_hook_fields(Some(&s("x"))), (None, false));
}

#[test]
fn test_hook_body_has_agent_id_present() {
    assert!(hook_body_has_agent_id(Some(&subagent_permission_request())));
}

#[test]
fn test_hook_body_has_agent_id_absent() {
    assert!(!hook_body_has_agent_id(Some(&stop_payload(false))));
}

#[test]
fn test_hook_body_has_agent_id_missing_or_broken() {
    assert!(!hook_body_has_agent_id(None));
    assert!(!hook_body_has_agent_id(Some(&obj(vec![]))));
    assert!(!hook_body_has_agent_id(Some(&JsonValue::Null)));
}

#[test]
fn test_should_skip_subagent_notify_true_when_cc_and_agent_id_and_kind_none() {
    assert!(should_skip_subagent_notify(Some("cc"), None, Some(&subagent_permission_request())));
}

#[test]
fn test_should_skip_subagent_notify_false_when_agent_not_cc() {
    assert!(!should_skip_subagent_notify(Some("gemini"), None, Some(&subagent_permission_request())));
    assert!(!should_skip_subagent_notify(None, None, Some(&subagent_permission_request())));
}

#[test]
fn test_should_skip_subagent_notify_false_when_kind_explicit() {
    assert!(!should_skip_subagent_notify(Some("cc"), Some("hook"), Some(&subagent_permission_request())));
}

#[test]
fn test_should_skip_subagent_notify_false_when_no_agent_id() {
    assert!(!should_skip_subagent_notify(Some("cc"), None, Some(&stop_payload(false))));
}

#[test]
fn test_should_skip_subagent_notify_false_when_body_none() {
    assert!(!should_skip_subagent_notify(Some("cc"), None, None));
}

#[test]
fn plan_prefers_the_response_then_the_input_and_skips_blank_text() {
    let v = obj(vec![
        ("tool_response", obj(vec![("plan", s("   "))])),
        ("tool_input", obj(vec![("plan", s("# Plan\n- step"))])),
    ]);
    assert_eq!(inline_plan(Some(&v)).as_deref(), Some("# Plan\n- step"));
    let v = obj(vec![("tool_response", obj(vec![("plan", s("first"))])), ("tool_input", obj(vec![("plan", s("second"))]))]);
    assert_eq!(inline_plan(Some(&v)).as_deref(), Some("first"));
    assert!(inline_plan(None).is_none());
}

#[test]
fn plan_files_are_tried_response_first() {
    let v = obj(vec![
        ("tool_input", obj(vec![("filePath", s("b.md"))])),
        ("tool_response", obj(vec![("filePath", s("a.md"))])),
    ]);
    assert_eq!(plan_file_candidates(Some(&v)), vec!["a.md".to_string(), "b.md".to_string()]);
    assert!(plan_file_candidates(Some(&obj(vec![]))).is_empty());
    assert!(is_usable_plan("x"));
    assert!(!is_usable_plan(" \n\t"));
}
