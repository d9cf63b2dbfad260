use oretachi::cli_args::{find_arg, find_kind_arg, find_notify_arg};

#[test]
fn test_find_notify_arg_long_space() {
    let args = vec!["bin".to_string(), "--notify".to_string(), "myname".to_string()];
    assert_eq!(find_notify_arg(&args), Some("myname".to_string()));
}

#[test]
fn test_find_notify_arg_long_eq() {
    let args = vec!["bin".to_string(), "--notify=myname".to_string()];
    assert_eq!(find_notify_arg(&args), Some("myname".to_string()));
}

#[test]
fn test_find_notify_arg_short() {
    let args = vec!["bin".to_string(), "-n".to_string(), "myname".to_string()];
    assert_eq!(find_notify_arg(&args), Some("myname".to_string()));
}

#[test]
fn test_find_notify_arg_none() {
    let args = vec!["bin".to_string(), "--other".to_string()];
    assert_eq!(find_notify_arg(&args), None);
}

#[test]
fn test_find_notify_arg_no_value() {
    let args = vec!["bin".to_string(), "--notify".to_string()];
    assert_eq!(find_notify_arg(&args), None);
}

#[test]
fn test_find_notify_arg_empty() {
    let args: Vec<String> = vec!["bin".to_string()];
    assert_eq!(find_notify_arg(&args), None);
}

#[test]
fn test_find_kind_arg_long_space() {
    let args = vec!["bin".to_string(), "--kind".to_string(), "approval".to_string()];
    assert_eq!(find_kind_arg(&args), Some("approval".to_string()));
}

#[test]
fn test_find_kind_arg_long_eq() {
    let args = vec!["bin".to_string(), "--kind=completed".to_string()];
    assert_eq!(find_kind_arg(&args), Some("completed".to_string()));
}

#[test]
fn test_find_kind_arg_short() {
    let args = vec!["bin".to_string(), "-k".to_string(), "general".to_string()];
    assert_eq!(find_kind_arg(&args), Some("general".to_string()));
}

#[test]
fn test_find_kind_arg_none() {
    let args = vec!["bin".to_string(), "--notify".to_string(), "myname".to_string()];
    assert_eq!(find_kind_arg(&args), None);
}

#[test]
fn find_arg_first_occurrence_wins_and_skips_program_name() {
    let args = vec![
        "--notify=prog".to_string(),
        "--notify=first".to_string(),
        "--notify".to_string(),
        "second".to_string(),
    ];
    assert_eq!(find_arg(&args, "--notify", "-n"), Some("first".to_string()));
}

#[test]
fn find_arg_value_may_look_like_a_flag() {
    let args = vec!["bin".to_string(), "-n".to_string(), "--kind".to_string()];
    assert_eq!(find_notify_arg(&args), Some("--kind".to_string()));
    assert_eq!(find_kind_arg(&args), None);
}
