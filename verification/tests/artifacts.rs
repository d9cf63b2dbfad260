use oretachi::artifacts::artifact_matches_query;
use oretachi::artifacts::{artifact_meta, sort_newest_first};
use oretachi::artifacts::{store_command, store_write_data, StoreCommand};
use oretachi::json::JsonValue;
use oretachi::artifacts::{
    apply_artifact_write, artifact_mutation_summary, artifact_outline, check_source_file,
    check_source_path, classify_source, decode_source, delete_module, ensure_artifact_unlocked,
    ensure_new_module, ensure_react_artifact, extract_exports, lines_of, list_modules,
    module_source, module_window, plan_artifact_write, plan_source_path, put_module, read_window,
    require_module_name, unique_replacement, update_module, validate_artifact_id,
    validate_module_name, validate_path_component, ArtifactData, ModuleSource, SourcePath,
    SourceSpec, WriteInput, WriteRequest, ARTIFACT_SOURCE_FILE_MAX_BYTES,
};
use oretachi::errors::ToolErrorKind;

fn chars(s: &str) -> Vec<char> {
    s.chars().collect()
}

fn sample(content: &str) -> ArtifactData {
    ArtifactData {
        id: "notif-report-1".into(),
        content_type: "application/vnd.ant.react".into(),
        title: "レポート".into(),
        content: content.into(),
        language: None,
        modules: Vec::new(),
        locked_while_open: None,
        created_at: 1,
        updated_at: 2,
    }
}

#[test]
fn artifact_id_rejects_path_escapes() {
    for bad in ["", "..", "a/b", "a\\b", "C:evil", "a:b", "a\0b", "../../x"] {
        assert!(validate_artifact_id(bad).is_err(), "{:?} は拒否されるべき", bad);
    }
    for ok in ["report-1", "a_b.c", "日本語ID", "202"] {
        assert!(validate_artifact_id(ok).is_ok(), "{:?} は許可されるべき", ok);
    }
}

#[test]
fn artifact_id_error_quotes_the_id() {
    let e = validate_artifact_id("a/b").unwrap_err();
    assert_eq!(e.kind, ToolErrorKind::InvalidParams);
    assert_eq!(e.message, "不正なアーティファクトIDです: \"a/b\"");
}

#[test]
fn module_names_may_nest_but_not_escape() {
    assert!(validate_module_name("components/Header").is_ok());
    assert!(validate_module_name("").is_ok());
    for bad in ["../x", "/abs", "a\\b", "a\0b", "a..b"] {
        assert!(validate_module_name(bad).is_err(), "{:?}", bad);
    }
    assert_eq!(validate_module_name("/abs").unwrap_err().message, "無効なモジュール名: '/abs'");
}

#[test]
fn path_component_rejects_separators_and_colons() {
    assert!(validate_path_component("wt-1").is_ok());
    assert!(validate_path_component("").is_ok());
    assert_eq!(
        validate_path_component("a:b").unwrap_err(),
        "不正なパス文字が含まれています: a:b"
    );
    assert!(validate_path_component("..").is_err());
    assert!(validate_path_component("x/y").is_err());
}

#[test]
fn content_and_file_path_are_mutually_exclusive() {
    assert!(classify_source(Some("x".into()), Some("a.jsx".into()), "create").is_err());
    let e = classify_source(None, None, "create").unwrap_err();
    assert_eq!(e.message, "create には content または file_path が必要です");
    assert!(matches!(
        classify_source(Some("x".into()), None, "create").unwrap(),
        SourceSpec::Inline(c) if c == "x"
    ));
    assert!(matches!(
        classify_source(None, Some("a.jsx".into()), "create").unwrap(),
        SourceSpec::File(p) if p == "a.jsx"
    ));
}

#[test]
fn lines_follow_str_lines() {
    let v = lines_of(&chars("a\r\nb\n\nc\r"));
    let got: Vec<String> = v.iter().map(|l| l.iter().collect()).collect();
    assert_eq!(got, vec!["a", "b", "", "c\r"]);
    assert!(lines_of(&chars("")).is_empty());
    assert_eq!(lines_of(&chars("x\n")).len(), 1);
}

#[test]
fn read_window_slices_lines_and_keeps_final_newline_at_end() {
    let text = "l0\nl1\nl2\nl3\n";
    let w = read_window(text, None, None);
    assert_eq!(w.content, text);
    assert_eq!(w.total_lines, 4);
    assert_eq!(w.offset, 0);

    let w = read_window(text, Some(1), Some(2));
    assert_eq!(w.content, "l1\nl2");
    assert_eq!(w.offset, 1);

    let w = read_window(text, Some(2), Some(5));
    assert_eq!(w.content, "l2\nl3\n");

    let w = read_window(text, Some(3), None);
    assert_eq!(w.content, "l3\n");

    let w = read_window(text, Some(9), None);
    assert_eq!(w.content, "\n");
    assert_eq!(w.total_lines, 4);

    let w = read_window("a\nb", Some(1), None);
    assert_eq!(w.content, "b");
}

#[test]
fn exports_are_listed_in_order_without_repeats_in_a_row() {
    let src = "export default function App() {}\n  export const X = 1\nexport const X = 2\nexport class Y {}\nconst z = 3\nexport function  Spaced() {}\nexport const X = 4\n";
    let names = extract_exports(src);
    assert_eq!(names, vec!["App", "X", "Y", "X"]);
    assert!(extract_exports("export default () => null").is_empty());
    assert_eq!(extract_exports("export default class Panel_2 extends X"), vec!["Panel_2"]);
}

#[test]
fn unique_replacement_needs_exactly_one_match() {
    assert_eq!(unique_replacement("hello world", "world", "there").unwrap(), "hello there");
    assert_eq!(unique_replacement("abc", "x", "y").unwrap_err(), 0);
    assert_eq!(unique_replacement("a a", "a", "b").unwrap_err(), 2);
    // non-overlapping count: "aaa" holds "aa" once
    assert_eq!(unique_replacement("aaa", "aa", "X").unwrap(), "Xa");
    // an empty pattern matches at every position
    assert_eq!(unique_replacement("", "", "new").unwrap(), "new");
    assert_eq!(unique_replacement("ab", "", "x").unwrap_err(), 3);
}

#[test]
fn write_plan_checks_arguments_per_command() {
    let e = plan_artifact_write("create", None, Some("t".into()), Some("c".into()), None).unwrap_err();
    assert_eq!(e.message, "create には type が必須です");
    let e = plan_artifact_write("create", Some("text/markdown".into()), None, Some("c".into()), None).unwrap_err();
    assert_eq!(e.message, "create には title が必須です");
    assert!(matches!(
        plan_artifact_write("create", Some("text/markdown".into()), Some("t".into()), None, Some("f.md".into())).unwrap(),
        WriteRequest::Create { source: SourceSpec::File(p), .. } if p == "f.md"
    ));
    assert!(matches!(plan_artifact_write("update", None, None, None, None).unwrap(), WriteRequest::Update));
    assert!(plan_artifact_write("rewrite", None, None, None, None).is_err());
    let e = plan_artifact_write("drop", None, None, None, None).unwrap_err();
    assert_eq!(
        e.message,
        "不明なコマンド 'drop'. create / update / rewrite / get / outline のいずれかを指定してください"
    );
}

#[test]
fn create_keeps_the_old_lock_flag_unless_told_otherwise() {
    let mut old = sample("old");
    old.locked_while_open = Some(true);
    let d = apply_artifact_write(
        WriteInput::Create { content_type: "text/markdown".into(), title: "T".into(), content: "new".into() },
        "notif-report-1",
        Some(old),
        None,
        None,
        None,
        None,
        10,
    )
    .unwrap();
    assert_eq!(d.locked_while_open, Some(true));
    assert_eq!(d.created_at, 10);
    assert_eq!(d.content, "new");

    let d = apply_artifact_write(
        WriteInput::Rewrite { content: "x".into() },
        "notif-report-1",
        Some(d),
        None,
        None,
        None,
        Some(false),
        11,
    )
    .unwrap();
    assert_eq!(d.locked_while_open, None);
    assert_eq!(d.created_at, 10);
    assert_eq!(d.updated_at, 11);
}

#[test]
fn update_replaces_the_single_occurrence() {
    let d = apply_artifact_write(
        WriteInput::Update,
        "notif-report-1",
        Some(sample("a\nb\nc")),
        None,
        Some("b".into()),
        Some("B".into()),
        None,
        5,
    )
    .unwrap();
    assert_eq!(d.content, "a\nB\nc");
    assert_eq!(d.updated_at, 5);

    let e = apply_artifact_write(WriteInput::Update, "x", Some(sample("aa")), None, Some("a".into()), Some("b".into()), None, 5)
        .unwrap_err();
    assert_eq!(e.message, "old_str がアーティファクト内に複数箇所存在します。より長い文字列を指定してください");
    let e = apply_artifact_write(WriteInput::Update, "x", Some(sample("aa")), None, Some("z".into()), Some("b".into()), None, 5)
        .unwrap_err();
    assert_eq!(e.message, "old_str がアーティファクト内に見つかりません");
    let e = apply_artifact_write(WriteInput::Update, "x", None, None, Some("z".into()), Some("b".into()), None, 5).unwrap_err();
    assert_eq!(e.message, "アーティファクト 'x' が存在しません");
    let e = apply_artifact_write(WriteInput::Update, "x", None, None, None, Some("b".into()), None, 5).unwrap_err();
    assert_eq!(e.message, "update には old_str が必須です");
}

#[test]
fn lock_refuses_writes_only_while_open() {
    assert!(ensure_artifact_unlocked("a", Some(true), false).is_ok());
    assert!(ensure_artifact_unlocked("a", None, true).is_ok());
    assert!(ensure_artifact_unlocked("a", Some(false), true).is_ok());
    let e = ensure_artifact_unlocked("a", Some(true), true).unwrap_err();
    assert!(e.message.starts_with("アーティファクト 'a' は locked_while_open が立っており"));
}

#[test]
fn modules_read_back_what_was_written() {
    let mut d = sample("entry");
    assert!(ensure_react_artifact(&d).is_ok());
    assert!(ensure_new_module(&d, "lib/a").is_ok());
    put_module(&mut d, "lib/a", "one\ntwo\n".into(), 7);
    assert_eq!(d.updated_at, 7);
    assert!(ensure_new_module(&d, "lib/a").is_err());
    assert_eq!(module_source(&d.modules, "lib/a").unwrap(), "one\ntwo\n");
    let w = module_window(&d, "lib/a", Some(1), None).unwrap();
    assert_eq!(w.content, "two\n");

    put_module(&mut d, "lib/a", "three".into(), 8);
    assert_eq!(d.modules.len(), 1);
    assert_eq!(module_source(&d.modules, "lib/a").unwrap(), "three");

    update_module(&mut d, "lib/a", Some("three".into()), Some("four".into()), 9).unwrap();
    assert_eq!(module_source(&d.modules, "lib/a").unwrap(), "four");
    let e = update_module(&mut d, "lib/a", Some("x".into()), Some("y".into()), 9).unwrap_err();
    assert_eq!(e.message, "old_str がモジュール 'lib/a' 内に見つかりません");
    put_module(&mut d, "lib/b", "xx".into(), 9);
    let e = update_module(&mut d, "lib/b", Some("x".into()), Some("y".into()), 9).unwrap_err();
    assert_eq!(e.message, "old_str がモジュール 'lib/b' 内に2箇所あります。1箇所だけにしてください");

    delete_module(&mut d, "lib/a", 10).unwrap();
    assert!(module_source(&d.modules, "lib/a").is_none());
    let e = delete_module(&mut d, "lib/a", 11).unwrap_err();
    assert_eq!(e.message, "モジュール 'lib/a' が存在しません");
    assert!(module_window(&d, "lib/a", None, None).is_err());
}

#[test]
fn module_commands_need_a_react_artifact_and_a_name() {
    let mut d = sample("x");
    d.content_type = "text/markdown".into();
    assert_eq!(
        ensure_react_artifact(&d).unwrap_err().message,
        "artifact_module は application/vnd.ant.react のみ対象です (現在: text/markdown)"
    );
    assert_eq!(require_module_name(None).unwrap_err().message, "module_name が必要です");
    assert!(require_module_name(Some("../x".into())).is_err());
    assert_eq!(require_module_name(Some("a/b".into())).unwrap(), "a/b");
}

#[test]
fn module_listing_is_sorted_and_counts_lines() {
    let ms = vec![
        ModuleSource { name: "zeta".into(), source: "1\n2\n".into() },
        ModuleSource { name: "alpha".into(), source: "x".into() },
        ModuleSource { name: "Beta".into(), source: "".into() },
        ModuleSource { name: "alpha".into(), source: "a\nb\nc".into() },
    ];
    let listing = list_modules(&ms);
    let names: Vec<&str> = listing.iter().map(|m| m.name.as_str()).collect();
    assert_eq!(names, vec!["Beta", "alpha", "zeta"]);
    let lines: Vec<usize> = listing.iter().map(|m| m.lines).collect();
    assert_eq!(lines, vec![0, 3, 2]);
}

#[test]
fn mutation_summary_omits_bodies() {
    let mut data = sample("SECRET_ENTRY_BODY\nb\nc");
    data.modules.push(ModuleSource { name: "lib/send".into(), source: "SECRET_MODULE_BODY\nline2\n".into() });
    let v = artifact_mutation_summary("create", &data);
    let shown = format!("{:?}", v);
    assert!(!shown.contains("SECRET_ENTRY_BODY"), "本文が戻り値に混ざっている: {}", shown);
    assert!(!shown.contains("SECRET_MODULE_BODY"), "モジュール本文が戻り値に混ざっている: {}", shown);
    assert_eq!(v.id, "notif-report-1");
    assert_eq!(v.command, "create");
    assert_eq!(v.entry_lines, 3);
    assert_eq!(v.modules[0].name, "lib/send");
    assert_eq!(v.modules[0].lines, 2);
}

#[test]
fn outline_lists_exports_per_module() {
    let mut data = sample("export default function App() {}\n");
    data.modules.push(ModuleSource { name: "b".into(), source: "export const B = 1\n".into() });
    data.modules.push(ModuleSource { name: "a".into(), source: "export function A() {}\nexport class A2 {}\n".into() });
    let o = artifact_outline(&data);
    assert_eq!(o.entry_lines, 1);
    assert_eq!(o.entry_exports, vec!["App"]);
    assert_eq!(o.modules.len(), 2);
    assert_eq!(o.modules[0].name, "a");
    assert_eq!(o.modules[0].exports, vec!["A", "A2"]);
    assert_eq!(o.modules[1].name, "b");
    assert_eq!(o.modules[1].lines, 1);
}

#[test]
fn file_path_rejects_base_dropping_forms() {
    for bad in ["", "   ", "C:foo", "\\bar", r"\\?\C:\x"] {
        assert!(plan_source_path("X:/wt", bad).outcome.is_err(), "{:?}", bad);
    }
    // a path the platform does not take for absolute and that starts with a separator
    assert!(check_source_path("X:/wt", "/bar", false).is_err());
    assert!(check_source_path("X:/wt", "C:foo", false).is_err());
}

#[test]
fn file_path_relative_requires_base_dir() {
    let e = check_source_path("", "templates/Panel.jsx", false).unwrap_err();
    assert_eq!(
        e.message,
        "file_path 'templates/Panel.jsx' は相対パスですが、相対解決の基準になるワークツリー追加先ディレクトリが未設定です。絶対パスを指定してください"
    );
    assert!(matches!(
        check_source_path("", " /abs/a.jsx ", true).unwrap(),
        SourcePath::Absolute(p) if p == "/abs/a.jsx"
    ));
    assert!(matches!(
        check_source_path("X:/wt", " templates/Panel.jsx", false).unwrap(),
        SourcePath::Relative { base, rel } if base == "X:/wt" && rel == "templates/Panel.jsx"
    ));
}

#[test]
fn file_path_enforces_size_limit() {
    assert!(check_source_file("a", true, ARTIFACT_SOURCE_FILE_MAX_BYTES).is_ok());
    let e = check_source_file("a", true, ARTIFACT_SOURCE_FILE_MAX_BYTES + 1).unwrap_err();
    assert_eq!(e.message, "file_path 'a' は 1048577 バイトあり、上限 1048576 バイトを超えています");
}

#[test]
fn file_path_rejects_directory() {
    let e = check_source_file("templates", false, 0).unwrap_err();
    assert_eq!(e.message, "file_path 'templates' はファイルではありません");
}

#[test]
fn file_path_strips_utf8_bom() {
    let mut bytes = vec![0xEF, 0xBB, 0xBF];
    bytes.extend_from_slice(b"export default function App() {}\n");
    let src = decode_source("bom.jsx", bytes).unwrap();
    assert!(src.starts_with("export default"), "BOM が残っている: {:?}", &src[..4.min(src.len())]);
}

#[test]
fn file_path_rejects_non_utf8() {
    assert!(decode_source("blob.bin", vec![0xFF, 0xFE, 0x00, 0x41]).is_err());
    assert_eq!(decode_source("t.txt", "日本".as_bytes().to_vec()).unwrap(), "日本");
}

#[test]
fn search_matches_case_insensitively_on_any_text_field() {
    let mut d = sample("body TEXT");
    d.language = Some("Rust".into());
    assert!(artifact_matches_query(&d, None));
    assert!(artifact_matches_query(&d, Some("text")));
    assert!(artifact_matches_query(&d, Some("レポ")));
    assert!(artifact_matches_query(&d, Some("RUST")));
    assert!(artifact_matches_query(&d, Some("VND.ANT")));
    assert!(!artifact_matches_query(&d, Some("python")));
}

#[test]
fn search_hits_come_newest_first_keeping_ties_in_order() {
    let mut hits = Vec::new();
    for (id, t) in [("a", 5u64), ("b", 9), ("c", 5), ("d", 7)] {
        let mut d = sample("x");
        d.id = id.into();
        d.updated_at = t;
        hits.push(artifact_meta(&d));
    }
    let sorted = sort_newest_first(hits);
    let ids: Vec<&str> = sorted.iter().map(|m| m.id.as_str()).collect();
    assert_eq!(ids, vec!["b", "d", "a", "c"]);
}

#[test]
fn store_commands_are_read_write_delete() {
    assert_eq!(store_command("read").unwrap(), StoreCommand::Read);
    assert_eq!(store_command("write").unwrap(), StoreCommand::Write);
    assert_eq!(store_command("delete").unwrap(), StoreCommand::Delete);
    assert_eq!(
        store_command("drop").unwrap_err().message,
        "不明なコマンド 'drop'. read / write / delete のいずれかを指定してください"
    );
    assert_eq!(store_write_data(None).unwrap_err().message, "write には data が必須です");
    assert!(matches!(store_write_data(Some(JsonValue::Null)).unwrap(), JsonValue::Null));
}

fn listed(id: &str, updated: Option<&str>) -> oretachi::json::JsonValue {
    let mut es = vec![oretachi::json::JsonEntry { key: "id".into(), value: JsonValue::Str(id.into()) }];
    if let Some(u) = updated {
        es.push(oretachi::json::JsonEntry { key: "updated_at".into(), value: JsonValue::Number(u.into()) });
    }
    JsonValue::Object(es)
}

fn listed_id(v: &oretachi::json::JsonValue) -> String {
    match v {
        oretachi::json::JsonValue::Object(es) => match oretachi::json::get_str(es, "id") {
            Some(s) => s.clone(),
            None => String::new(),
        },
        _ => String::new(),
    }
}

#[test]
fn listing_is_newest_first_and_stable() {
    let items = vec![
        listed("a", Some("100")),
        listed("b", None),
        listed("c", Some("300")),
        listed("d", Some("100")),
        listed("e", Some("-5")),
        listed("f", Some("1.5e3")),
    ];
    assert_eq!(oretachi::artifacts::listing_updated_at(&items[2]), 300);
    assert_eq!(oretachi::artifacts::listing_updated_at(&items[1]), 0);
    assert_eq!(oretachi::artifacts::listing_updated_at(&items[4]), 0);
    assert_eq!(oretachi::artifacts::listing_updated_at(&items[5]), 0);
    assert_eq!(oretachi::artifacts::listing_updated_at(&listed("g", Some("18446744073709551615"))), u64::MAX);
    assert_eq!(oretachi::artifacts::listing_updated_at(&listed("h", Some("18446744073709551616"))), 0);
    let ids: Vec<String> = oretachi::artifacts::sort_listing_newest_first(items).iter().map(listed_id).collect();
    assert_eq!(ids, vec!["c", "a", "d", "b", "e", "f"]);
}

#[test]
fn source_paths_must_lie_under_a_root() {
    let roots = vec!["/data/worktrees".to_string(), "/data/plugin".to_string()];
    let ok = oretachi::artifacts::check_within_roots("x.txt", "/data/plugin/a/x.txt", &roots);
    assert!(ok.outcome.is_ok());
    assert_eq!(ok.answers.len(), 2);
    assert!(!ok.answers[0].is_accepted());
    assert!(ok.answers[1].is_accepted());
    let first = oretachi::artifacts::check_within_roots("y", "/data/worktrees/y", &roots);
    assert!(first.outcome.is_ok());
    assert_eq!(first.answers.len(), 1);
    let out = oretachi::artifacts::check_within_roots("../etc", "/data/worktrees-evil/etc", &roots);
    assert_eq!(
        out.outcome.unwrap_err().message,
        "file_path '../etc' は読み取りを許可された範囲の外です。ワークツリー追加先ディレクトリ配下、または oretachi プラグインディレクトリ配下のファイルだけを指定できます（許可ルート: /data/worktrees, /data/plugin）"
    );
    let none = oretachi::artifacts::check_within_roots("z", "/anything", &Vec::new());
    assert!(none.outcome.is_err());
    assert!(none.answers.is_empty());
}

#[test]
fn source_path_asks_the_platform_about_the_trimmed_path() {
    let plan = plan_source_path("/wt", "  /srv/data/Panel.jsx \n");
    assert!(plan.answer.is_absolute());
    match plan.outcome {
        Ok(SourcePath::Absolute(p)) => assert_eq!(p, "/srv/data/Panel.jsx"),
        other => panic!("{:?}", other),
    }
    let plan = plan_source_path("/wt", " templates/Panel.jsx ");
    assert!(!plan.answer.is_absolute());
    match plan.outcome {
        Ok(SourcePath::Relative { base, rel }) => {
            assert_eq!(base, "/wt");
            assert_eq!(rel, "templates/Panel.jsx");
        }
        other => panic!("{:?}", other),
    }
}
