use ivaldi_core::advisory::AdvisoryLevel;
use ivaldi_core::error::IvaldiError;
use ivaldi_core::execution::{CommandRunner, IsolationMode, SafetyConfig};
use ivaldi_core::git::{blame_lines, group_patch_lines, log_window_seconds, PatchLine};
use ivaldi_core::observe::{read_with_grep, FsObserver, ReadFileArgs};
use ivaldi_core::checkbox::{generate_checkbox_line, plan_toggle, CheckboxState, ToggleCheckboxArgs, TogglePlan};
use ivaldi_core::json_edit::{JsonEntry, JsonValue};
use ivaldi_core::pattern::Pattern;
use ivaldi_core::search::{build_search_query, SearchCodeArgs};

fn search_args(query: Option<&str>, category: Option<&str>, name: Option<&str>) -> SearchCodeArgs {
    SearchCodeArgs {
        path: ".".to_string(),
        query: query.map(|s| s.to_string()),
        category: category.map(|s| s.to_string()),
        name_pattern: name.map(|s| s.to_string()),
        language: None,
        depth: 1,
        pattern: None,
        respect_agentignore: false,
        limit: 0,
        offset: 0,
    }
}

#[test]
fn search_query_building() {
    let q = build_search_query(&search_args(Some(".functions[]"), None, None));
    assert_eq!(q.ok(), Some(".[] | .functions[]".to_string()));
    let q = build_search_query(&search_args(Some(".[] | .structs[]"), None, None));
    assert_eq!(q.ok(), Some(".[] | .structs[]".to_string()));
    let q = build_search_query(&search_args(None, Some("Functions"), None));
    assert_eq!(q.ok(), Some(".[] | .functions[]".to_string()));
    match build_search_query(&search_args(None, Some("widgets"), None)) {
        Err(IvaldiError::InvalidArgument(m)) => assert!(m.contains("widgets")),
        _ => panic!("expected an unknown category"),
    }
}

fn numbered(n: usize) -> String {
    (1..=n).map(|i| format!("line {}\n", i)).collect()
}

#[test]
fn read_lines_range_and_truncation() {
    let text = numbered(5);
    let mut args = ReadFileArgs::for_path("f.txt".to_string());
    args.from_line = Some(2);
    args.to_line = Some(3);
    let r = FsObserver::read_lines("f.txt", &text, &args);
    let c = r.content.unwrap();
    assert_eq!(c.content, "line 2\nline 3\n");
    assert_eq!(c.info.lines_total, 5);
    assert_eq!(c.info.lines_returned, 2);
    assert!(!c.info.truncated);

    args.from_line = Some(9);
    args.to_line = None;
    let r = FsObserver::read_lines("f.txt", &text, &args);
    assert_eq!(r.content.unwrap().content, "");
    assert_eq!(r.advisory.len(), 1);
    assert_eq!(r.advisory[0].level, AdvisoryLevel::Warn);

    let long = numbered(1001);
    let r = FsObserver::read_lines("f.txt", &long, &ReadFileArgs::for_path("f.txt".to_string()));
    let c = r.content.unwrap();
    assert!(c.info.truncated);
    assert!(c.content.contains("\n... [ TRUNCATED ] ...\n"));
    assert!(c.content.starts_with("line 1\n"));
    assert!(c.content.ends_with("line 1001\n"));
    assert!(!c.content.contains("line 501\n"));
    assert_eq!(r.advisory.len(), 1);
}

#[test]
fn read_with_grep_marks_matches() {
    let text = "alpha\nbeta\ngamma\ndelta\n";
    let r = read_with_grep(text, "f.txt", "^gam", 1);
    let c = r.content.unwrap();
    assert_eq!(c.content, "   2:     beta\n   3: >>> gamma\n   4:     delta\n");
    assert_eq!(c.info.lines_returned, 3);
    let r = read_with_grep(text, "f.txt", "zzz", 1);
    assert!(r.is_error);
    assert_eq!(r.error.unwrap().code, "regex_error");
    let r = read_with_grep(text, "f.txt", "(", 1);
    assert!(r.is_error);
    assert!(r.error.unwrap().message.starts_with("Regex error: Invalid regex pattern: "));
}

#[test]
fn regex_through_library() {
    assert!(Pattern::new("(").is_err());
    assert!(Pattern::new("^fo+").is_ok());
    assert_eq!(generate_checkbox_line("- [ ] a.b", true), "- [x] a.b");
    assert_eq!(generate_checkbox_line("- [x] a.b", false), "- [ ] a.b");
    let item = JsonValue::Object(vec![
        JsonEntry { key: "content".to_string(), value: JsonValue::Str("a.b".to_string()) },
        JsonEntry { key: "task".to_string(), value: JsonValue::Bool(true) },
        JsonEntry { key: "checked".to_string(), value: JsonValue::Bool(false) },
        JsonEntry { key: "line_start".to_string(), value: JsonValue::Number("1".to_string()) },
    ]);
    let doc = JsonValue::Object(vec![JsonEntry { key: "list_items".to_string(), value: JsonValue::Array(vec![item]) }]);
    let args = ToggleCheckboxArgs { path: "t.md".to_string(), pattern: "A.B".to_string(), state: CheckboxState::Toggle };
    match plan_toggle("- [ ] a.b\n", &doc, &args) {
        TogglePlan::Toggle { new_state, replacement, grep, .. } => {
            assert!(new_state);
            assert_eq!(replacement, "- [x] a.b");
            assert_eq!(grep, "^\\- \\[ \\] a\\.b$");
        }
        _ => panic!("expected a toggle"),
    }
}

#[test]
fn git_helpers() {
    assert_eq!(blame_lines(10, 3, None), vec![10, 11, 12]);
    assert_eq!(blame_lines(10, 3, Some(&vec![11, 40])), vec![11]);
    assert_eq!(log_window_seconds("1w"), Some(604800));
    assert_eq!(log_window_seconds("3y"), None);
    let l = |p: Option<&str>, o: char, c: &str| PatchLine { path: p.map(|s| s.to_string()), origin: o, content: c.to_string() };
    let lines = vec![
        l(Some("a.rs"), 'F', "diff a\n"),
        l(Some("a.rs"), '+', "x\n"),
        l(Some("b.rs"), '-', "y\n"),
        l(None, 'B', "binary\n"),
    ];
    assert_eq!(
        group_patch_lines(&lines),
        vec![("a.rs".to_string(), "Fdiff a\n+x\n".to_string()), ("b.rs".to_string(), "-y\n".to_string())]
    );
}

#[test]
fn sandboxed_command_line() {
    let args = vec!["-la".to_string()];
    let plain = CommandRunner::new(SafetyConfig::default()).build("ls", &args, "/w");
    assert_eq!(plain.program, "ls");
    assert_eq!(plain.args, args);
    let cfg = SafetyConfig { isolation_mode: IsolationMode::Bubblewrap, ro_bind_root: true, network_isolation: true };
    let boxed = CommandRunner::new(cfg).build("ls", &args, "/w");
    assert_eq!(boxed.program, "bwrap");
    assert_eq!(
        boxed.args,
        vec!["--ro-bind", "/", "/", "--dev", "/dev", "--proc", "/proc", "--unshare-net", "--bind", "/w", "/w", "ls", "-la"]
    );
    assert_eq!(boxed.cwd, "/w");
}
