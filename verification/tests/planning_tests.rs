use ivaldi_core::advisory::{AdvisoryLevel, AdvisorySource};
use ivaldi_core::analyze::{Analyzer, WalkEntry};
use ivaldi_core::edit_context::{
    AmbiguousContext, AvailableTargets, FileInfo, GrepAmbiguousContext, GrepNoMatchContext, MatchInfo,
    NoMatchContext, PartialMatch, SelectorType, SimilarName, TargetInfo,
};
use ivaldi_core::error::IvaldiError;
use ivaldi_core::json_edit::{edit_json_document, get_value, JsonEntry, JsonOperation, JsonValue};
use ivaldi_core::kind::SourceKind;
use ivaldi_core::listing::{DirEntry, FsLister, FsNavigator};
use ivaldi_core::mutate::{Mutator, WriteFileArgs, WriteMode};
use ivaldi_core::paths::{expand_tilde, resolution_candidates, resolve_path};
use ivaldi_core::project_root::{
    ancestors, discover_project_root, find_project_root, root_marker_names, session_marker_names,
};
use ivaldi_core::section::{append_route, json_append_refusal, unsupported_append, AppendRoute, InsertPosition};
use ivaldi_core::session::session_label;
use ivaldi_core::syslog::{parse_i32, window_minutes};
use std::path::Path;

fn file_info() -> FileInfo {
    FileInfo { path: "src/lib.rs".to_string(), file_type: "Rust".to_string(), total_lines: 10, total_bytes: 120 }
}

fn keys(v: &JsonValue) -> Vec<String> {
    match v {
        JsonValue::Object(es) => es.iter().map(|e| e.key.clone()).collect(),
        _ => Vec::new(),
    }
}

fn str_of(v: Option<&JsonValue>) -> Option<String> {
    match v {
        Some(JsonValue::Str(s)) => Some(s.clone()),
        _ => None,
    }
}

fn array_len(v: Option<&JsonValue>) -> Option<usize> {
    match v {
        Some(JsonValue::Array(a)) => Some(a.len()),
        _ => None,
    }
}

fn target(name: &str, line: usize) -> TargetInfo {
    TargetInfo { name: name.to_string(), line_start: line, visibility: None, parent: None }
}

fn match_info(name: &str, line: usize, parent: Option<&str>) -> MatchInfo {
    MatchInfo {
        name: name.to_string(),
        line_start: line,
        line_end: line + 2,
        signature: None,
        parent: parent.map(|p| p.to_string()),
        content_preview: None,
    }
}

#[test]
fn no_match_advisory_suggests_closest_name() {
    let ctx = NoMatchContext {
        query: ".functions[] | select(.name == \"helo\")".to_string(),
        selector_type: SelectorType::AstQuery,
        file_info: file_info(),
        available_targets: None,
        similar_names: vec![SimilarName { name: "hello".to_string(), distance: 1, category: "function".to_string() }],
        partial_matches: Vec::new(),
    };
    let a = ctx.to_advisory();
    assert_eq!(a.source, AdvisorySource::Adt);
    assert_eq!(a.level, AdvisoryLevel::Suggest);
    assert_eq!(a.action, Some("Did you mean 'hello'? (distance: 1)".to_string()));
    assert_eq!(
        keys(&a.content),
        vec!["available_targets", "file", "partial_matches", "query", "selector_type", "similar_names"]
    );
    assert!(matches!(get_value(&a.content, "available_targets"), Some(JsonValue::Null)));
    assert_eq!(str_of(get_value(&a.content, "selector_type")), Some("ast_query".to_string()));
    let file = get_value(&a.content, "file").unwrap();
    assert_eq!(keys(file), vec!["file_type", "path", "total_bytes", "total_lines"]);
    assert!(matches!(get_value(file, "total_lines"), Some(JsonValue::Number(n)) if n == "10"));
}

#[test]
fn no_match_advisory_lists_functions() {
    let mut t = AvailableTargets::empty();
    t.functions = vec![target("a", 1), target("b", 5), target("c", 9), target("d", 12), target("e", 15), target("f", 20)];
    let ctx = NoMatchContext {
        query: "q".to_string(),
        selector_type: SelectorType::AstQuery,
        file_info: file_info(),
        available_targets: Some(t),
        similar_names: Vec::new(),
        partial_matches: Vec::new(),
    };
    let a = ctx.to_advisory();
    assert_eq!(a.action, Some("Available functions: a, b, c, d, e".to_string()));
    let targets = get_value(&a.content, "available_targets").unwrap();
    assert_eq!(keys(targets), vec!["functions"]);
    assert_eq!(array_len(get_value(targets, "functions")), Some(6));
}

#[test]
fn ambiguous_advisory_summarises_matches() {
    let ctx = AmbiguousContext {
        query: "q".to_string(),
        selector_type: SelectorType::AstQuery,
        file_info: file_info(),
        matches: vec![match_info("new", 3, Some("Foo")), match_info("new", 9, None)],
        disambiguation_hints: Vec::new(),
    };
    let a = ctx.to_advisory();
    assert_eq!(a.action, Some("Matched 2 nodes. Add more specific selector constraints.".to_string()));
    match get_value(&a.content, "match_summary") {
        Some(JsonValue::Array(xs)) => {
            assert_eq!(str_of(xs.get(0)), Some("'new' in Foo (line 3)".to_string()));
            assert_eq!(str_of(xs.get(1)), Some("'new' at line 9".to_string()));
        }
        _ => panic!("expected a summary"),
    }
    assert!(matches!(get_value(&a.content, "match_count"), Some(JsonValue::Number(n)) if n == "2"));
}

#[test]
fn grep_advisories() {
    let long = "x".repeat(70);
    let ctx = GrepNoMatchContext {
        pattern: "foo".to_string(),
        file_info: file_info(),
        partial_matches: Vec::new(),
        similar_lines: vec![long.clone(), "short".to_string()],
    };
    let a = ctx.to_advisory();
    let cut = format!("{}...", &long[..57]);
    assert_eq!(a.action, Some(format!("Similar lines found: {}, short", cut)));
    assert_eq!(str_of(get_value(&a.content, "selector_type")), Some("grep".to_string()));
    let ctx2 = GrepNoMatchContext {
        pattern: "foo".to_string(),
        file_info: file_info(),
        partial_matches: vec![PartialMatch { line: 2, content: "FOO".to_string(), match_type: "case_insensitive".to_string() }],
        similar_lines: Vec::new(),
    };
    assert_eq!(
        ctx2.to_advisory().action,
        Some("Found 1 case-insensitive matches. Try a more specific pattern.".to_string())
    );
    let ctx3 = GrepAmbiguousContext { pattern: "x".to_string(), file_info: file_info(), matches: vec![match_info("let x", 4, None)] };
    let a3 = ctx3.to_advisory();
    assert_eq!(a3.action, Some("Matched 1 lines. Use line numbers or a more specific pattern.".to_string()));
    match get_value(&a3.content, "match_summary") {
        Some(JsonValue::Array(xs)) => assert_eq!(str_of(xs.get(0)), Some("Line 4: let x".to_string())),
        _ => panic!("expected a summary"),
    }
}

#[test]
fn expand_tilde_with_home() {
    let r = expand_tilde("~/Documents", Some("/home/user"));
    assert_eq!(Path::new(&r), Path::new("/home/user").join("Documents"));
    let r = expand_tilde("~", Some("/home/user"));
    assert_eq!(Path::new(&r), Path::new("/home/user"));
    assert_eq!(expand_tilde("/tmp/test", Some("/home/user")), "/tmp/test");
    assert_eq!(expand_tilde("~/x", None), "~/x");
    assert_eq!(expand_tilde("~user/x", Some("/home/user")), "~user/x");
}

#[test]
fn resolve_path_prefers_existing_candidates() {
    let c = resolution_candidates("a.txt", Some("/proj"), "/work", None, Some("/home/u"));
    assert_eq!(c, vec!["/proj/a.txt", "/work/a.txt", "/home/u/a.txt"]);
    assert_eq!(resolve_path("a.txt", "/work", &c, &vec![false, true, true]), "/work/a.txt");
    assert_eq!(resolve_path("a.txt", "/work", &c, &vec![false, false, false]), "/work/a.txt");
    assert_eq!(resolve_path("a.txt", "/work", &c, &vec![false, false, true]), "/home/u/a.txt");
    assert_eq!(resolve_path("/abs/a.txt", "/work", &c, &vec![true, true, true]), "/abs/a.txt");
}

#[test]
fn project_root_discovery() {
    assert_eq!(ancestors("/a/b/c"), vec!["/a/b/c", "/a/b", "/a", "/"]);
    assert_eq!(find_project_root("/a/b/c", &vec![false, true, false, false]), "/a/b");
    assert_eq!(find_project_root("/a/b/c", &vec![false, false, false, false]), "/a/b/c");
    assert_eq!(discover_project_root("/a/b/c", None, &vec![false, false, true, false]), Some("/a".to_string()));
    assert_eq!(discover_project_root("/a/b/c", Some("/a/b"), &vec![false, false, true, false]), None);
    assert_eq!(discover_project_root("/a/b/c", Some("/a/b"), &vec![false, true, true, false]), Some("/a/b".to_string()));
}

#[test]
fn analyze_file_text() {
    let text = "use std::fs;\npub fn run() {}\n        let x = 1; // TODO: tidy\npub struct Config;\n";
    let r = Analyzer::analyze_text("m.rs", text, 99);
    assert_eq!(r.lines, 4);
    assert_eq!(r.size_bytes, 99);
    assert_eq!(r.complexity_score, 2);
    assert_eq!(r.symbols, vec!["fn run", "struct Config"]);
    assert_eq!(r.dependencies, vec!["std::fs"]);
    assert_eq!(r.todos, vec!["TODO: tidy"]);
    assert!(matches!(Analyzer::check_file("m.rs", false, 0), Err(IvaldiError::FileNotFound(p)) if p == "m.rs"));
    assert!(matches!(Analyzer::check_file("m.rs", true, 10 * 1024 * 1024 + 1), Err(IvaldiError::Internal(m)) if m == "File > 10MB"));
    assert!(Analyzer::check_file("m.rs", true, 10).is_ok());
}

#[test]
fn analyze_directory_counts() {
    let entries = vec![
        WalkEntry { path: "/r/src".to_string(), is_dir: true, size: 0 },
        WalkEntry { path: "/r/src/a.RS".to_string(), is_dir: false, size: 10 },
        WalkEntry { path: "/r/src/b.rs".to_string(), is_dir: false, size: 5 },
        WalkEntry { path: "/r/README".to_string(), is_dir: false, size: 1 },
    ];
    let r = Analyzer::analyze_dir("/r", &entries);
    assert!(!r.is_error);
    let a = r.content.unwrap();
    assert_eq!(a.file_count, 3);
    assert_eq!(a.dir_count, 2);
    assert_eq!(a.total_size_bytes, 16);
    assert_eq!(a.extensions, vec![("rs".to_string(), 2), ("no_ext".to_string(), 1)]);
}

#[test]
fn append_routes_and_refusals() {
    assert_eq!(append_route(&SourceKind::Markdown), AppendRoute::Markdown);
    assert_eq!(append_route(&SourceKind::Go), AppendRoute::Code);
    assert_eq!(append_route(&SourceKind::Json), AppendRoute::Json);
    assert_eq!(append_route(&SourceKind::Text), AppendRoute::Unsupported);
    assert!(matches!(unsupported_append(&SourceKind::Text), IvaldiError::InvalidArgument(m) if m == "append_to_section not supported for file type: Text"));
    assert!(matches!(json_append_refusal(InsertPosition::Start, true), IvaldiError::InvalidArgument(m) if m == "JSON append_to_section only supports 'end' position for arrays"));
    assert!(matches!(json_append_refusal(InsertPosition::End, false), IvaldiError::InvalidArgument(m) if m == "JSON append_to_section only supports arrays for now"));
}

#[test]
fn edit_json_document_outcomes() {
    let mut doc = JsonValue::Object(vec![JsonEntry { key: "a".to_string(), value: JsonValue::Number("1".to_string()) }]);
    let op = JsonOperation::Add { key: "b".to_string(), value: JsonValue::Bool(true) };
    assert!(matches!(edit_json_document(&mut doc, "$", &op), Ok(true)));
    assert!(matches!(get_value(&doc, "b"), Some(JsonValue::Bool(true))));
    let op = JsonOperation::Delete { key: "zz".to_string() };
    assert!(matches!(edit_json_document(&mut doc, "$", &op), Ok(false)));
    let op = JsonOperation::Add { key: "c".to_string(), value: JsonValue::Null };
    match edit_json_document(&mut doc, "$.a", &op) {
        Err(IvaldiError::Internal(m)) => assert_eq!(m, "JSON operation failed: Add operation requires object target"),
        _ => panic!("expected an internal error"),
    }
}

#[test]
fn session_labels() {
    assert_eq!(session_label("s1", "/work/dir", Some("/code/proj")), "proj");
    assert_eq!(session_label("s1", "/work/dir", None), "dir");
    assert_eq!(session_label("s1", "/", None), "s1");
}

#[test]
fn listing_sorts_by_name() {
    let e = |n: &str| DirEntry { name: n.to_string(), path: format!("/d/{}", n), is_dir: false, is_symlink: false, size: 1, modified: None };
    let r = FsLister::finish_listing(vec![e("b"), e("a"), e("C")], true, None);
    let names: Vec<String> = r.content.unwrap().into_iter().map(|d| d.name).collect();
    assert_eq!(names, vec!["C", "a", "b"]);
    let r = FsLister::finish_listing(vec![e("b"), e("a")], false, Some("denied".to_string()));
    assert_eq!(r.advisory.len(), 1);
    assert_eq!(r.advisory[0].level, AdvisoryLevel::Warn);
}

#[test]
fn search_pattern_matching() {
    assert!(FsNavigator::matches_pattern("*.rs", "src/lib.rs", Some("lib.rs")));
    assert!(!FsNavigator::matches_pattern("*.md", "src/lib.rs", Some("lib.rs")));
    assert!(FsNavigator::matches_pattern("", "anything", None));
    assert!(FsNavigator::matches_pattern("[", "a[b", None));
    assert!(!FsNavigator::matches_pattern("[", "ab", None));
}

#[test]
fn write_decisions() {
    let args = WriteFileArgs { path: "f".to_string(), content: "new".to_string(), overwrite: false, append: false };
    assert_eq!(Mutator::write_mode(&args, false), WriteMode::Create);
    assert_eq!(Mutator::write_mode(&args, true), WriteMode::Append);
    let args = WriteFileArgs { overwrite: true, ..args };
    assert_eq!(Mutator::write_mode(&args, true), WriteMode::Overwrite);
    assert_eq!(Mutator::final_content(WriteMode::Append, "old\n", "new"), "old\nnew");
    assert_eq!(Mutator::final_content(WriteMode::Overwrite, "old\n", "new"), "new");
    assert_eq!(Mutator::backup_name("abc", "f.txt"), "abc_f.txt");
    assert_eq!(
        Mutator::append_note("a\nb\n", false),
        "File existed. Appended to end. Original: 2 lines, 4 bytes. Use --force to overwrite instead."
    );
    assert_eq!(
        Mutator::heuristic_message("indentation_mismatch:repl=2:target=4"),
        "Replacement indentation (2 spaces) differs from target site (4 spaces). Replacement was NOT re-indented."
    );
}

#[test]
fn syslog_number_parsing() {
    assert_eq!(parse_i32("42"), Some(42));
    assert_eq!(parse_i32("-7"), Some(-7));
    assert_eq!(parse_i32("x"), None);
    assert_eq!(parse_i32("2147483648"), None);
    assert_eq!(window_minutes("5m"), Some(5));
    assert_eq!(window_minutes("30m"), Some(30));
    assert_eq!(window_minutes("1h"), Some(60));
    assert_eq!(window_minutes("1d"), Some(1440));
    assert_eq!(window_minutes("2h"), None);
    assert_eq!(window_minutes("2024-01-01 00:00:00"), None);
}

#[test]
fn project_markers_in_order() {
    assert_eq!(root_marker_names(), vec![".ivaldi".to_string(), ".git".to_string()]);
    assert_eq!(
        session_marker_names(),
        vec![
            ".ivaldi".to_string(),
            ".git".to_string(),
            "Cargo.toml".to_string(),
            "package.json".to_string(),
            "pyproject.toml".to_string()
        ]
    );
}
