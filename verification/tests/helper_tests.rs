use ivaldi_core::mutate::patches_fit_text;
use ivaldi_core::section::{markdown_append_plannable, markdown_bounds_computable, AppendToSectionArgs, InsertPosition};
use ivaldi_core::advisory::AdvisoryLevel;
use ivaldi_core::analyze::Analyzer;
use ivaldi_core::error::IvaldiError;
use ivaldi_core::git::{log_cutoff, log_step, search_step, LogStep};
use ivaldi_core::json_edit::{JsonEntry, JsonValue};
use ivaldi_core::listing::{FsNavigator, SearchStop};
use ivaldi_core::meta::mask_key;
use ivaldi_core::observe::query_read_response;
use ivaldi_core::syslog::{collect_step, seek_start, RawJournalEntry, ReadSyslogsArgs};
use ivaldi_core::meta::{Outcome, WisdomEntry};
use ivaldi_core::session::{Session, SessionStore};
use ivaldi_core::targets::preview_fits;
use ivaldi_core::text::is_byte_boundary;
use ivaldi_core::json_edit::parse_json_path;
use ivaldi_core::mutate::Mutator;
use ivaldi_core::search::SearchCodeArgs;
use ivaldi_core::transaction::{CommitStep, EditTransaction, WriteReport};
use ivaldi_core::undo::{ActionType, JournalEntry, RestoreStep, Undoer};

#[test]
fn log_walk_decisions() {
    assert_eq!(log_step(0, 10, 100, Some(200), None), LogStep::Stop);
    assert_eq!(log_step(0, 10, 300, Some(200), Some(false)), LogStep::Skip);
    assert_eq!(log_step(0, 10, 300, Some(200), Some(true)), LogStep::Keep);
    assert_eq!(log_step(9, 10, 300, None, None), LogStep::KeepLast);
    assert_eq!(log_step(0, 0, 300, None, None), LogStep::KeepLast);
}

#[test]
fn log_cutoffs() {
    assert_eq!(log_cutoff(1_000_000, None), None);
    assert_eq!(log_cutoff(1_000_000, Some("1d")), Some(1_000_000 - 86_400));
    assert_eq!(log_cutoff(1_000_000, Some("1w")), Some(1_000_000 - 604_800));
    assert_eq!(log_cutoff(1_000_000, Some("2024-01-01T00:00:00Z")), Some(1_704_067_200));
    assert_eq!(log_cutoff(1_000_000, Some("main")), Some(1_000_000));
}

#[test]
fn history_search_steps() {
    assert_eq!(search_step(0, 2, true), (true, false));
    assert_eq!(search_step(1, 2, true), (true, true));
    assert_eq!(search_step(1, 2, false), (false, false));
    assert_eq!(search_step(0, 0, false), (false, true));
}

#[test]
fn journal_seek_start() {
    assert_eq!(seek_start(10_000_000_000, "5m"), Some(10_000_000_000 - 300_000_000));
    assert_eq!(seek_start(10_000_000_000, "2024-01-01T00:00:00Z"), Some(1_704_067_200_000_000));
    assert_eq!(seek_start(10_000_000_000, "yesterday"), None);
}

#[test]
fn search_stops() {
    assert_eq!(FsNavigator::search_stop(3, 10, true), Some(SearchStop::TimedOut));
    assert_eq!(FsNavigator::search_stop(10, 10, false), Some(SearchStop::Truncated));
    assert_eq!(FsNavigator::search_stop(3, 10, false), None);
}

#[test]
fn code_search_glob_filter() {
    assert!(FsNavigator::glob_keeps(None, "src/a.rs", Some("a.rs")));
    assert!(FsNavigator::glob_keeps(Some("*.rs"), "src/a.rs", Some("a.rs")));
    assert!(!FsNavigator::glob_keeps(Some("*.py"), "src/a.rs", Some("a.rs")));
    assert!(FsNavigator::glob_keeps(Some("["), "src/a.rs", Some("a.rs")));
}

#[test]
fn complexity_bound() {
    assert!(Analyzer::complexity_fits("fn main() {\n    let x = 1;\n}\n"));
}

#[test]
fn byte_boundaries() {
    let v: Vec<char> = "aé".chars().collect();
    assert!(is_byte_boundary(&v, 0));
    assert!(is_byte_boundary(&v, 1));
    assert!(!is_byte_boundary(&v, 2));
    assert!(is_byte_boundary(&v, 3));
    assert!(!is_byte_boundary(&v, 4));
}

#[test]
fn node_previews() {
    let node = |c: &str| JsonValue::Object(vec![JsonEntry { key: "content".to_string(), value: JsonValue::Str(c.to_string()) }]);
    assert!(preview_fits(&node("short")));
    assert!(preview_fits(&node(&"x".repeat(80))));
    let mut bad = "x".repeat(46);
    bad.push('é');
    bad.push_str(&"y".repeat(10));
    assert!(!preview_fits(&node(&bad)));
    assert!(preview_fits(&JsonValue::Null));
}

#[test]
fn query_reads() {
    let r = query_read_response("a\nb\n", "f.rs", ".functions[]", &Vec::new());
    assert!(r.is_error);
    let e = r.error.unwrap();
    assert_eq!(e.code, "no_matches");
    assert_eq!(e.message, "Query '.functions[]' matched 0 nodes");
    assert_eq!(r.advisory.len(), 1);
    let r = query_read_response("a\nb\n", "f.rs", "q", &vec!["fn a() {}".to_string(), "fn b() {}".to_string()]);
    let c = r.content.unwrap();
    assert_eq!(c.content, "fn a() {}\n\n---\n\nfn b() {}");
    assert_eq!(c.info.lines_total, 2);
    assert_eq!(c.info.lines_returned, 5);
    assert_eq!(r.advisory[0].level, AdvisoryLevel::Info);
}

#[test]
fn api_key_masking() {
    assert_eq!(mask_key("abcdefghijkl"), "abcd...ijkl");
    assert_eq!(mask_key("short"), "********");
    assert_eq!(mask_key("12345678"), "********");
}

#[test]
fn error_codes_and_messages() {
    let all = vec![
        IvaldiError::FileNotFound("p".to_string()),
        IvaldiError::PermissionDenied("p".to_string()),
        IvaldiError::Io("p".to_string()),
        IvaldiError::Serialization("p".to_string()),
        IvaldiError::Git("p".to_string()),
        IvaldiError::Systemd("p".to_string()),
        IvaldiError::InvalidArgument("p".to_string()),
        IvaldiError::Session("p".to_string()),
        IvaldiError::Refactoring("p".to_string()),
        IvaldiError::Journal("p".to_string()),
        IvaldiError::Undo("p".to_string()),
        IvaldiError::Query("p".to_string()),
        IvaldiError::Regex("p".to_string()),
        IvaldiError::BinaryDetected("p".to_string()),
        IvaldiError::FileTooLarge("p".to_string()),
        IvaldiError::Internal("p".to_string()),
    ];
    let codes: Vec<&str> = all.iter().map(|e| e.code()).collect();
    for (i, a) in codes.iter().enumerate() {
        assert!(!a.is_empty());
        for b in codes.iter().skip(i + 1) {
            assert_ne!(a, b);
        }
    }
    assert_eq!(IvaldiError::FileNotFound("x.rs".to_string()).message(), "File not found: x.rs");
}

fn num(n: u64) -> JsonValue {
    JsonValue::Number(n.to_string())
}

fn obj(entries: Vec<(&str, JsonValue)>) -> JsonValue {
    JsonValue::Object(entries.into_iter().map(|(k, v)| JsonEntry { key: k.to_string(), value: v }).collect())
}

fn header(text: &str, line: u64) -> JsonValue {
    obj(vec![("content", JsonValue::Str(text.to_string())), ("line_start", num(line))])
}

#[test]
fn markdown_append_checks() {
    let doc = obj(vec![("headers", JsonValue::Array(vec![header("## Todo", 1), header("## Done", 4)]))]);
    assert!(markdown_bounds_computable(&doc, "Todo"));
    let bad = obj(vec![("headers", JsonValue::Array(vec![header("## Todo", 1), header("## Done", 0)]))]);
    assert!(!markdown_bounds_computable(&bad, "Todo"));
    assert!(markdown_bounds_computable(&bad, "Done"));
    let args = AppendToSectionArgs {
        path: "notes.md".to_string(),
        section: "Todo".to_string(),
        content: "- [ ] new".to_string(),
        position: InsertPosition::End,
    };
    assert!(markdown_append_plannable("## Todo\n- a\n\n## Done\n", &doc, &args));
    assert!(!markdown_append_plannable("## Todo\n", &bad, &args));
}

#[test]
fn rename_patch_checks() {
    let node = |s: u64, e: u64, c: &str| {
        obj(vec![("line_start", num(s)), ("line_end", num(e)), ("content", JsonValue::Str(c.to_string()))])
    };
    let content = "fn old() {}\nfn other() { old(); }\n";
    assert!(patches_fit_text(content, &vec![node(1, 1, "fn old() {}")], "old", "new"));
    assert!(!patches_fit_text(content, &vec![node(2, 7, "fn other() { old(); }")], "old", "new"));
    assert!(patches_fit_text(content, &vec![node(0, 0, "ignored")], "old", "new"));
}

#[test]
fn search_pages_are_adjacent() {
    use_search_pages();
}

fn use_search_pages() {
    let results: Vec<JsonValue> = (0..5).map(|i| JsonValue::Number(i.to_string())).collect();
    let page = |offset: usize| {
        let copy: Vec<JsonValue> = results.iter().map(|v| match v {
            JsonValue::Number(n) => JsonValue::Number(n.clone()),
            _ => JsonValue::Null,
        }).collect();
        let r = ivaldi_core::search::search_response(copy, offset, 2, None, 1);
        r.content.unwrap().into_iter().map(|v| match v {
            JsonValue::Number(n) => n,
            _ => String::new(),
        }).collect::<Vec<String>>()
    };
    assert_eq!(page(0), vec!["0", "1"]);
    assert_eq!(page(2), vec!["2", "3"]);
    assert_eq!(page(4), vec!["4"]);
    assert!(page(6).is_empty());
    let capped = ivaldi_core::search::search_response(Vec::new(), 0, 10, Some(3), 0);
    assert_eq!(capped.advisory.len(), 2);
}


#[test]
fn commit_rolls_back_what_was_written() {
    let mut tx = EditTransaction::new();
    tx.begin("a.txt", "old\n");
    tx.record("a.txt", "new\n");
    let mut written = Vec::new();
    assert!(matches!(
        EditTransaction::commit_step(&mut written, WriteReport::Written("a.txt".to_string())),
        CommitStep::Next
    ));
    match EditTransaction::commit_step(&mut written, WriteReport::Failed("disk full".to_string())) {
        CommitStep::Stop(c) => assert_eq!(c, "Write failed: disk full"),
        CommitStep::Next => panic!("a failed write must stop the commit"),
    }
    match EditTransaction::commit_step(&mut written, WriteReport::NoPath) {
        CommitStep::Stop(c) => assert_eq!(c, "Write succeeded but returned no path"),
        CommitStep::Next => panic!("a write without a path must stop the commit"),
    }
    assert_eq!(written, vec!["a.txt".to_string()]);
    let (undos, resp) = tx.conclude(written.clone(), Some("Write failed: disk full".to_string()));
    assert_eq!(undos, 1);
    let e = resp.error.unwrap();
    assert_eq!(e.code, "transaction_failed");
    assert_eq!(e.message, "Transaction aborted. Rolled back 1 changes. Cause: Write failed: disk full");
    let (undos, resp) = tx.conclude(written, None);
    assert_eq!(undos, 0);
    assert!(!resp.is_error);
    assert_eq!(resp.content, Some(vec!["a.txt".to_string()]));
    assert_eq!(resp.ui_diffs.len(), 1);
}

#[test]
fn write_target_refused_only_when_not_a_file() {
    assert!(Mutator::target_refusal(false, false).is_none());
    assert!(Mutator::target_refusal(true, true).is_none());
    let r = Mutator::target_refusal(true, false).unwrap();
    let e = r.error.unwrap();
    assert_eq!(e.code, "write_error");
    assert_eq!(e.message, "Target exists and is not a file");
}

#[test]
fn undo_plan_checks_restores_and_records() {
    let mut e = JournalEntry::new(ActionType::Update, "f.txt".to_string());
    assert_eq!(e.id.len(), 36);
    assert_eq!(&e.id[14..15], "4");
    assert!(e.timestamp.ends_with("+00:00"));
    e.backup_ref = Some("bak/f.txt".to_string());
    e.checksum_after = Some(ivaldi_core::digest::sha256_digest(b"abc"));
    let plan = Undoer::plan_undo(&e, true, Some(b"abc")).ok().unwrap();
    assert!(matches!(plan.restore, RestoreStep::CopyBackup(ref b) if b == "bak/f.txt"));
    assert_eq!(plan.record.action, ActionType::Undo);
    assert_eq!(plan.record.path, "f.txt");
    assert_eq!(plan.message, format!("Undid action {} (Update)", e.id));
    match Undoer::plan_undo(&e, true, Some(b"changed")) {
        Err(IvaldiError::Undo(m)) => assert_eq!(m, "File changed since last operation. Aborting undo."),
        _ => panic!("a changed file must refuse the undo"),
    }
    e.backup_ref = None;
    let plan = Undoer::plan_undo(&e, false, None).ok().unwrap();
    assert!(matches!(plan.restore, RestoreStep::Nothing));
}

#[test]
fn search_gitignore_is_opt_in() {
    assert!(!SearchCodeArgs::gitignore_enabled(None));
    assert!(!SearchCodeArgs::gitignore_enabled(Some("false")));
    assert!(SearchCodeArgs::gitignore_enabled(Some("true")));
}

#[test]
fn selector_keys_rejoin() {
    let keys = parse_json_path("$.a.b.c").ok().unwrap();
    assert_eq!(keys, vec!["a", "b", "c"]);
    assert_eq!(format!("$.{}", keys.join(".")), "$.a.b.c");
    assert_eq!(parse_json_path("$.").ok().unwrap(), vec![""]);
}


#[test]
fn undo_decision_over_journal() {
    assert!(matches!(Undoer::decide_undo(&Vec::new(), false, None, false), Err(IvaldiError::Internal(m)) if m == "Nothing to undo"));
    let bad: Vec<Result<JournalEntry, String>> = vec![Err("broken".to_string())];
    assert!(matches!(Undoer::decide_undo(&bad, false, None, false), Err(IvaldiError::Journal(m)) if m == "broken"));
    let mut e = JournalEntry::new(ActionType::Update, "f.txt".to_string());
    e.backup_ref = Some("bak/f.txt".to_string());
    e.checksum_after = Some(ivaldi_core::digest::sha256_digest(b"now"));
    let records = vec![Ok(e.clone())];
    match Undoer::decide_undo(&records, true, Some(b"now"), false) {
        Err(IvaldiError::FileNotFound(b)) => assert_eq!(b, "bak/f.txt"),
        _ => panic!("a missing backup must refuse the undo"),
    }
    assert!(matches!(Undoer::decide_undo(&records, true, Some(b"edited"), true), Err(IvaldiError::Undo(_))));
    let plan = Undoer::decide_undo(&records, true, Some(b"now"), true).ok().unwrap();
    assert!(matches!(plan.restore, RestoreStep::CopyBackup(ref b) if b == "bak/f.txt"));
    assert_eq!(plan.record.path, "f.txt");
    let undone = vec![Ok(e.clone()), Ok(plan.record.clone())];
    assert!(matches!(Undoer::decide_undo(&undone, true, Some(b"now"), true), Err(IvaldiError::Internal(_))));
}

#[test]
fn syslog_collection_stops_at_the_limit() {
    let args = ReadSyslogsArgs { service: None, level: None, since: None, pattern: None, limit: 2, boot: None };
    let raw = RawJournalEntry {
        unit: Some("a.service".to_string()),
        priority: Some("6".to_string()),
        message: Some("hello".to_string()),
        realtime: Some("0".to_string()),
        pid: None,
    };
    let mut logs = Vec::new();
    assert!(collect_step(&mut logs, &args, &None, &raw));
    assert!(!collect_step(&mut logs, &args, &None, &raw));
    assert_eq!(logs.len(), 2);
    assert_eq!(logs[1].message, "hello");
}

#[test]
fn wisdom_entry_records_a_run() {
    let w = WisdomEntry::new("write_file", "abc", Outcome::Success, 12, "1.2.3")
        .with_meta("retry_count", JsonValue::Number("2".to_string()))
        .with_meta("retry_count", JsonValue::Number("3".to_string()));
    assert_eq!(w.tool_name, "write_file");
    assert_eq!(w.agent_version, "1.2.3");
    assert_eq!(w.duration_ms, 12);
    assert!(w.timestamp.ends_with("+00:00"));
    assert_eq!(w.metadata.len(), 1);
    assert_eq!(w.metadata[0].key, "retry_count");
    assert!(matches!(&w.metadata[0].value, JsonValue::Number(n) if n == "3"));
}

#[test]
fn session_ids_stay_unique() {
    let mut store = SessionStore::default();
    for _ in 0..3 {
        store.update_session(Session::create("x", "/tmp/x", None));
    }
    store.update_session(Session::create("y", "/tmp/y", None));
    assert_eq!(store.sessions.len(), 2);
}
