use ivaldi_core::digest::{sha256_digest, to_hex};
use ivaldi_core::heuristics::format_mode_symbolic;
use ivaldi_core::log_level::LogLevel;
use ivaldi_core::mutate::WriteFileArgs;
use ivaldi_core::policy::{PolicyEngine, PolicyError};
use ivaldi_core::session::{ConversationMode, Session, SessionStore};
use ivaldi_core::tail::TailScan;
use ivaldi_core::transaction::EditTransaction;
use ivaldi_core::undo::{find_last_undoable, ActionType, JournalEntry, RestoreStep, Undoer};

fn entry(action: ActionType, path: &str) -> JournalEntry {
    JournalEntry {
        id: format!("op-{}", path),
        timestamp: "2024-01-01T00:00:00Z".to_string(),
        action,
        path: path.to_string(),
        destination: None,
        checksum_before: None,
        checksum_after: None,
        backup_ref: None,
        actor: None,
    }
}

fn records(actions: &[ActionType]) -> Vec<Result<JournalEntry, String>> {
    actions.iter().enumerate().map(|(i, a)| Ok(entry(*a, &format!("f{}", i)))).collect()
}

#[test]
fn undo_reverts_newest_operation_first() {
    let rs = records(&[ActionType::Create, ActionType::Update]);
    assert_eq!(find_last_undoable(&rs), Ok(Some(1)));
    let rs = records(&[ActionType::Create, ActionType::Update, ActionType::Undo]);
    assert_eq!(find_last_undoable(&rs), Ok(Some(0)));
    let rs = records(&[ActionType::Create, ActionType::Update, ActionType::Undo, ActionType::Undo]);
    assert_eq!(find_last_undoable(&rs), Ok(None));
    let rs = records(&[ActionType::Create, ActionType::Undo, ActionType::Delete]);
    assert_eq!(find_last_undoable(&rs), Ok(Some(2)));
}

#[test]
fn undo_on_empty_journal_finds_nothing() {
    assert_eq!(find_last_undoable(&Vec::new()), Ok(None));
}

#[test]
fn undo_stops_at_unreadable_record() {
    let mut rs = records(&[ActionType::Create]);
    rs.push(Err("bad line".to_string()));
    assert_eq!(find_last_undoable(&rs), Err("bad line".to_string()));
}

#[test]
fn undo_restore_steps() {
    let mut e = entry(ActionType::Update, "a.txt");
    assert!(matches!(Undoer::restore_step(&e, true), RestoreStep::RemoveTarget));
    assert!(matches!(Undoer::restore_step(&e, false), RestoreStep::Nothing));
    e.backup_ref = Some("/b/x".to_string());
    match Undoer::restore_step(&e, false) {
        RestoreStep::CopyBackup(b) => assert_eq!(b, "/b/x"),
        _ => panic!("expected a copy from the backup"),
    }
    e.checksum_after = Some("abc".to_string());
    assert_eq!(Undoer::expected_checksum(&e, true), Some("abc".to_string()));
    assert_eq!(Undoer::expected_checksum(&e, false), None);
    assert!(Undoer::check_unchanged("abc", "abc").is_ok());
    let err = Undoer::check_unchanged("abc", "abd").unwrap_err();
    assert_eq!(err.code(), "undo_error");
    assert_eq!(Undoer::undo_message(&e), "Undid action op-a.txt (Update)");
    let u = Undoer::undo_record(&e);
    assert_eq!(u.action, ActionType::Undo);
    assert_eq!(u.path, "a.txt");
    assert_eq!(u.actor, Some("undoer".to_string()));
}

#[test]
fn log_priority_round_trip() {
    let all = [
        LogLevel::Emergency,
        LogLevel::Alert,
        LogLevel::Critical,
        LogLevel::Error,
        LogLevel::Warning,
        LogLevel::Notice,
        LogLevel::Info,
        LogLevel::Debug,
    ];
    for (i, l) in all.iter().enumerate() {
        assert_eq!(l.to_priority(), i as i32);
        assert_eq!(LogLevel::from_priority(l.to_priority()), *l);
    }
    assert_eq!(LogLevel::from_priority(42), LogLevel::Debug);
}

#[test]
fn mode_symbolic_formula() {
    assert_eq!(format_mode_symbolic(0o040755), "drwxr-xr-x");
    assert_eq!(format_mode_symbolic(0o100644), "-rw-r--r--");
    assert_eq!(format_mode_symbolic(0o100000), "----------");
}

#[test]
fn sha256_of_abc() {
    assert_eq!(
        sha256_digest(b"abc"),
        "ba7816bf8f01cfea414140de5dae2223b00361a396177a9cb410ff61f20015ad"
    );
    assert_eq!(to_hex(&[0u8, 15, 16, 255]), "000f10ff");
}

#[test]
fn transaction_edits_build_on_each_other() {
    let mut tx = EditTransaction::new();
    assert_eq!(tx.working_text("a.rs"), None);
    tx.begin("a.rs", "one\n");
    tx.record("a.rs", "two\n");
    tx.begin("b.rs", "x\n");
    tx.record("a.rs", "three\n");
    assert_eq!(tx.working_text("a.rs"), Some("three\n".to_string()));
    assert_eq!(tx.working_text("b.rs"), Some("x\n".to_string()));
    let writes: Vec<WriteFileArgs> = tx.prepared_writes();
    assert_eq!(writes.len(), 2);
    assert_eq!(writes[0].path, "a.rs");
    assert_eq!(writes[0].content, "three\n");
    assert!(writes[0].overwrite && !writes[0].append);
    assert_eq!(writes[1].path, "b.rs");
    assert_eq!(writes[1].content, "x\n");
    let diffs = tx.diffs();
    assert_eq!(diffs.len(), 1);
    assert!(diffs[0].starts_with("```diff\n"));
    assert!(diffs[0].contains("-one"));
    assert!(diffs[0].contains("+three"));
    let resp = tx.committed(vec!["a.rs".to_string(), "b.rs".to_string()]);
    assert!(!resp.is_error);
    assert_eq!(resp.ui_diffs.len(), 1);
}

#[test]
fn transaction_abort_and_missing_selector() {
    let r = EditTransaction::aborted(2, "disk full");
    assert!(r.is_error);
    let e = r.error.unwrap();
    assert_eq!(e.code, "transaction_failed");
    assert_eq!(e.message, "Transaction aborted. Rolled back 2 changes. Cause: disk full");
    let r = EditTransaction::missing_selector("src/x.rs");
    let e = r.error.unwrap();
    assert_eq!(e.code, "invalid_args");
    assert_eq!(e.message, "Invalid args for src/x.rs: Selector required");
}

fn scan_file(bytes: &[u8]) -> Option<Vec<u8>> {
    if bytes.is_empty() {
        return None;
    }
    let mut scan = TailScan::start(bytes.len() as u64, bytes[bytes.len() - 1]);
    while let Some((off, n)) = scan.next_range() {
        let chunk = bytes[off as usize..(off + n) as usize].to_vec();
        scan.feed(&chunk);
    }
    scan.line()
}

#[test]
fn tail_scan_reads_last_line() {
    assert_eq!(scan_file(b"first\nsecond\n"), Some(b"second".to_vec()));
    assert_eq!(scan_file(b"first\nsecond"), Some(b"second".to_vec()));
    assert_eq!(scan_file(b"first\n\n\n"), Some(b"first".to_vec()));
    assert_eq!(scan_file(b"\n\n"), None);
    assert_eq!(scan_file(b"only"), Some(b"only".to_vec()));
}

#[test]
fn tail_scan_spans_chunks() {
    let long: Vec<u8> = std::iter::repeat(b'x').take(3000).collect();
    let mut file = b"head\n".to_vec();
    file.extend_from_slice(&long);
    file.push(b'\n');
    assert_eq!(scan_file(&file), Some(long.clone()));
    let mut file2 = long.clone();
    file2.extend_from_slice(b"\nlast\n");
    assert_eq!(scan_file(&file2), Some(b"last".to_vec()));
}

#[test]
fn test_default_allow_all() {
    let engine = PolicyEngine::new(&Vec::new()).ok().unwrap();
    let allowed = engine
        .check("User::\"daryl\"", "Action::\"read_file\"", "Resource::\"/etc/passwd\"")
        .ok()
        .unwrap();
    assert!(allowed, "Default policy should permit all actions");
}

#[test]
fn policy_explicit_forbid() {
    let files = vec![(
        "secure".to_string(),
        r#"forbid(principal, action == Action::"delete_file", resource);"#.to_string(),
    )];
    let engine = PolicyEngine::new(&files).ok().unwrap();
    let allowed = engine
        .check("User::\"daryl\"", "Action::\"delete_file\"", "Resource::\"/tags\"")
        .ok()
        .unwrap();
    assert!(!allowed, "Explicit forbid should deny access");
    let allowed = engine
        .check("User::\"daryl\"", "Action::\"read_file\"", "Resource::\"/tags\"")
        .ok()
        .unwrap();
    assert!(allowed, "Other actions should still be allowed");
}

#[test]
fn policy_errors() {
    let files = vec![("broken".to_string(), "permit(".to_string())];
    assert!(matches!(PolicyEngine::new(&files), Err(PolicyError::ParseError(_))));
    let files = vec![
        ("a".to_string(), "permit(principal, action, resource);".to_string()),
        ("a".to_string(), "permit(principal, action, resource);".to_string()),
    ];
    assert!(matches!(PolicyEngine::new(&files), Err(PolicyError::PolicySetError(_))));
    let engine = PolicyEngine::new(&Vec::new()).ok().unwrap();
    match engine.check("not an entity", "Action::\"x\"", "R::\"y\"") {
        Err(PolicyError::EntityError(m)) => assert!(m.starts_with("Invalid principal: ")),
        _ => panic!("expected an entity error"),
    }
    match engine.check("User::\"a\"", "Action::\"x\"", "bad") {
        Err(PolicyError::EntityError(m)) => assert!(m.starts_with("Invalid resource: ")),
        _ => panic!("expected an entity error"),
    }
}

#[test]
fn permissive_engine_allows_everything() {
    let engine = PolicyEngine::permissive().ok().unwrap();
    let allowed = engine
        .check("User::\"daryl\"", "Action::\"delete_file\"", "Resource::\"/\"")
        .ok()
        .unwrap();
    assert!(allowed);
}

#[test]
fn session_store_keeps_one_session_per_id() {
    let mut store = SessionStore::default();
    assert!(store.get("a").is_none());
    assert!(store.resume("a").is_none());
    let s = Session::create("a", "/work/proj", Some("/work"));
    assert_eq!(s.metadata.label.as_deref(), Some("work"));
    assert!(s.conversations.is_empty());
    store.update_session(s.clone());
    store.update_session(Session::create("b", "/tmp/other", None));
    assert_eq!(store.sessions.len(), 2);
    assert_eq!(store.get("b").unwrap().metadata.label.as_deref(), Some("other"));

    let mut relabelled = s.clone();
    relabelled.metadata.label = Some("renamed".to_string());
    store.update_session(relabelled);
    assert_eq!(store.sessions.len(), 2);
    assert_eq!(store.get("a").unwrap().metadata.label.as_deref(), Some("renamed"));
    assert_eq!(store.get("b").unwrap().root, "/tmp/other");

    let resumed = store.resume("a").unwrap();
    assert_eq!(resumed.root, "/work/proj");
    assert_eq!(resumed.project_root.as_deref(), Some("/work"));
    assert_eq!(resumed.created_at, s.created_at);

    store.track_conversation("a", "chat-1", Some(ConversationMode::Incognito));
    store.track_conversation("a", "chat-1", None);
    store.track_conversation("missing", "chat-2", None);
    assert_eq!(store.sessions.len(), 2);
    let c = store.get_conversation("a", "chat-1").unwrap();
    assert_eq!(c.mode, ConversationMode::Incognito);
    assert_eq!(store.get("a").unwrap().conversations.len(), 1);
    assert!(store.get_conversation("a", "chat-2").is_none());
    assert!(store.get_conversation("b", "chat-1").is_none());
}

#[test]
fn session_label_falls_back_to_id() {
    let s = Session::create("my-id", "/", None);
    assert_eq!(s.metadata.label.as_deref(), Some("my-id"));
    assert_eq!(s.created_at, s.last_active);
}

#[test]
fn touch_stamps_utc_time() {
    let mut s = Session::create("t", "/tmp/t", None);
    s.last_active = String::new();
    s.touch();
    assert!(s.last_active.ends_with("+00:00") && s.last_active.len() >= 25);
    let mut c = ivaldi_core::session::ConversationContext::new("c");
    c.last_active = String::new();
    c.touch();
    assert!(c.last_active.ends_with("+00:00"));
    assert_eq!("Incognito".parse::<ConversationMode>().ok(), Some(ConversationMode::Incognito));
    assert!("x".parse::<ConversationMode>().is_err());
}
