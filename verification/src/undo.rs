//! The operation journal and the undo stack it defines.
//!
//! The journal is an append-only list of records, one JSON object per line.
//! An `Undo` record cancels the most recent operation that is not already
//! cancelled, so the journal behaves as a stack of undoable operations.
use vstd::prelude::*;
use crate::digest::{hex_of, sha256_digest, sha256_of};
use crate::error::IvaldiError;
use crate::stamp::{new_op_id, now_rfc3339, utc_stamp, uuid_v4_text};
use crate::text::{append_str, chars_of, string_of, string_views};

verus! {

/// What an operation did to a file.
#[derive(Debug, Clone, Copy, PartialEq, Eq, Structural)]
pub enum ActionType {
    Create,
    Update,
    Delete,
    Move,
    /// A restore of an earlier state.
    Undo,
}

/// One journal record.
#[derive(Debug, Clone)]
pub struct JournalEntry {
    /// Unique identifier of the operation.
    pub id: String,
    /// When it happened (RFC 3339).
    pub timestamp: String,
    pub action: ActionType,
    pub path: String,
    pub destination: Option<String>,
    /// SHA-256 (hex) of the file before the operation.
    pub checksum_before: Option<String>,
    /// SHA-256 (hex) of the file after the operation.
    pub checksum_after: Option<String>,
    /// Copy of the file's earlier state.
    pub backup_ref: Option<String>,
    pub actor: Option<String>,
}

impl JournalEntry {
    /// A record of `action` on `path`, with a fresh identifier and the
    /// current time, and no checksums, backup or actor yet.
    pub fn new(action: ActionType, path: String) -> (r: Self)
        ensures
            uuid_v4_text(r.id@),
            utc_stamp(r.timestamp@),
            r.action == action,
            r.path@ == path@,
            r.destination is None,
            r.checksum_before is None,
            r.checksum_after is None,
            r.backup_ref is None,
            r.actor is None,
    {
        JournalEntry {
            id: new_op_id(),
            timestamp: now_rfc3339(),
            action,
            path,
            destination: None,
            checksum_before: None,
            checksum_after: None,
            backup_ref: None,
            actor: None,
        }
    }
}

/// Arguments of the undo tool.
#[derive(Debug, Clone)]
pub struct UndoArgs {
    /// A path inside the project whose last operation is undone.
    pub path: String,
}

impl UndoArgs {
    /// The default anchor: the current directory.
    pub fn default_path() -> (r: String)
        ensures
            r@ == "."@,
    {
        ".".to_owned()
    }
}

/// The journal file of a project.
#[derive(Debug, Clone)]
pub struct Journal {
    path: String,
}

impl Journal {
    /// The journal kept in the file at `path`.
    pub fn at(path: String) -> (r: Self)
        ensures
            r.file_spec() == path@,
    {
        Journal { path }
    }

    /// The journal's file.
    pub closed spec fn file_spec(&self) -> Seq<char> {
        self.path@
    }

    /// The journal's file.
    pub fn file(&self) -> (r: &String)
        ensures
            r@ == self.file_spec(),
    {
        &self.path
    }
}

// ---------------------------------------------------------------------------
// Records of the journal file
// ---------------------------------------------------------------------------

/// The non-empty pieces of `s` between line feeds, in order.
pub open spec fn records_of(s: Seq<char>) -> Seq<Seq<char>>
    decreases s.len(),
{
    if s.len() == 0 {
        Seq::empty()
    } else {
        let prev = records_of(s.drop_last());
        if s.last() == '\n' {
            prev
        } else if s.len() >= 2 && s[s.len() - 2] != '\n' {
            prev.drop_last().push(prev.last().push(s.last()))
        } else {
            prev.push(seq![s.last()])
        }
    }
}

proof fn lemma_records_nonempty(s: Seq<char>)
    ensures
        s.len() > 0 && s.last() != '\n' ==> records_of(s).len() > 0,
    decreases s.len(),
{
    if s.len() > 0 {
        lemma_records_nonempty(s.drop_last());
        if s.last() != '\n' && s.len() >= 2 && s[s.len() - 2] != '\n' {
            assert(s.drop_last().last() == s[s.len() - 2]);
        }
    }
}

/// The records of a journal's text: the non-empty pieces between line feeds.
pub fn journal_records(text: &str) -> (r: Vec<String>)
    ensures
        string_views(r@) == records_of(text@),
{
    let cs = chars_of(text);
    let mut out: Vec<Vec<char>> = Vec::new();
    let mut i: usize = 0;
    while i < cs.len()
        invariant
            i <= cs@.len(),
            cs@ == text@,
            crate::text::views(out@) == records_of(cs@.take(i as int)),
        decreases cs.len() - i,
    {
        let c = cs[i];
        let ghost t = cs@.take(i + 1);
        proof {
            assert(t.drop_last() =~= cs@.take(i as int));
            assert(t.last() == c);
            lemma_records_nonempty(cs@.take(i as int));
            if i >= 1 {
                assert(t[t.len() - 2] == cs@[i - 1]);
                assert(cs@.take(i as int).last() == cs@[i - 1]);
            }
        }
        if c == '\n' {
        } else if i >= 1 && cs[i - 1] != '\n' {
            let ghost prev = crate::text::views(out@);
            let mut last = out.pop().unwrap();
            last.push(c);
            out.push(last);
            assert(crate::text::views(out@) =~= prev.drop_last().push(prev.last().push(c)));
        } else {
            let ghost prev = crate::text::views(out@);
            let mut v: Vec<char> = Vec::new();
            v.push(c);
            out.push(v);
            assert(crate::text::views(out@) =~= prev.push(seq![c]));
        }
        i += 1;
    }
    assert(cs@.take(cs@.len() as int) =~= cs@);
    let mut r: Vec<String> = Vec::new();
    let mut j: usize = 0;
    while j < out.len()
        invariant
            j <= out@.len(),
            string_views(r@) == crate::text::views(out@).take(j as int),
        decreases out.len() - j,
    {
        let s = string_of(&out[j]);
        let ghost prev = string_views(r@);
        r.push(s);
        assert(string_views(r@) =~= prev.push(out@[j as int]@));
        j += 1;
        assert(string_views(r@) =~= crate::text::views(out@).take(j as int));
    }
    assert(crate::text::views(out@).take(out@.len() as int) =~= crate::text::views(out@));
    r
}

// ---------------------------------------------------------------------------
// The undo stack
// ---------------------------------------------------------------------------

/// Scanning records from the newest: each `Undo` cancels one more earlier
/// operation, each other operation uses up one pending cancellation; the
/// first operation with none pending is the one to undo.  A record that
/// could not be read stops the scan with its error.
pub open spec fn undo_scan(rs: Seq<Result<ActionType, Seq<char>>>, pending: nat) -> Result<
    Option<int>,
    Seq<char>,
>
    decreases rs.len(),
{
    if rs.len() == 0 {
        Ok(None)
    } else {
        match rs.last() {
            Err(e) => Err(e),
            Ok(a) => if a == ActionType::Undo {
                undo_scan(rs.drop_last(), pending + 1)
            } else if pending > 0 {
                undo_scan(rs.drop_last(), (pending - 1) as nat)
            } else {
                Ok(Some(rs.len() - 1))
            },
        }
    }
}

/// The same scan over actions that were all read.
pub open spec fn scan(acts: Seq<ActionType>, pending: nat) -> Option<int>
    decreases acts.len(),
{
    if acts.len() == 0 {
        None
    } else if acts.last() == ActionType::Undo {
        scan(acts.drop_last(), pending + 1)
    } else if pending > 0 {
        scan(acts.drop_last(), (pending - 1) as nat)
    } else {
        Some(acts.len() - 1)
    }
}

/// Index of the newest operation not cancelled by a later undo.
pub open spec fn last_undoable(acts: Seq<ActionType>) -> Option<int> {
    scan(acts, 0)
}

/// Records that were all read, as scan input.
pub open spec fn all_read(acts: Seq<ActionType>) -> Seq<Result<ActionType, Seq<char>>> {
    acts.map_values(|a: ActionType| Ok(a))
}

/// Read results as scan input.
pub open spec fn read_results(rs: Seq<Result<JournalEntry, String>>) -> Seq<
    Result<ActionType, Seq<char>>,
> {
    rs.map_values(
        |r: Result<JournalEntry, String>| match r {
            Ok(e) => Ok(e.action),
            Err(m) => Err(m@),
        },
    )
}

/// The scan over read records is the scan over their actions.
pub proof fn lemma_scan_all_read(acts: Seq<ActionType>, pending: nat)
    ensures
        undo_scan(all_read(acts), pending) == match scan(acts, pending) {
            Some(i) => Ok::<Option<int>, Seq<char>>(Some(i)),
            None => Ok(None),
        },
    decreases acts.len(),
{
    if acts.len() > 0 {
        assert(all_read(acts).drop_last() =~= all_read(acts.drop_last()));
        lemma_scan_all_read(acts.drop_last(), pending + 1);
        if pending > 0 {
            lemma_scan_all_read(acts.drop_last(), (pending - 1) as nat);
        }
    }
}

/// One more pending cancellation skips exactly the operation the scan
/// would have returned.
proof fn lemma_scan_one_more(acts: Seq<ActionType>, pending: nat)
    ensures
        match scan(acts, pending) {
            Some(i) => 0 <= i < acts.len() && scan(acts, pending + 1) == scan(acts.take(i), 0),
            None => scan(acts, pending + 1) is None,
        },
    decreases acts.len(),
{
    if acts.len() > 0 {
        let rest = acts.drop_last();
        if acts.last() == ActionType::Undo {
            lemma_scan_one_more(rest, pending + 1);
            match scan(rest, pending + 1) {
                Some(i) => {
                    assert(rest.take(i) =~= acts.take(i));
                },
                None => {},
            }
        } else if pending > 0 {
            lemma_scan_one_more(rest, (pending - 1) as nat);
            match scan(rest, (pending - 1) as nat) {
                Some(i) => {
                    assert(rest.take(i) =~= acts.take(i));
                },
                None => {},
            }
        } else {
            assert(acts.take(acts.len() - 1) =~= rest);
        }
    }
}

/// A new operation that is not an undo is the first one an undo reverts.
pub proof fn law_newest_undone_first(acts: Seq<ActionType>, a: ActionType)
    requires
        a != ActionType::Undo,
    ensures
        last_undoable(acts.push(a)) == Some(acts.len() as int),
{
    assert(acts.push(a).drop_last() =~= acts);
}

/// After an undo, the next undo reverts the operation before the one just
/// reverted: the journal is a stack, and undoing twice reverts the two
/// latest operations newest first.  When nothing is left to undo, an extra
/// undo leaves nothing to undo.
pub proof fn law_undo_pops(acts: Seq<ActionType>)
    ensures
        match last_undoable(acts) {
            Some(i) => 0 <= i < acts.len() && last_undoable(acts.push(ActionType::Undo))
                == last_undoable(acts.take(i)),
            None => last_undoable(acts.push(ActionType::Undo)) is None,
        },
{
    assert(acts.push(ActionType::Undo).drop_last() =~= acts);
    lemma_scan_one_more(acts, 0);
}

/// Finds, scanning from the newest record, the operation an undo reverts:
/// its index, `None` when every operation is already undone, or the error
/// of the first unreadable record reached.
pub fn find_last_undoable(records: &Vec<Result<JournalEntry, String>>) -> (r: Result<
    Option<usize>,
    String,
>)
    ensures
        match undo_scan(read_results(records@), 0) {
            Ok(Some(i)) => r matches Ok(Some(j)) && j == i,
            Ok(None) => r matches Ok(None),
            Err(m) => r matches Err(e) && e@ == m,
        },
{
    let ghost rv = read_results(records@);
    let mut pending: usize = 0;
    let n = records.len();
    let mut i: usize = n;
    assert(rv.take(n as int) =~= rv);
    while i > 0
        invariant
            n == records@.len(),
            i <= records@.len(),
            rv == read_results(records@),
            pending <= records@.len() - i,
            undo_scan(rv, 0) == undo_scan(rv.take(i as int), pending as nat),
        decreases i,
    {
        let ghost t = rv.take(i as int);
        proof {
            assert(t.drop_last() =~= rv.take(i - 1));
            assert(t.last() == rv[i - 1]);
        }
        match &records[i - 1] {
            Err(e) => {
                return Err(e.clone());
            },
            Ok(entry) => {
                if entry.action == ActionType::Undo {
                    pending = pending + 1;
                } else if pending > 0 {
                    pending = pending - 1;
                } else {
                    return Ok(Some(i - 1));
                }
            },
        }
        i -= 1;
    }
    assert(rv.take(0) =~= Seq::<Result<ActionType, Seq<char>>>::empty());
    Ok(None)
}

// ---------------------------------------------------------------------------
// Undoing an operation
// ---------------------------------------------------------------------------

/// The undo tool.
pub struct Undoer;

/// What restoring a file takes.
#[derive(Debug, Clone)]
pub enum RestoreStep {
    /// Copy the backup over the file.
    CopyBackup(String),
    /// Remove the file the operation created.
    RemoveTarget,
    /// Nothing is left to restore.
    Nothing,
}

/// What an undo does: restore the file, record the undo, report it.
#[derive(Debug)]
pub struct UndoPlan {
    pub restore: RestoreStep,
    pub record: JournalEntry,
    pub message: String,
}

/// What restoring a file takes, as values.
pub enum RestoreView {
    Copy(Seq<char>),
    Remove,
    Nothing,
}

/// How a file is restored: from the backup when there is one, else by
/// removing the file when it exists.
pub open spec fn restore_plan(backup: Option<Seq<char>>, exists: bool) -> RestoreView {
    match backup {
        Some(b) => RestoreView::Copy(b),
        None => if exists {
            RestoreView::Remove
        } else {
            RestoreView::Nothing
        },
    }
}

/// The value of a restore step.
pub open spec fn restore_view(r: RestoreStep) -> RestoreView {
    match r {
        RestoreStep::CopyBackup(b) => RestoreView::Copy(b@),
        RestoreStep::RemoveTarget => RestoreView::Remove,
        RestoreStep::Nothing => RestoreView::Nothing,
    }
}

/// An optional text's characters.
pub open spec fn opt_view(o: Option<String>) -> Option<Seq<char>> {
    match o {
        Some(s) => Some(s@),
        None => None,
    }
}

/// The abstract name of an action, as its debug output writes it.
pub open spec fn action_name(a: ActionType) -> Seq<char> {
    match a {
        ActionType::Create => "Create"@,
        ActionType::Update => "Update"@,
        ActionType::Delete => "Delete"@,
        ActionType::Move => "Move"@,
        ActionType::Undo => "Undo"@,
    }
}

/// The operation an undo of the journal reverts, if one is left.
pub open spec fn undo_target(l: Seq<Result<JournalEntry, String>>) -> Option<JournalEntry> {
    match undo_scan(read_results(l), 0) {
        Ok(Some(i)) => match l[i] {
            Ok(e) => Some(e),
            Err(_) => None,
        },
        _ => None,
    }
}

/// Files as an undo sees them: each path's bytes.
pub type Files = Map<Seq<char>, Seq<u8>>;

/// Whether the file of `e` changed since the operation: it exists, the
/// operation recorded a checksum, and the file's checksum is another.
pub open spec fn changed_since(e: JournalEntry, fs: Files) -> bool {
    &&& fs.contains_key(e.path@)
    &&& e.checksum_after matches Some(h) && hex_of(sha256_of(fs[e.path@])) != h@
}

/// Bytes read, as values.
pub open spec fn opt_bytes(o: Option<&[u8]>) -> Option<Seq<u8>> {
    match o {
        Some(b) => Some(b@),
        None => None,
    }
}

/// The files after a restore of `target`.
pub open spec fn apply_restore(fs: Files, target: Seq<char>, step: RestoreView) -> Files {
    match step {
        RestoreView::Copy(b) => fs.insert(target, fs[b]),
        RestoreView::Remove => fs.remove(target),
        RestoreView::Nothing => fs,
    }
}

/// The files after `e` is undone: its file holds its backup again, or is
/// gone when the operation made it (kept no backup).
pub open spec fn files_after_undo(e: JournalEntry, fs: Files) -> Files {
    match e.backup_ref {
        Some(b) => fs.insert(e.path@, fs[b@]),
        None => fs.remove(e.path@),
    }
}

/// Whether `fs` is what an undo read: the file of `e` exists as said, with
/// the bytes read when they were read, and the backup exists as said.
pub open spec fn files_agree(
    fs: Files,
    e: JournalEntry,
    target_exists: bool,
    current: Option<Seq<u8>>,
    backup_exists: bool,
) -> bool {
    &&& fs.contains_key(e.path@) == target_exists
    &&& current matches Some(bs) ==> fs[e.path@] == bs
    &&& e.backup_ref matches Some(b) ==> fs.contains_key(b@) == backup_exists
}

proof fn lemma_scan_found(rs: Seq<Result<ActionType, Seq<char>>>, pending: nat)
    ensures
        undo_scan(rs, pending) matches Ok(Some(i)) ==> 0 <= i < rs.len() && rs[i] is Ok,
    decreases rs.len(),
{
    if rs.len() > 0 {
        let rest = rs.drop_last();
        lemma_scan_found(rest, pending + 1);
        if pending > 0 {
            lemma_scan_found(rest, (pending - 1) as nat);
        }
        match undo_scan(rs, pending) {
            Ok(Some(i)) => {
                if i < rs.len() - 1 {
                    assert(rs[i] == rest[i]);
                }
            },
            _ => {},
        }
    }
}

proof fn lemma_undo_scan_one_more(rs: Seq<Result<ActionType, Seq<char>>>, pending: nat)
    ensures
        undo_scan(rs, pending) matches Ok(Some(i)) ==> 0 <= i < rs.len() && undo_scan(rs, pending + 1)
            == undo_scan(rs.take(i), 0),
    decreases rs.len(),
{
    if rs.len() > 0 {
        let rest = rs.drop_last();
        match rs.last() {
            Err(_) => {},
            Ok(a) => {
                if a == ActionType::Undo {
                    lemma_undo_scan_one_more(rest, pending + 1);
                    match undo_scan(rest, pending + 1) {
                        Ok(Some(i)) => {
                            assert(rest.take(i) =~= rs.take(i));
                        },
                        _ => {},
                    }
                } else if pending > 0 {
                    lemma_undo_scan_one_more(rest, (pending - 1) as nat);
                    match undo_scan(rest, (pending - 1) as nat) {
                        Ok(Some(i)) => {
                            assert(rest.take(i) =~= rs.take(i));
                        },
                        _ => {},
                    }
                } else {
                    assert(rs.take(rs.len() - 1) =~= rest);
                }
            },
        }
    }
}

/// Undoing an operation puts its file back as it was before: the backup's
/// bytes when it kept one, no file when it made the file, and no other file
/// changes.  The undo's own record then cancels it: the next undo reverts
/// what came before it.
pub proof fn law_undo_restores(l: Seq<ActionType>, e: JournalEntry, fs: Files, other: Seq<char>)
    requires
        e.backup_ref matches Some(b) ==> fs.contains_key(b@),
    ensures
        e.backup_ref matches Some(b) ==> files_after_undo(e, fs).contains_key(e.path@) && files_after_undo(
            e,
            fs,
        )[e.path@] == fs[b@],
        e.backup_ref is None ==> !files_after_undo(e, fs).contains_key(e.path@),
        other != e.path@ ==> (files_after_undo(e, fs).contains_key(other) == fs.contains_key(other) && (
        fs.contains_key(other) ==> files_after_undo(e, fs)[other] == fs[other])),
        match last_undoable(l) {
            Some(i) => last_undoable(l.push(ActionType::Undo)) == last_undoable(l.take(i)),
            None => last_undoable(l.push(ActionType::Undo)) is None,
        },
{
    law_undo_pops(l);
}

impl Undoer {
    /// The checksum the file must still have before an undo may proceed:
    /// the one recorded after the operation, when the file exists.
    pub fn expected_checksum(entry: &JournalEntry, target_exists: bool) -> (r: Option<String>)
        ensures
            match (target_exists, entry.checksum_after) {
                (true, Some(h)) => r matches Some(x) && x@ == h@,
                _ => r is None,
            },
    {
        if target_exists {
            match &entry.checksum_after {
                Some(h) => Some(h.clone()),
                None => None,
            }
        } else {
            None
        }
    }

    /// Refuses the undo when the file changed since the operation.
    pub fn check_unchanged(expected: &str, current: &str) -> (r: Result<(), IvaldiError>)
        ensures
            r is Ok <==> expected@ == current@,
            r matches Err(e) ==> e matches IvaldiError::Undo(m) && m@
                == "File changed since last operation. Aborting undo."@,
    {
        let a = chars_of(expected);
        let b = chars_of(current);
        if crate::text::chars_eq(&a, &b) {
            Ok(())
        } else {
            Err(IvaldiError::Undo("File changed since last operation. Aborting undo.".to_owned()))
        }
    }

    /// How the file is restored: from the backup when there is one, else by
    /// removing the file when it exists.
    pub fn restore_step(entry: &JournalEntry, target_exists: bool) -> (r: RestoreStep)
        ensures
            restore_view(r) == restore_plan(opt_view(entry.backup_ref), target_exists),
            match entry.backup_ref {
                Some(b) => r matches RestoreStep::CopyBackup(x) && x@ == b@,
                None => if target_exists {
                    r is RemoveTarget
                } else {
                    r is Nothing
                },
            },
    {
        match &entry.backup_ref {
            Some(b) => RestoreStep::CopyBackup(b.clone()),
            None => if target_exists {
                RestoreStep::RemoveTarget
            } else {
                RestoreStep::Nothing
            },
        }
    }

    /// The record of an undo of `entry`.
    pub fn undo_record(entry: &JournalEntry) -> (r: JournalEntry)
        ensures
            r.action == ActionType::Undo,
            r.path@ == entry.path@,
            r.actor matches Some(a) && a@ == "undoer"@,
            r.checksum_before is None && r.checksum_after is None && r.backup_ref is None,
    {
        let mut e = JournalEntry::new(ActionType::Undo, entry.path.clone());
        e.actor = Some("undoer".to_owned());
        e
    }

    /// The message reporting an undo: `Undid action <id> (<action>)`.
    pub fn undo_message(entry: &JournalEntry) -> (r: String)
        ensures
            r@ == "Undid action "@ + entry.id@ + " ("@ + action_name(entry.action) + ")"@,
    {
        let name = match entry.action {
            ActionType::Create => "Create",
            ActionType::Update => "Update",
            ActionType::Delete => "Delete",
            ActionType::Move => "Move",
            ActionType::Undo => "Undo",
        };
        let mut v = chars_of("Undid action ");
        append_str(&mut v, entry.id.as_str());
        append_str(&mut v, " (");
        append_str(&mut v, name);
        append_str(&mut v, ")");
        string_of(&v)
    }

    /// An undo of `entry`, decided from whether its file exists and, when
    /// the operation recorded the checksum the file then had, the file's
    /// bytes now.  A file whose checksum changed since is left alone: the
    /// undo is refused.  Otherwise the plan restores the file (see
    /// `restore_plan`), records an `Undo` entry for its path and reports
    /// the undone operation.
    pub fn plan_undo(entry: &JournalEntry, target_exists: bool, current: Option<&[u8]>) -> (r: Result<
        UndoPlan,
        IvaldiError,
    >)
        requires
            target_exists && entry.checksum_after is Some ==> current is Some,
        ensures
            ({
                let refused = target_exists && match (entry.checksum_after, current) {
                    (Some(h), Some(b)) => hex_of(sha256_of(b@)) != h@,
                    _ => false,
                };
                &&& refused ==> (r matches Err(IvaldiError::Undo(m)) && m@
                    == "File changed since last operation. Aborting undo."@)
                &&& !refused ==> (r matches Ok(p) && restore_view(p.restore) == restore_plan(
                    opt_view(entry.backup_ref),
                    target_exists,
                ) && p.record.action == ActionType::Undo && p.record.path@ == entry.path@
                    && (p.record.actor matches Some(a) && a@ == "undoer"@) && p.message@ == "Undid action "@
                    + entry.id@ + " ("@ + action_name(entry.action) + ")"@)
            }),
    {
        match Undoer::expected_checksum(entry, target_exists) {
            Some(expected) => {
                let bytes = match current {
                    Some(b) => b,
                    None => {
                        return Err(IvaldiError::Undo("File changed since last operation. Aborting undo.".to_owned()));
                    },
                };
                let now = sha256_digest(bytes);
                match Undoer::check_unchanged(expected.as_str(), now.as_str()) {
                    Ok(()) => {},
                    Err(e) => {
                        return Err(e);
                    },
                }
            },
            None => {},
        }
        Ok(UndoPlan {
            restore: Undoer::restore_step(entry, target_exists),
            record: Undoer::undo_record(entry),
            message: Undoer::undo_message(entry),
        })
    }

    /// The whole decision of an undo of the journal's records, given
    /// whether the reverted operation's file exists, its bytes (read when
    /// the operation recorded a checksum), and whether its backup exists.
    /// Nothing left to undo, an unreadable record, a file changed since the
    /// operation, or a missing backup refuse it; otherwise the plan's
    /// restore, run on the files, gives `files_after_undo`, and its record
    /// is the `Undo` entry appended to the journal, after which the next
    /// undo reverts what came before the operation just undone.
    pub fn decide_undo(
        records: &Vec<Result<JournalEntry, String>>,
        target_exists: bool,
        current: Option<&[u8]>,
        backup_exists: bool,
    ) -> (r: Result<UndoPlan, IvaldiError>)
        requires
            undo_target(records@) matches Some(e) ==> (target_exists && e.checksum_after is Some ==> current is Some),
        ensures
            undo_scan(read_results(records@), 0) matches Ok(None) ==> (r matches Err(IvaldiError::Internal(m))
                && m@ == "Nothing to undo"@),
            undo_scan(read_results(records@), 0) matches Err(m) ==> (r matches Err(IvaldiError::Journal(x)) && x@
                == m),
            undo_target(records@) matches Some(e) ==> forall|fs: Files|
                #![trigger files_agree(fs, e, target_exists, opt_bytes(current), backup_exists)]
                files_agree(fs, e, target_exists, opt_bytes(current), backup_exists) ==> {
                    &&& changed_since(e, fs) ==> (r matches Err(IvaldiError::Undo(m)) && m@
                        == "File changed since last operation. Aborting undo."@)
                    &&& !changed_since(e, fs) && (e.backup_ref matches Some(b) && !backup_exists) ==> (r matches Err(
                        IvaldiError::FileNotFound(x),
                    ) && (e.backup_ref matches Some(b) && x@ == b@))
                    &&& !changed_since(e, fs) && !(e.backup_ref matches Some(b) && !backup_exists) ==> (r matches Ok(
                        p,
                    ) && apply_restore(fs, e.path@, restore_view(p.restore)) == files_after_undo(e, fs)
                        && p.record.action == ActionType::Undo && p.record.path@ == e.path@)
                },
            r matches Ok(p) ==> (undo_scan(read_results(records@), 0) matches Ok(Some(i)) && undo_scan(
                read_results(records@.push(Ok(p.record))),
                0,
            ) == undo_scan(read_results(records@.take(i)), 0)),
    {
        proof {
            lemma_scan_found(read_results(records@), 0);
        }
        let entry = match find_last_undoable(records) {
            Ok(Some(i)) => match &records[i] {
                Ok(e) => e,
                Err(m) => {
                    return Err(IvaldiError::Journal(m.clone()));
                },
            },
            Ok(None) => {
                return Err(IvaldiError::Internal("Nothing to undo".to_owned()));
            },
            Err(m) => {
                return Err(IvaldiError::Journal(m));
            },
        };
        let plan = match Undoer::plan_undo(entry, target_exists, current) {
            Ok(p) => p,
            Err(e) => {
                return Err(e);
            },
        };
        match &plan.restore {
            RestoreStep::CopyBackup(b) => {
                if !backup_exists {
                    proof {
                        assert forall|fs: Files|
                            files_agree(fs, *entry, target_exists, opt_bytes(current), backup_exists) implies !changed_since(
                            *entry,
                            fs,
                        ) by {}
                    }
                    return Err(IvaldiError::FileNotFound(b.clone()));
                }
            },
            _ => {},
        }
        proof {
            let rv = read_results(records@);
            lemma_undo_scan_one_more(rv, 0);
            assert(read_results(records@.push(Ok(plan.record))) =~= rv.push(Ok(ActionType::Undo)));
            assert(rv.push(Ok(ActionType::Undo)).drop_last() =~= rv);
            match undo_scan(rv, 0) {
                Ok(Some(i)) => {
                    assert(read_results(records@.take(i)) =~= rv.take(i));
                },
                _ => {},
            }
            assert forall|fs: Files|
                files_agree(fs, *entry, target_exists, opt_bytes(current), backup_exists) implies apply_restore(
                fs,
                entry.path@,
                restore_view(plan.restore),
            ) == files_after_undo(*entry, fs) by {
                if entry.backup_ref is None && !target_exists {
                    assert(fs.remove(entry.path@) =~= fs);
                }
            }
        }
        Ok(plan)
    }
}

} // verus!
