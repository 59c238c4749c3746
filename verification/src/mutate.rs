//! Writing and editing files: the arguments of the mutating tools and the
//! decisions around each write (append or overwrite, what the journal
//! records, what the agent is told).
use vstd::prelude::*;
use crate::advisory::AdvisoryMessage;
use crate::error::IvaldiError;
use crate::grep_edit::EditSelector;
use crate::line_edit::RichEditError;
use crate::undo::{last_undoable, restore_plan, ActionType, JournalEntry, RestoreView};
use crate::doc::{json_views, str_at, str_of, u64_at, u64_of};
use crate::heuristics::jstr;
use crate::json_edit::{entries_view, json_view, JsonEntry, JsonValue, JsonView};
use crate::kind::SourceKind;
use crate::response::IvaldiResponse;
use crate::text::{
    append_chars, append_str, chars_eq, chars_of, decimal, decimal_chars, join_lines,
    join_with_newlines, lines_of, replace_all, replace_all_chars, replace_str, slice_chars,
    split_lines, string_of, string_views, utf8_len, utf8_len_chars, views,
};

verus! {

/// Arguments of the write tool.  An existing file is appended to unless
/// `overwrite` is set.
#[derive(Debug, Clone)]
pub struct WriteFileArgs {
    pub path: String,
    pub content: String,
    pub overwrite: bool,
    pub append: bool,
}

/// Arguments of the edit tool: a replacement and exactly one selector.
#[derive(Debug, Clone)]
pub struct EditFileArgs {
    pub path: String,
    pub replacement: String,
    /// Structural query selecting one node.
    pub query: Option<String>,
    /// Regular expression selecting one line.
    pub grep: Option<String>,
    /// First line of an explicit range (1-based).
    pub from_line: Option<usize>,
    /// Last line of an explicit range (1-based).
    pub to_line: Option<usize>,
    /// Report the change without writing it.
    pub preview: bool,
}

/// Arguments of the multi-file edit tool: all edits apply, or none.
#[derive(Debug, Clone)]
pub struct EditFilesArgs {
    pub edits: Vec<EditFileArgs>,
}

/// Arguments of the rename tool.
#[derive(Debug, Clone, PartialEq, Eq)]
pub struct RenameSymbolArgs {
    pub path: String,
    pub old_name: String,
    pub new_name: String,
    /// `function`, `struct`, `class`, `import`, or any kind when absent.
    pub symbol_type: Option<String>,
    /// `file` for an AST-validated replacement in the whole file.
    pub scope: Option<String>,
}

/// What an edit would change, shown without writing it.
#[derive(Debug, Clone)]
pub struct EditPreview {
    pub path: String,
    /// The unified diff.
    pub diff: String,
    /// The first 500 characters before the edit.
    pub original_preview: String,
    /// The first 500 characters after the edit.
    pub modified_preview: String,
    /// Diff lines that add or remove text.
    pub lines_changed: usize,
    pub heuristics_triggered: Vec<String>,
}

/// What a rename changed.
#[derive(Debug, Clone, Copy, PartialEq, Eq, Structural)]
pub struct RenameResult {
    pub files_modified: usize,
    pub symbols_renamed: usize,
    pub backups_created: usize,
}

/// The mutating tools.
pub struct Mutator;

impl WriteFileArgs {
    /// Whether a flag is set when nothing says otherwise.
    pub fn default_false() -> (r: bool)
        ensures
            !r,
    {
        false
    }
}

// ---------------------------------------------------------------------------
// Writing
// ---------------------------------------------------------------------------

/// How a write treats the target.
#[derive(Debug, Clone, Copy, PartialEq, Eq, Structural)]
pub enum WriteMode {
    /// The file does not exist yet.
    Create,
    /// Add the content after the existing text.
    Append,
    /// Replace the existing text.
    Overwrite,
}

/// The mode of a write: existing files are appended to unless overwriting
/// was asked for (and appending was not).
pub open spec fn write_mode_spec(append: bool, overwrite: bool, exists: bool) -> WriteMode {
    if !exists {
        WriteMode::Create
    } else if append || !overwrite {
        WriteMode::Append
    } else {
        WriteMode::Overwrite
    }
}

/// The note an append adds: the original size, and when the append was
/// implicit, how to overwrite instead.
pub open spec fn append_note_spec(existing: Seq<char>, explicit: bool) -> Seq<char> {
    let facts = "Original: "@ + decimal(lines_of(existing).len()) + " lines, "@ + decimal(
        utf8_len(existing),
    ) + " bytes."@;
    if explicit {
        "Appended to end. "@ + facts
    } else {
        "File existed. Appended to end. "@ + facts + " Use --force to overwrite instead."@
    }
}

/// The action a write is journaled as.
pub open spec fn write_action(mode: WriteMode) -> ActionType {
    if mode == WriteMode::Create {
        ActionType::Create
    } else {
        ActionType::Update
    }
}

/// A write can be undone: once journaled, it is the operation the next undo
/// reverts, and that undo copies back the backup the write kept of the
/// file it replaced or appended to, or removes the file the write created
/// (which kept none).
pub proof fn law_undo_reverts_write(acts: Seq<ActionType>, mode: WriteMode, backup: Option<Seq<char>>)
    requires
        (mode == WriteMode::Create) == (backup is None),
    ensures
        last_undoable(acts.push(write_action(mode))) == Some(acts.len() as int),
        restore_plan(backup, true) == match backup {
            Some(b) => RestoreView::Copy(b),
            None => RestoreView::Remove,
        },
        mode == WriteMode::Create ==> restore_plan(backup, true) == RestoreView::Remove,
{
    crate::undo::law_newest_undone_first(acts, write_action(mode));
}

impl Mutator {
    /// Refuses a write whose target exists but is not a regular file (a
    /// directory, say); nothing is refused otherwise.
    pub fn target_refusal(exists: bool, is_file: bool) -> (r: Option<IvaldiResponse<String>>)
        ensures
            r is Some <==> exists && !is_file,
            r matches Some(x) ==> x.is_error && x.content is None && (x.error matches Some(e) && e.code@
                == "write_error"@ && e.message@ == "Target exists and is not a file"@),
    {
        if exists && !is_file {
            Some(IvaldiResponse::error("write_error".to_owned(), "Target exists and is not a file".to_owned()))
        } else {
            None
        }
    }

    /// The mode of a write to a target that exists or not.
    pub fn write_mode(args: &WriteFileArgs, exists: bool) -> (r: WriteMode)
        ensures
            r == write_mode_spec(args.append, args.overwrite, exists),
    {
        if !exists {
            WriteMode::Create
        } else if args.append || !args.overwrite {
            WriteMode::Append
        } else {
            WriteMode::Overwrite
        }
    }

    /// The text written: the existing text followed by the content when
    /// appending, else the content.
    pub fn final_content(mode: WriteMode, existing: &str, content: &str) -> (r: String)
        ensures
            r@ == if mode == WriteMode::Append {
                existing@ + content@
            } else {
                content@
            },
    {
        if mode == WriteMode::Append {
            let mut v = chars_of(existing);
            append_str(&mut v, content);
            string_of(&v)
        } else {
            content.to_owned()
        }
    }

    /// The note an append adds.
    pub fn append_note(existing: &str, explicit: bool) -> (r: String)
        requires
            utf8_len(existing@) <= usize::MAX,
        ensures
            r@ == append_note_spec(existing@, explicit),
    {
        let ec = chars_of(existing);
        let ls = split_lines(&ec);
        assert(views(ls@).len() == ls@.len());
        let mut facts = chars_of("Original: ");
        append_chars(&mut facts, &decimal_chars(ls.len()));
        append_str(&mut facts, " lines, ");
        append_chars(&mut facts, &decimal_chars(utf8_len_chars(&ec)));
        append_str(&mut facts, " bytes.");
        let mut v = if explicit {
            chars_of("Appended to end. ")
        } else {
            chars_of("File existed. Appended to end. ")
        };
        append_chars(&mut v, &facts);
        if !explicit {
            append_str(&mut v, " Use --force to overwrite instead.");
        }
        string_of(&v)
    }

    /// The name of the backup of a file: its checksum, `_`, its name.
    pub fn backup_name(hash: &str, file_name: &str) -> (r: String)
        ensures
            r@ == hash@ + seq!['_'] + file_name@,
    {
        let mut v = chars_of(hash);
        v.push('_');
        append_str(&mut v, file_name);
        string_of(&v)
    }

    /// The journal record of a write.
    pub fn write_record(
        mode: WriteMode,
        path: String,
        checksum_before: Option<String>,
        checksum_after: String,
        backup_ref: Option<String>,
    ) -> (r: JournalEntry)
        ensures
            r.action == write_action(mode),
            r.path@ == path@,
            r.checksum_before == checksum_before,
            r.checksum_after == Some(checksum_after),
            r.backup_ref == backup_ref,
            r.actor matches Some(a) && a@ == "agent-mcp"@,
            r.destination is None,
    {
        let action = if mode == WriteMode::Create { ActionType::Create } else { ActionType::Update };
        let mut e = JournalEntry::new(action, path);
        e.checksum_before = checksum_before;
        e.checksum_after = Some(checksum_after);
        e.backup_ref = backup_ref;
        e.actor = Some("agent-mcp".to_owned());
        e
    }
}

// ---------------------------------------------------------------------------
// Editing
// ---------------------------------------------------------------------------

/// How an edit selects what it replaces.
#[derive(Debug, Clone)]
pub enum EditTarget {
    /// The node a structural query matches.
    Node(String),
    /// A line pattern or an explicit line range.
    Text(EditSelector),
}

/// The selector an edit's arguments give: the query, else the pattern,
/// else a complete line range.
pub open spec fn edit_target_spec(a: EditFileArgs) -> Option<EditTarget> {
    match a.query {
        Some(q) => Some(EditTarget::Node(q)),
        None => match a.grep {
            Some(g) => Some(EditTarget::Text(EditSelector::Grep(g))),
            None => match (a.from_line, a.to_line) {
                (Some(f), Some(t)) => Some(EditTarget::Text(EditSelector::Lines(f, t))),
                _ => None,
            },
        },
    }
}

/// The pieces of `s` between occurrences of `c` (as `str::split` yields
/// them, empty pieces included).
pub open spec fn pieces(s: Seq<char>, c: char) -> Seq<Seq<char>>
    decreases s.len(),
{
    if s.len() == 0 {
        seq![Seq::empty()]
    } else {
        let prev = pieces(s.drop_last(), c);
        if s.last() == c {
            prev.push(Seq::empty())
        } else {
            prev.drop_last().push(prev.last().push(s.last()))
        }
    }
}

proof fn lemma_pieces_nonempty(s: Seq<char>, c: char)
    ensures
        pieces(s, c).len() >= 1,
    decreases s.len(),
{
    if s.len() > 0 {
        lemma_pieces_nonempty(s.drop_last(), c);
    }
}

/// What follows `prefix` in the first piece that starts with it, or `?`.
pub open spec fn after_prefix(ps: Seq<Seq<char>>, prefix: Seq<char>) -> Seq<char>
    decreases ps.len(),
{
    if ps.len() == 0 {
        "?"@
    } else if ps[0].len() >= prefix.len() && ps[0].take(prefix.len() as int) == prefix {
        ps[0].skip(prefix.len() as int)
    } else {
        after_prefix(ps.drop_first(), prefix)
    }
}

/// The advice for each editing heuristic that fired.
pub open spec fn heuristic_message_spec(h: Seq<char>) -> Seq<char> {
    let mismatch = "indentation_mismatch:"@;
    if h == "indentation_healing"@ {
        "Surgical content was indented to match the target site's structural depth."@
    } else if h == "anchor_trimming_leading"@ {
        "Leading anchor line detected and removed from replacement string."@
    } else if h == "anchor_trimming_trailing"@ {
        "Trailing anchor line detected and removed from replacement string."@
    } else if h == "grep_multi_line_replacement"@ {
        "NOTE: Grep matched 1 line but replacement has multiple lines. Only the matched line was replaced. Use 'from_line'/'to_line' or an AST query to replace multi-line blocks."@
    } else if h.len() >= mismatch.len() && h.take(mismatch.len() as int) == mismatch {
        let ps = pieces(h.skip(mismatch.len() as int), ':');
        "Replacement indentation ("@ + after_prefix(ps, "repl="@) + " spaces) differs from target site ("@
            + after_prefix(ps, "target="@) + " spaces). Replacement was NOT re-indented."@
    } else {
        "Surgery heuristic applied during edit."@
    }
}

fn is_text(a: &Vec<char>, b: &str) -> (r: bool)
    ensures
        r == (a@ == b@),
{
    let bc = chars_of(b);
    chars_eq(a, &bc)
}

fn starts_with_text(a: &Vec<char>, p: &str) -> (r: bool)
    ensures
        r == (a@.len() >= p@.len() && a@.take(p@.len() as int) == p@),
{
    let pc = chars_of(p);
    if a.len() < pc.len() {
        return false;
    }
    let head = slice_chars(a, 0, pc.len());
    assert(head@ =~= a@.take(pc@.len() as int));
    chars_eq(&head, &pc)
}

/// The pieces of `s` between occurrences of `c`.
fn split_on(s: &Vec<char>, c: char) -> (r: Vec<Vec<char>>)
    ensures
        views(r@) == pieces(s@, c),
{
    let mut r: Vec<Vec<char>> = Vec::new();
    r.push(Vec::new());
    let mut i: usize = 0;
    assert(s@.take(0) =~= Seq::<char>::empty());
    assert(views(r@) =~= pieces(Seq::<char>::empty(), c));
    while i < s.len()
        invariant
            i <= s@.len(),
            views(r@) == pieces(s@.take(i as int), c),
            r@.len() >= 1,
        decreases s.len() - i,
    {
        let ghost prev = views(r@);
        proof {
            assert(s@.take(i + 1).drop_last() =~= s@.take(i as int));
            assert(s@.take(i + 1).last() == s@[i as int]);
        }
        if s[i] == c {
            r.push(Vec::new());
            assert(views(r@) =~= prev.push(Seq::empty()));
        } else {
            let mut last = r.pop().unwrap();
            last.push(s[i]);
            r.push(last);
            assert(views(r@) =~= prev.drop_last().push(prev.last().push(s@[i as int])));
        }
        i += 1;
    }
    assert(s@.take(s@.len() as int) =~= s@);
    r
}

fn after_prefix_exec(ps: &Vec<Vec<char>>, prefix: &str) -> (r: Vec<char>)
    ensures
        r@ == after_prefix(views(ps@), prefix@),
{
    let pc = chars_of(prefix);
    let ghost pv = views(ps@);
    let mut i: usize = 0;
    assert(pv.skip(0) =~= pv);
    while i < ps.len()
        invariant
            i <= ps@.len(),
            pv == views(ps@),
            pc@ == prefix@,
            after_prefix(pv, prefix@) == after_prefix(pv.skip(i as int), prefix@),
        decreases ps.len() - i,
    {
        let p = &ps[i];
        proof {
            assert(pv.skip(i as int)[0] == p@);
            assert(pv.skip(i as int).drop_first() =~= pv.skip(i + 1));
        }
        if starts_with_text(p, prefix) {
            let rest = slice_chars(p, pc.len(), p.len());
            assert(rest@ =~= p@.skip(prefix@.len() as int));
            return rest;
        }
        i += 1;
    }
    assert(pv.skip(ps@.len() as int) =~= Seq::<Seq<char>>::empty());
    chars_of("?")
}

impl Mutator {
    /// The selector an edit's arguments give, or `None` when they give
    /// neither a query, a pattern nor a complete range.
    pub fn edit_target(args: &EditFileArgs) -> (r: Option<EditTarget>)
        ensures
            r == edit_target_spec(*args),
    {
        match &args.query {
            Some(q) => Some(EditTarget::Node(q.clone())),
            None => match &args.grep {
                Some(g) => Some(EditTarget::Text(EditSelector::Grep(g.clone()))),
                None => match (args.from_line, args.to_line) {
                    (Some(f), Some(t)) => Some(EditTarget::Text(EditSelector::Lines(f, t))),
                    _ => None,
                },
            },
        }
    }

    /// The error for an edit with no selector.
    pub fn missing_selector() -> (r: IvaldiError)
        ensures
            r matches IvaldiError::InvalidArgument(m) && m@
                == "Edit requires query, grep, or from_line/to_line"@,
    {
        IvaldiError::InvalidArgument("Edit requires query, grep, or from_line/to_line".to_owned())
    }

    /// The advice for an editing heuristic that fired.
    pub fn heuristic_message(h: &str) -> (r: String)
        ensures
            r@ == heuristic_message_spec(h@),
    {
        let hc = chars_of(h);
        if is_text(&hc, "indentation_healing") {
            "Surgical content was indented to match the target site's structural depth.".to_owned()
        } else if is_text(&hc, "anchor_trimming_leading") {
            "Leading anchor line detected and removed from replacement string.".to_owned()
        } else if is_text(&hc, "anchor_trimming_trailing") {
            "Trailing anchor line detected and removed from replacement string.".to_owned()
        } else if is_text(&hc, "grep_multi_line_replacement") {
            "NOTE: Grep matched 1 line but replacement has multiple lines. Only the matched line was replaced. Use 'from_line'/'to_line' or an AST query to replace multi-line blocks.".to_owned()
        } else if starts_with_text(&hc, "indentation_mismatch:") {
            let m = chars_of("indentation_mismatch:");
            let details = slice_chars(&hc, m.len(), hc.len());
            assert(details@ =~= hc@.skip("indentation_mismatch:"@.len() as int));
            let ps = split_on(&details, ':');
            let mut v = chars_of("Replacement indentation (");
            append_chars(&mut v, &after_prefix_exec(&ps, "repl="));
            append_str(&mut v, " spaces) differs from target site (");
            append_chars(&mut v, &after_prefix_exec(&ps, "target="));
            append_str(&mut v, " spaces). Replacement was NOT re-indented.");
            string_of(&v)
        } else {
            "Surgery heuristic applied during edit.".to_owned()
        }
    }

    /// The advice for each heuristic that fired, in order.
    pub fn heuristic_messages(hs: &Vec<String>) -> (r: Vec<String>)
        ensures
            string_views(r@) == string_views(hs@).map_values(|h: Seq<char>| heuristic_message_spec(h)),
    {
        let mut out: Vec<String> = Vec::new();
        let mut i: usize = 0;
        while i < hs.len()
            invariant
                i <= hs@.len(),
                string_views(out@) == string_views(hs@).take(i as int).map_values(
                    |h: Seq<char>| heuristic_message_spec(h),
                ),
            decreases hs.len() - i,
        {
            let m = Mutator::heuristic_message(hs[i].as_str());
            let ghost prev = string_views(out@);
            out.push(m);
            assert(string_views(out@) =~= prev.push(m@));
            i += 1;
            assert(string_views(out@) =~= string_views(hs@).take(i as int).map_values(
                |h: Seq<char>| heuristic_message_spec(h),
            ));
        }
        assert(string_views(hs@).take(hs@.len() as int) =~= string_views(hs@));
        out
    }
}


// ---------------------------------------------------------------------------
// Renaming
// ---------------------------------------------------------------------------

/// The query that finds the symbol: among functions, types or imports when
/// its kind is given, else any named node.
pub open spec fn rename_query_spec(symbol_type: Option<Seq<char>>, old: Seq<char>) -> Seq<char> {
    let sel = "select(.name == \""@ + old + "\")"@;
    match symbol_type {
        Some(t) => if t == "function"@ {
            ".functions[] | "@ + sel
        } else if t == "struct"@ || t == "class"@ {
            "(.structs[] // .classes[]) | "@ + sel
        } else if t == "import"@ {
            ".imports[] | "@ + sel
        } else {
            "(.. | select(.name? == \""@ + old + "\"))"@
        },
        None => "(.. | select(.name? == \""@ + old + "\"))"@,
    }
}

/// The query that finds every node with the name.
pub open spec fn broad_query_spec(old: Seq<char>) -> Seq<char> {
    ".. | select(.name? == \""@ + old + "\")"@
}

/// Whether the rename is scoped to the whole file.
pub open spec fn file_scope(scope: Option<String>) -> bool {
    scope matches Some(s) && s@ == "file"@
}

/// The kinds whose structure is searched before renaming.
pub open spec fn structured(k: SourceKind) -> bool {
    k is Rust || k is Python || k is Go || k is C || k is Cpp || k is Markdown || k is Json
}

/// A node to rewrite: its first and last line and its text.
pub type NodePatch = (nat, nat, Seq<char>);

/// The nodes that carry a first line (not 0) and a non-empty text, in
/// order.
pub open spec fn node_patches(nodes: Seq<JsonView>) -> Seq<NodePatch>
    decreases nodes.len(),
{
    if nodes.len() == 0 {
        Seq::empty()
    } else {
        let prev = node_patches(nodes.drop_last());
        let n = nodes.last();
        let start: nat = match u64_of(n, "line_start"@) {
            Some(v) => (v as usize) as nat,
            None => 0,
        };
        let end: nat = match u64_of(n, "line_end"@) {
            Some(v) => (v as usize) as nat,
            None => 0,
        };
        let text = match str_of(n, "content"@) {
            Some(t) => t,
            None => Seq::empty(),
        };
        if start != 0 && text.len() > 0 {
            prev.push((start, end, text))
        } else {
            prev
        }
    }
}

/// Inserts a patch into a list ordered by first line, highest first, after
/// every patch that does not start lower (equal starts keep their order).
pub open spec fn insert_desc(s: Seq<NodePatch>, x: NodePatch) -> Seq<NodePatch>
    decreases s.len(),
{
    if s.len() == 0 {
        seq![x]
    } else if s.last().0 >= x.0 {
        s.push(x)
    } else {
        insert_desc(s.drop_last(), x).push(s.last())
    }
}

/// Patches ordered by first line, highest first, stably.
pub open spec fn sort_desc(s: Seq<NodePatch>) -> Seq<NodePatch>
    decreases s.len(),
{
    if s.len() == 0 {
        Seq::empty()
    } else {
        insert_desc(sort_desc(s.drop_last()), s.last())
    }
}

/// The lines after rewriting each patch's lines, in turn, with the node's
/// text where `old` is replaced by `new`; `None` when a patch's lines do
/// not fit the text it applies to.
pub open spec fn apply_patches(
    lines: Seq<Seq<char>>,
    ps: Seq<NodePatch>,
    old: Seq<char>,
    new: Seq<char>,
) -> Option<Seq<Seq<char>>>
    decreases ps.len(),
{
    if ps.len() == 0 {
        Some(lines)
    } else {
        let p = ps[0];
        if 1 <= p.0 && p.0 - 1 <= p.1 <= lines.len() {
            apply_patches(
                lines.take(p.0 - 1) + lines_of(replace_all(p.2, old, new)) + lines.skip(p.1 as int),
                ps.drop_first(),
                old,
                new,
            )
        } else {
            None
        }
    }
}

/// The text after the surgical rename: the patched lines joined by line
/// breaks, with a final line break when the original had one.
pub open spec fn surgical_text(content: Seq<char>, nodes: Seq<JsonView>, old: Seq<char>, new: Seq<char>) -> Seq<char> {
    let j = join_lines(
        apply_patches(lines_of(content), sort_desc(node_patches(nodes)), old, new)->Some_0,
    );
    if content.len() > 0 && content.last() == '\n' && !(j.len() > 0 && j.last() == '\n') {
        j.push('\n')
    } else {
        j
    }
}

/// What a rename comes to.
#[derive(Debug)]
pub enum RenamePlan {
    /// Write the new text; report the result and advisories.
    Write { content: String, result: RenameResult, advisory: AdvisoryMessage },
    /// The symbol is not in the file's structure.
    NotFound { error: IvaldiError, advisory: AdvisoryMessage },
}

/// The report of a rename the structure confirmed.
pub open spec fn renamed_message(old: Seq<char>, new: Seq<char>, n: nat, file: bool, scope: Option<String>) -> Seq<char> {
    "Renamed '"@ + old + "' -> '"@ + new + "' in "@ + decimal(n) + " locations using "@ + (if file {
        "Smart Hammer (AST-validated global replace)"@
    } else {
        "Surgical Scalpel (AST node only)"@
    }) + " (scope: "@ + (match scope {
        Some(s) => s@,
        None => "default"@,
    }) + ")."@
}

/// The warning of a rename made by plain text replacement.
pub open spec fn hammer_warning() -> JsonView {
    JsonView::Object(
        seq![
            (
                "message"@,
                jstr(
                    "AST-aware renaming not possible for this file type. Fell back to global replacement (The Hammer)."@,
                ),
            ),
            ("issue"@, jstr("hammer_fallback"@)),
            (
                "suggestion"@,
                jstr("Use surgical 'edit_file' for more sensitive changes in unsupported file types."@),
            ),
        ],
    )
}

/// A text advisory from the tool.
pub open spec fn tool_text(a: AdvisoryMessage, level: crate::advisory::AdvisoryLevel, msg: Seq<char>) -> bool {
    crate::observe::text_advisory(a, level, msg)
}

impl Mutator {
    /// The query that finds the symbol to rename.
    pub fn rename_query(args: &RenameSymbolArgs) -> (r: String)
        ensures
            r@ == rename_query_spec(
                match args.symbol_type {
                    Some(t) => Some(t@),
                    None => None,
                },
                args.old_name@,
            ),
    {
        let old = args.old_name.as_str();
        let mut sel = chars_of("select(.name == \"");
        append_str(&mut sel, old);
        append_str(&mut sel, "\")");
        let kind: u8 = match &args.symbol_type {
            Some(t) => {
                let tc = chars_of(t.as_str());
                if is_text(&tc, "function") {
                    1
                } else if is_text(&tc, "struct") || is_text(&tc, "class") {
                    2
                } else if is_text(&tc, "import") {
                    3
                } else {
                    0
                }
            },
            None => 0,
        };
        let mut v = if kind == 1 {
            chars_of(".functions[] | ")
        } else if kind == 2 {
            chars_of("(.structs[] // .classes[]) | ")
        } else if kind == 3 {
            chars_of(".imports[] | ")
        } else {
            chars_of("(.. | select(.name? == \"")
        };
        if kind == 0 {
            append_str(&mut v, old);
            append_str(&mut v, "\"))");
        } else {
            append_chars(&mut v, &sel);
        }
        string_of(&v)
    }

    /// The query the rename runs: every node with the name when scoped to
    /// the file, else the precise query.
    pub fn effective_rename_query(args: &RenameSymbolArgs) -> (r: String)
        ensures
            r@ == if file_scope(args.scope) {
                broad_query_spec(args.old_name@)
            } else {
                rename_query_spec(
                    match args.symbol_type {
                        Some(t) => Some(t@),
                        None => None,
                    },
                    args.old_name@,
                )
            },
    {
        if is_file_scope(&args.scope) {
            let mut v = chars_of(".. | select(.name? == \"");
            append_str(&mut v, args.old_name.as_str());
            append_str(&mut v, "\")");
            string_of(&v)
        } else {
            Mutator::rename_query(args)
        }
    }

    /// Whether the file's structure is searched before renaming.
    pub fn structured(kind: &SourceKind) -> (r: bool)
        ensures
            r == structured(*kind),
    {
        matches!(
            kind,
            SourceKind::Rust | SourceKind::Python | SourceKind::Go | SourceKind::C | SourceKind::Cpp
                | SourceKind::Markdown | SourceKind::Json
        )
    }
}

fn is_file_scope(scope: &Option<String>) -> (r: bool)
    ensures
        r == file_scope(*scope),
{
    match scope {
        Some(s) => {
            let sc = chars_of(s.as_str());
            is_text(&sc, "file")
        },
        None => false,
    }
}

/// Patch views.
pub open spec fn patch_views(v: Seq<(usize, usize, String)>) -> Seq<NodePatch> {
    v.map_values(|p: (usize, usize, String)| (p.0 as nat, p.1 as nat, p.2@))
}

fn insert_patch(v: &mut Vec<(usize, usize, String)>, x: (usize, usize, String))
    ensures
        patch_views(final(v)@) == insert_desc(patch_views(old(v)@), (x.0 as nat, x.1 as nat, x.2@)),
    decreases old(v)@.len(),
{
    let ghost s = patch_views(v@);
    if v.len() == 0 || v[v.len() - 1].0 >= x.0 {
        v.push(x);
        assert(patch_views(v@) =~= s.push((x.0 as nat, x.1 as nat, x.2@)));
    } else {
        let y = v.pop().unwrap();
        assert(patch_views(v@) =~= s.drop_last());
        insert_patch(v, x);
        let ghost mid = patch_views(v@);
        let ghost yv = (y.0 as nat, y.1 as nat, y.2@);
        v.push(y);
        assert(patch_views(v@) =~= mid.push(yv));
    }
}

fn collect_patches(nodes: &Vec<JsonValue>) -> (r: Vec<(usize, usize, String)>)
    ensures
        patch_views(r@) == sort_desc(node_patches(json_views(nodes@))),
{
    let ghost nv = json_views(nodes@);
    let mut found: Vec<(usize, usize, String)> = Vec::new();
    let mut i: usize = 0;
    while i < nodes.len()
        invariant
            i <= nodes@.len(),
            nv == json_views(nodes@),
            patch_views(found@) == node_patches(nv.take(i as int)),
        decreases nodes.len() - i,
    {
        let n = &nodes[i];
        proof {
            assert(nv.take(i + 1).drop_last() =~= nv.take(i as int));
            assert(nv.take(i + 1).last() == json_view(*n));
        }
        let start: usize = match u64_at(n, "line_start") {
            Some(v) => v as usize,
            None => 0,
        };
        let end: usize = match u64_at(n, "line_end") {
            Some(v) => v as usize,
            None => 0,
        };
        let text: String = match str_at(n, "content") {
            Some(t) => t.clone(),
            None => String::new(),
        };
        let nonempty = !text.as_str().is_empty();
        if start != 0 && nonempty {
            let ghost prev = patch_views(found@);
            let ghost tv = text@;
            found.push((start, end, text));
            assert(patch_views(found@) =~= prev.push((start as nat, end as nat, tv)));
        }
        i += 1;
    }
    assert(nv.take(nodes@.len() as int) =~= nv);
    let ghost fv = patch_views(found@);
    let mut sorted: Vec<(usize, usize, String)> = Vec::new();
    let mut k: usize = 0;
    let n = found.len();
    let mut rest = found;
    let ghost all = rest@;
    while k < n
        invariant
            k <= n == all.len(),
            fv == patch_views(all),
            rest@ == all.subrange(k as int, n as int),
            patch_views(sorted@) == sort_desc(fv.take(k as int)),
        decreases n - k,
    {
        let x = rest.remove(0);
        proof {
            assert(fv.take(k + 1).drop_last() =~= fv.take(k as int));
            assert(fv.take(k + 1).last() == (x.0 as nat, x.1 as nat, x.2@));
        }
        insert_patch(&mut sorted, x);
        k += 1;
        assert(rest@ =~= all.subrange(k as int, n as int));
    }
    assert(fv.take(n as int) =~= fv);
    sorted
}

/// Rewrites the nodes' lines, highest first.
fn patch_lines(
    lines: Vec<Vec<char>>,
    ps: &Vec<(usize, usize, String)>,
    old: &str,
    new: &str,
) -> (r: Vec<Vec<char>>)
    requires
        apply_patches(views(lines@), patch_views(ps@), old@, new@) is Some,
    ensures
        views(r@) == apply_patches(views(lines@), patch_views(ps@), old@, new@)->Some_0,
{
    let ghost pv = patch_views(ps@);
    let ghost target = apply_patches(views(lines@), pv, old@, new@)->Some_0;
    let mut cur = lines;
    let mut i: usize = 0;
    assert(pv.skip(0) =~= pv);
    while i < ps.len()
        invariant
            i <= ps@.len(),
            pv == patch_views(ps@),
            apply_patches(views(cur@), pv.skip(i as int), old@, new@) == Some(target),
        decreases ps.len() - i,
    {
        let ghost rest = pv.skip(i as int);
        proof {
            assert(rest[0] == pv[i as int]);
            assert(rest.drop_first() =~= pv.skip(i + 1));
        }
        let (start, end, text) = (ps[i].0, ps[i].1, &ps[i].2);
        let replaced = replace_str(text.as_str(), old, new);
        let rc = chars_of(replaced.as_str());
        let new_lines = split_lines(&rc);
        let mut next: Vec<Vec<char>> = Vec::new();
        let mut k: usize = 0;
        while k < start - 1
            invariant
                k <= start - 1 <= end <= cur@.len(),
                views(next@) == views(cur@).take(k as int),
            decreases start - 1 - k,
        {
            let item = slice_chars(&cur[k], 0, cur[k].len());
            let ghost prev = views(next@);
            next.push(item);
            proof {
                assert(cur@[k as int]@.subrange(0, cur@[k as int]@.len() as int) =~= cur@[k as int]@);
                assert(views(next@) =~= prev.push(cur@[k as int]@));
            }
            k += 1;
            assert(views(next@) =~= views(cur@).take(k as int));
        }
        let ghost before = views(next@);
        let mut m: usize = 0;
        while m < new_lines.len()
            invariant
                m <= new_lines@.len(),
                views(next@) == before + views(new_lines@).take(m as int),
            decreases new_lines.len() - m,
        {
            let item = slice_chars(&new_lines[m], 0, new_lines[m].len());
            let ghost prev = views(next@);
            next.push(item);
            proof {
                assert(new_lines@[m as int]@.subrange(0, new_lines@[m as int]@.len() as int)
                    =~= new_lines@[m as int]@);
                assert(views(next@) =~= prev.push(new_lines@[m as int]@));
            }
            m += 1;
            assert(views(next@) =~= before + views(new_lines@).take(m as int));
        }
        assert(views(new_lines@).take(new_lines@.len() as int) =~= views(new_lines@));
        let ghost mid = views(next@);
        let mut q: usize = end;
        while q < cur.len()
            invariant
                end <= q <= cur@.len(),
                views(next@) == mid + views(cur@).subrange(end as int, q as int),
            decreases cur.len() - q,
        {
            let item = slice_chars(&cur[q], 0, cur[q].len());
            let ghost prev = views(next@);
            next.push(item);
            proof {
                assert(cur@[q as int]@.subrange(0, cur@[q as int]@.len() as int) =~= cur@[q as int]@);
                assert(views(next@) =~= prev.push(cur@[q as int]@));
            }
            q += 1;
            assert(views(next@) =~= mid + views(cur@).subrange(end as int, q as int));
        }
        proof {
            assert(views(cur@).subrange(end as int, cur@.len() as int) =~= views(cur@).skip(end as int));
            assert(views(next@) =~= views(cur@).take(start - 1) + lines_of(
                replace_all(text@, old@, new@),
            ) + views(cur@).skip(end as int));
        }
        cur = next;
        i += 1;
    }
    assert(pv.skip(ps@.len() as int) =~= Seq::<NodePatch>::empty());
    cur
}

/// The text after renaming only inside the nodes found.
pub fn surgical_rename(content: &str, nodes: &Vec<JsonValue>, old: &str, new: &str) -> (r: String)
    requires
        apply_patches(
            lines_of(content@),
            sort_desc(node_patches(json_views(nodes@))),
            old@,
            new@,
        ) is Some,
    ensures
        r@ == surgical_text(content@, json_views(nodes@), old@, new@),
{
    let ps = collect_patches(nodes);
    let cc = chars_of(content);
    let lines = split_lines(&cc);
    let patched = patch_lines(lines, &ps, old, new);
    let mut joined = join_with_newlines(&patched);
    let ends_nl = cc.len() > 0 && cc[cc.len() - 1] == '\n';
    let joined_nl = joined.len() > 0 && joined[joined.len() - 1] == '\n';
    if ends_nl && !joined_nl {
        joined.push('\n');
    }
    string_of(&joined)
}

/// Whether the surgical rename's patches fit the text.
pub open spec fn patches_fit(content: Seq<char>, nodes: Seq<JsonView>, old: Seq<char>, new: Seq<char>) -> bool {
    apply_patches(lines_of(content), sort_desc(node_patches(nodes)), old, new) is Some
}

/// Whether the patches fit a text of `n` lines, each applied to the lines
/// the previous ones left, no text along the way having more than `bound`
/// lines.
pub open spec fn patches_fit_len(n: nat, ps: Seq<NodePatch>, old: Seq<char>, new: Seq<char>, bound: int) -> bool
    decreases ps.len(),
{
    if ps.len() == 0 {
        true
    } else {
        let p = ps[0];
        let next = (p.0 - 1) + lines_of(replace_all(p.2, old, new)).len() + (n - p.1);
        1 <= p.0 && p.0 - 1 <= p.1 <= n && next <= bound && patches_fit_len(
            next as nat,
            ps.drop_first(),
            old,
            new,
            bound,
        )
    }
}

proof fn lemma_patches_fit_len(lines: Seq<Seq<char>>, ps: Seq<NodePatch>, old: Seq<char>, new: Seq<char>, bound: int)
    ensures
        patches_fit_len(lines.len(), ps, old, new, bound) ==> apply_patches(lines, ps, old, new) is Some,
    decreases ps.len(),
{
    if ps.len() > 0 {
        let p = ps[0];
        if 1 <= p.0 && p.0 - 1 <= p.1 <= lines.len() {
            let next = lines.take(p.0 - 1) + lines_of(replace_all(p.2, old, new)) + lines.skip(p.1 as int);
            lemma_patches_fit_len(next, ps.drop_first(), old, new, bound);
        }
    }
}

/// Whether a surgical rename's patches fit the text, no text along the way
/// having more lines than a `usize` counts; when they do, `patches_fit`
/// holds.
pub fn patches_fit_text(content: &str, nodes: &Vec<JsonValue>, old: &str, new: &str) -> (r: bool)
    ensures
        r == patches_fit_len(
            lines_of(content@).len(),
            sort_desc(node_patches(json_views(nodes@))),
            old@,
            new@,
            usize::MAX as int,
        ),
        r ==> patches_fit(content@, json_views(nodes@), old@, new@),
{
    let ps = collect_patches(nodes);
    let ghost pv = patch_views(ps@);
    let cc = chars_of(content);
    let ls = split_lines(&cc);
    assert(views(ls@).len() == ls@.len());
    let mut n: usize = ls.len();
    proof {
        lemma_patches_fit_len(lines_of(content@), pv, old@, new@, usize::MAX as int);
        assert(pv.skip(0) =~= pv);
    }
    let mut i: usize = 0;
    while i < ps.len()
        invariant
            i <= ps@.len(),
            pv == patch_views(ps@),
            pv == sort_desc(node_patches(json_views(nodes@))),
            patches_fit_len(lines_of(content@).len(), pv, old@, new@, usize::MAX as int) == patches_fit_len(
                n as nat,
                pv.skip(i as int),
                old@,
                new@,
                usize::MAX as int,
            ),
        decreases ps.len() - i,
    {
        let ghost rest = pv.skip(i as int);
        proof {
            assert(rest.len() > 0);
            assert(rest[0] == pv[i as int]);
            assert(pv[i as int] == (ps@[i as int].0 as nat, ps@[i as int].1 as nat, ps@[i as int].2@));
            assert(rest.drop_first() =~= pv.skip(i + 1));
        }
        let (start, end) = (ps[i].0, ps[i].1);
        if !(1 <= start && start - 1 <= end && end <= n) {
            assert(!patches_fit_len(n as nat, rest, old@, new@, usize::MAX as int));
            return false;
        }
        let replaced = replace_str(ps[i].2.as_str(), old, new);
        let rc = chars_of(replaced.as_str());
        let new_lines = split_lines(&rc);
        assert(views(new_lines@).len() == new_lines@.len());
        let keep_before = start - 1;
        let keep_after = n - end;
        if new_lines.len() > usize::MAX - keep_before || keep_before + new_lines.len() > usize::MAX - keep_after {
            assert(lines_of(replace_all(rest[0].2, old@, new@)).len() == new_lines@.len());
            assert(!patches_fit_len(n as nat, rest, old@, new@, usize::MAX as int));
            return false;
        }
        n = keep_before + new_lines.len() + keep_after;
        i += 1;
    }
    true
}

impl Mutator {
    /// Plans a rename, given the file's text and the nodes the rename query
    /// found (`None` when the file's kind has no structure or parsing or
    /// querying failed): with nodes found, replace everywhere in the file
    /// (file scope) or only inside the nodes; with none found under the
    /// precise query, report the symbol missing; otherwise replace
    /// everywhere and warn that no structure was used.
    pub fn plan_rename(args: &RenameSymbolArgs, content: &str, found: Option<&Vec<JsonValue>>) -> (r:
        RenamePlan)
        requires
            found matches Some(ns) ==> (ns@.len() > 0 && !file_scope(args.scope) ==> patches_fit(
                content@,
                json_views(ns@),
                args.old_name@,
                args.new_name@,
            )),
        ensures
            match found {
                Some(ns) if ns@.len() > 0 => {
                    let file = file_scope(args.scope);
                    r matches RenamePlan::Write { content: c, result, advisory } && c@ == (if file {
                        replace_all(content@, args.old_name@, args.new_name@)
                    } else {
                        surgical_text(content@, json_views(ns@), args.old_name@, args.new_name@)
                    }) && result == (RenameResult {
                        files_modified: 1,
                        symbols_renamed: ns@.len() as usize,
                        backups_created: 1,
                    }) && tool_text(
                        advisory,
                        crate::advisory::AdvisoryLevel::Info,
                        renamed_message(args.old_name@, args.new_name@, ns@.len() as nat, file, args.scope),
                    )
                },
                Some(ns) if !file_scope(args.scope) => r matches RenamePlan::NotFound { error, advisory }
                    && (error matches IvaldiError::Query(m) && m@ == "Symbol '"@ + args.old_name@
                    + "' not found in "@ + args.path@ + " structure ("@ + rename_query_spec(
                    match args.symbol_type {
                        Some(t) => Some(t@),
                        None => None,
                    },
                    args.old_name@,
                ) + ")"@) && tool_text(
                    advisory,
                    crate::advisory::AdvisoryLevel::Info,
                    "Try setting scope='file' for a broader search."@,
                ),
                _ => r matches RenamePlan::Write { content: c, result, advisory } && c@ == replace_all(
                    content@,
                    args.old_name@,
                    args.new_name@,
                ) && result == (RenameResult {
                    files_modified: 1,
                    symbols_renamed: 1,
                    backups_created: 1,
                }) && advisory.level == crate::advisory::AdvisoryLevel::Warn && json_view(
                    advisory.content,
                ) == hammer_warning(),
            },
    {
        let file = is_file_scope(&args.scope);
        match found {
            Some(ns) => {
                if ns.len() > 0 {
                    let new_content = if file {
                        replace_str(content, args.old_name.as_str(), args.new_name.as_str())
                    } else {
                        surgical_rename(content, ns, args.old_name.as_str(), args.new_name.as_str())
                    };
                    let mut msg = chars_of("Renamed '");
                    append_str(&mut msg, args.old_name.as_str());
                    append_str(&mut msg, "' -> '");
                    append_str(&mut msg, args.new_name.as_str());
                    append_str(&mut msg, "' in ");
                    append_chars(&mut msg, &decimal_chars(ns.len()));
                    append_str(&mut msg, " locations using ");
                    append_str(
                        &mut msg,
                        if file {
                            "Smart Hammer (AST-validated global replace)"
                        } else {
                            "Surgical Scalpel (AST node only)"
                        },
                    );
                    append_str(&mut msg, " (scope: ");
                    match &args.scope {
                        Some(s) => append_str(&mut msg, s.as_str()),
                        None => append_str(&mut msg, "default"),
                    }
                    append_str(&mut msg, ").");
                    let m = string_of(&msg);
                    return RenamePlan::Write {
                        content: new_content,
                        result: RenameResult { files_modified: 1, symbols_renamed: ns.len(), backups_created: 1 },
                        advisory: AdvisoryMessage::tool_info(JsonValue::text(m.as_str())),
                    };
                }
                if !file {
                    let q = Mutator::rename_query(args);
                    let mut msg = chars_of("Symbol '");
                    append_str(&mut msg, args.old_name.as_str());
                    append_str(&mut msg, "' not found in ");
                    append_str(&mut msg, args.path.as_str());
                    append_str(&mut msg, " structure (");
                    append_str(&mut msg, q.as_str());
                    append_str(&mut msg, ")");
                    return RenamePlan::NotFound {
                        error: IvaldiError::Query(string_of(&msg)),
                        advisory: AdvisoryMessage::tool_info(
                            JsonValue::text("Try setting scope='file' for a broader search."),
                        ),
                    };
                }
            },
            None => {},
        }
        let new_content = replace_str(content, args.old_name.as_str(), args.new_name.as_str());
        let mut es: Vec<JsonEntry> = Vec::new();
        assert(entries_view(es@) =~= Seq::empty());
        crate::heuristics::push_entry(
            &mut es,
            "message",
            JsonValue::text(
                "AST-aware renaming not possible for this file type. Fell back to global replacement (The Hammer).",
            ),
        );
        crate::heuristics::push_entry(&mut es, "issue", JsonValue::text("hammer_fallback"));
        crate::heuristics::push_entry(
            &mut es,
            "suggestion",
            JsonValue::text(
                "Use surgical 'edit_file' for more sensitive changes in unsupported file types.",
            ),
        );
        proof {
            match hammer_warning() {
                JsonView::Object(x) => {
                    assert(entries_view(es@) =~= x);
                },
                _ => {},
            }
        }
        RenamePlan::Write {
            content: new_content,
            result: RenameResult { files_modified: 1, symbols_renamed: 1, backups_created: 1 },
            advisory: AdvisoryMessage::tool_warn(JsonValue::Object(es)),
        }
    }
}


// ---------------------------------------------------------------------------
// Reporting edits
// ---------------------------------------------------------------------------

/// The error an edit failure is reported as.
pub open spec fn edit_error_spec(e: RichEditError) -> (Seq<char>, Seq<char>) {
    match e {
        RichEditError::NoMatch(_) => ("query_error"@, "No nodes matched query"@),
        RichEditError::Ambiguous(_) => ("query_error"@, "Ambiguous edit: multiple nodes matched"@),
        RichEditError::InvalidLineRange(m) => ("invalid_arg"@, m@),
        RichEditError::GrepNoMatch(_) => ("query_error"@, "No line matched grep pattern"@),
        RichEditError::GrepAmbiguous(_) => (
            "query_error"@,
            "Ambiguous edit: multiple lines matched grep pattern"@,
        ),
        RichEditError::MissingLineStart => ("internal_error"@, "AST node missing line_start"@),
        RichEditError::MissingLineEnd => ("internal_error"@, "AST node missing line_end"@),
        RichEditError::IndentationMismatch(r, t) => (
            "invalid_arg"@,
            "Indentation mismatch: replacement has "@ + decimal(r as nat) + " spaces, target has "@
                + decimal(t as nat)
                + " spaces. Write at indent 0 (tool shifts) or at exact target indent ("@ + decimal(
                t as nat,
            ) + " spaces)."@,
        ),
        RichEditError::InvalidPattern(m) => ("internal_error"@, "Internal error: "@ + m@),
    }
}

/// The code and payload of an error.
pub open spec fn error_parts(e: IvaldiError) -> (Seq<char>, Seq<char>) {
    (crate::error::code_of(e), crate::error::payload_of(e))
}

/// The unified diff of two texts, with `radius` lines of context and the
/// same header on both sides.
pub uninterp spec fn unified_diff_of(old: Seq<char>, new: Seq<char>, radius: nat, header: Seq<char>) -> Seq<char>;

/// `similar::TextDiff::from_lines` rendered by `unified_diff` with the
/// given context radius and header.  The text is named: it depends on the
/// arguments alone.
#[verifier::external_body]
fn unified_diff(old: &str, new: &str, radius: usize, header: &str) -> (r: String)
    ensures
        r@ == unified_diff_of(old@, new@, radius as nat, header@),
{
    similar::TextDiff::from_lines(old, new).unified_diff().context_radius(radius).header(header, header).to_string()
}

/// Diff lines that add or remove text.
pub open spec fn changed_lines(ls: Seq<Seq<char>>) -> nat
    decreases ls.len(),
{
    if ls.len() == 0 {
        0
    } else {
        changed_lines(ls.drop_last()) + if ls.last().len() > 0 && (ls.last()[0] == '+'
            || ls.last()[0] == '-') {
            1nat
        } else {
            0nat
        }
    }
}

/// The first `n` characters (all of them when there are fewer).
pub open spec fn first_chars(s: Seq<char>, n: nat) -> Seq<char> {
    if s.len() <= n {
        s
    } else {
        s.take(n as int)
    }
}

/// A diff shown to people: in a fenced `diff` block.
pub open spec fn diff_block(d: Seq<char>) -> Seq<char> {
    "```diff\n"@ + d + "\n```"@
}

impl Mutator {
    /// The error an edit failure is reported as.
    pub fn edit_error(e: &RichEditError) -> (r: IvaldiError)
        ensures
            error_parts(r) == edit_error_spec(*e),
    {
        match e {
            RichEditError::NoMatch(_) => IvaldiError::Query("No nodes matched query".to_owned()),
            RichEditError::Ambiguous(_) => IvaldiError::Query(
                "Ambiguous edit: multiple nodes matched".to_owned(),
            ),
            RichEditError::InvalidLineRange(m) => IvaldiError::InvalidArgument(m.clone()),
            RichEditError::GrepNoMatch(_) => IvaldiError::Query("No line matched grep pattern".to_owned()),
            RichEditError::GrepAmbiguous(_) => IvaldiError::Query(
                "Ambiguous edit: multiple lines matched grep pattern".to_owned(),
            ),
            RichEditError::MissingLineStart => IvaldiError::Internal("AST node missing line_start".to_owned()),
            RichEditError::MissingLineEnd => IvaldiError::Internal("AST node missing line_end".to_owned()),
            RichEditError::IndentationMismatch(rep, target) => {
                let mut v = chars_of("Indentation mismatch: replacement has ");
                append_chars(&mut v, &decimal_chars(*rep));
                append_str(&mut v, " spaces, target has ");
                append_chars(&mut v, &decimal_chars(*target));
                append_str(&mut v, " spaces. Write at indent 0 (tool shifts) or at exact target indent (");
                append_chars(&mut v, &decimal_chars(*target));
                append_str(&mut v, " spaces).");
                IvaldiError::InvalidArgument(string_of(&v))
            },
            RichEditError::InvalidPattern(m) => {
                let mut v = chars_of("Internal error: ");
                append_str(&mut v, m.as_str());
                IvaldiError::Internal(string_of(&v))
            },
        }
    }

    /// Records the edited file's path in the context an edit failure
    /// carries.
    pub fn set_context_path(e: &mut RichEditError, path: &str)
        ensures
            match *final(e) {
                RichEditError::NoMatch(c) => c.file_info.path@ == path@,
                RichEditError::Ambiguous(c) => c.file_info.path@ == path@,
                RichEditError::GrepNoMatch(c) => c.file_info.path@ == path@,
                RichEditError::GrepAmbiguous(c) => c.file_info.path@ == path@,
                _ => *final(e) == *old(e),
            },
    {
        match e {
            RichEditError::NoMatch(c) => {
                c.file_info.path = path.to_owned();
            },
            RichEditError::Ambiguous(c) => {
                c.file_info.path = path.to_owned();
            },
            RichEditError::GrepNoMatch(c) => {
                c.file_info.path = path.to_owned();
            },
            RichEditError::GrepAmbiguous(c) => {
                c.file_info.path = path.to_owned();
            },
            _ => {},
        }
    }

    /// The diff shown for an edit of `path`, when the texts differ in a way
    /// the diff shows.
    pub fn diff_for(old: &str, new: &str, path: &str) -> (r: Option<String>)
        ensures
            ({
                let d = unified_diff_of(old@, new@, 3, path@);
                &&& d.len() == 0 ==> r is None
                &&& d.len() > 0 ==> (r matches Some(b) && b@ == diff_block(d))
            }),
    {
        let d = unified_diff(old, new, 3, path);
        let dc = chars_of(d.as_str());
        if dc.len() == 0 {
            None
        } else {
            let mut v = chars_of("```diff\n");
            append_chars(&mut v, &dc);
            append_str(&mut v, "\n```");
            Some(string_of(&v))
        }
    }

    /// What an edit would change, without writing it: the diff, the first
    /// 500 characters before and after, and the number of diff lines that
    /// add or remove text.
    pub fn preview(path: &str, original: &str, modified: &str, heuristics: &Vec<String>) -> (r:
        EditPreview)
        ensures
            r.path@ == path@,
            r.diff@ == unified_diff_of(original@, modified@, 3, path@),
            r.original_preview@ == first_chars(original@, 500),
            r.modified_preview@ == first_chars(modified@, 500),
            r.lines_changed == changed_lines(lines_of(unified_diff_of(original@, modified@, 3, path@))),
            string_views(r.heuristics_triggered@) == string_views(heuristics@),
    {
        let d = unified_diff(original, modified, 3, path);
        let dc = chars_of(d.as_str());
        let ls = split_lines(&dc);
        let mut n: usize = 0;
        let mut i: usize = 0;
        while i < ls.len()
            invariant
                i <= ls@.len(),
                n <= i,
                n == changed_lines(views(ls@).take(i as int)),
            decreases ls.len() - i,
        {
            proof {
                assert(views(ls@).take(i + 1).drop_last() =~= views(ls@).take(i as int));
                assert(views(ls@).take(i + 1).last() == ls@[i as int]@);
            }
            let l = &ls[i];
            if l.len() > 0 && (l[0] == '+' || l[0] == '-') {
                n += 1;
            }
            i += 1;
        }
        assert(views(ls@).take(ls@.len() as int) =~= views(ls@));
        let oc = chars_of(original);
        let mc = chars_of(modified);
        let op = if oc.len() <= 500 { slice_chars(&oc, 0, oc.len()) } else { slice_chars(&oc, 0, 500) };
        let mp = if mc.len() <= 500 { slice_chars(&mc, 0, mc.len()) } else { slice_chars(&mc, 0, 500) };
        proof {
            assert(oc@.subrange(0, oc@.len() as int) =~= oc@);
            assert(mc@.subrange(0, mc@.len() as int) =~= mc@);
        }
        let mut hs: Vec<String> = Vec::new();
        let mut j: usize = 0;
        while j < heuristics.len()
            invariant
                j <= heuristics@.len(),
                string_views(hs@) == string_views(heuristics@).take(j as int),
            decreases heuristics.len() - j,
        {
            let ghost prev = string_views(hs@);
            hs.push(heuristics[j].clone());
            assert(string_views(hs@) =~= prev.push(heuristics@[j as int]@));
            j += 1;
            assert(string_views(hs@) =~= string_views(heuristics@).take(j as int));
        }
        assert(string_views(heuristics@).take(heuristics@.len() as int) =~= string_views(heuristics@));
        EditPreview {
            path: path.to_owned(),
            diff: d,
            original_preview: string_of(&op),
            modified_preview: string_of(&mp),
            lines_changed: n,
            heuristics_triggered: hs,
        }
    }
}

} // verus!
