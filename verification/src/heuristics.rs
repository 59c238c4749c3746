//! Opinionated checks that add advice around file operations: temporary
//! files, permission failures, syntax of written sources, and names close
//! to a missing file.
use vstd::prelude::*;
use crate::advisory::{AdvisoryLevel, AdvisoryMessage, AdvisorySource};
use crate::json_edit::{entries_view, json_view, JsonEntry, JsonValue, JsonView};
use crate::kind::{kind_name, SourceKind};
use crate::response::ErrorDetail;
use crate::similarity::lev;
use crate::text::{
    append_chars, append_str, chars_of, contains, contains_chars, decimal, decimal_u64, lowercase,
    octal, octal_u32, string_of, string_views, to_lowercase, utf8_len, utf8_len_gt,
};

verus! {

// ---------------------------------------------------------------------------
// Building JSON objects
// ---------------------------------------------------------------------------

/// A JSON string view.
pub open spec fn jstr(s: Seq<char>) -> JsonView {
    JsonView::Str(s)
}

/// JSON string views of texts.
pub open spec fn jstrs(ns: Seq<Seq<char>>) -> Seq<JsonView> {
    ns.map_values(|n: Seq<char>| jstr(n))
}

/// A JSON number view of a natural number.
pub open spec fn jnum(n: nat) -> JsonView {
    JsonView::Number(decimal(n))
}

pub(crate) fn push_entry(es: &mut Vec<JsonEntry>, key: &str, value: JsonValue)
    ensures
        entries_view(final(es)@) == entries_view(old(es)@).push((key@, json_view(value))),
{
    let ghost before = es@;
    let e = JsonEntry { key: key.to_owned(), value };
    es.push(e);
    assert(es@.drop_last() =~= before);
}

fn jtext(s: &str) -> (r: JsonValue)
    ensures
        json_view(r) == jstr(s@),
{
    JsonValue::Str(s.to_owned())
}

fn jchars(v: &Vec<char>) -> (r: JsonValue)
    ensures
        json_view(r) == jstr(v@),
{
    JsonValue::Str(string_of(v))
}

fn jnum32(n: u32) -> (r: JsonValue)
    ensures
        json_view(r) == jnum(n as nat),
{
    JsonValue::Number(string_of(&decimal_u64(n as u64)))
}

fn jnum64(n: u64) -> (r: JsonValue)
    ensures
        json_view(r) == jnum(n as nat),
{
    JsonValue::Number(string_of(&decimal_u64(n)))
}

// ---------------------------------------------------------------------------
// Temporary files
// ---------------------------------------------------------------------------

/// Notices writes to temporary files, which are likely ignored by git.
pub struct GitAwareness;

/// The advice given about an existing temporary file.
pub open spec fn git_tmp_content() -> JsonView {
    JsonView::Object(
        seq![
            ("git_status"@, jstr("ignored"@)),
            ("reason"@, jstr("Temporary file detected. This file is likely gitignored."@)),
            ("action"@, jstr("Ignore this file and focus on source files."@)),
        ],
    )
}

impl GitAwareness {
    /// Advice for a path before an operation: an existing file whose path
    /// ends in `.tmp` is probably ignored by git.
    pub fn check_pre(path: &str, exists: bool) -> (r: Option<AdvisoryMessage>)
        ensures
            ({
                let p = path@;
                let is_tmp = p.len() >= 4 && p.skip(p.len() - 4) == ".tmp"@;
                &&& r is Some <==> (exists && is_tmp)
                &&& r matches Some(a) ==> a.source == AdvisorySource::Tool && a.level
                    == AdvisoryLevel::Info && json_view(a.content) == git_tmp_content() && a.action
                    is None && a.reference is None
            }),
    {
        let pc = chars_of(path);
        let n = pc.len();
        let suffix = chars_of(".tmp");
        proof {
            reveal_strlit(".tmp");
        }
        let is_tmp = n >= 4 && pc[n - 4] == '.' && pc[n - 3] == 't' && pc[n - 2] == 'm' && pc[n
            - 1] == 'p';
        proof {
            if n >= 4 {
                let t = pc@.skip(n - 4);
                if is_tmp {
                    assert(t =~= ".tmp"@);
                } else {
                    assert(t != ".tmp"@) by {
                        if t == ".tmp"@ {
                            assert(t[0] == pc@[n - 4]);
                            assert(t[1] == pc@[n - 3]);
                            assert(t[2] == pc@[n - 2]);
                            assert(t[3] == pc@[n - 1]);
                        }
                    }
                }
            }
        }
        if exists && is_tmp {
            let mut es: Vec<JsonEntry> = Vec::new();
            push_entry(&mut es, "git_status", jtext("ignored"));
            push_entry(
                &mut es,
                "reason",
                jtext("Temporary file detected. This file is likely gitignored."),
            );
            push_entry(&mut es, "action", jtext("Ignore this file and focus on source files."));
            proof {
                assert(entries_view(es@) =~= seq![
                    ("git_status"@, jstr("ignored"@)),
                    ("reason"@, jstr("Temporary file detected. This file is likely gitignored."@)),
                    ("action"@, jstr("Ignore this file and focus on source files."@)),
                ]);
            }
            Some(AdvisoryMessage::tool_info(JsonValue::Object(es)))
        } else {
            None
        }
    }

    /// The same check, for callers that do not name an operation.
    pub fn apply(path: &str, exists: bool) -> (r: Option<AdvisoryMessage>)
        ensures
            ({
                let p = path@;
                r is Some <==> (exists && p.len() >= 4 && p.skip(p.len() - 4) == ".tmp"@)
            }),
    {
        GitAwareness::check_pre(path, exists)
    }
}

/// Advice after a failure to create a file's parent directory (none yet).
pub struct ParentDirectoryHint;

impl ParentDirectoryHint {
    /// No advice is given.
    pub fn apply(path: &str) -> (r: Option<AdvisoryMessage>)
        ensures
            r is None,
    {
        None
    }
}

// ---------------------------------------------------------------------------
// Permission failures
// ---------------------------------------------------------------------------

/// Reports the permission facts around a failed operation, without
/// proposing a fix.
pub struct PermissionFixer;

/// The user and group ids of the running process.
#[derive(Debug, Clone, Copy)]
pub struct ProcessIds {
    pub uid: u32,
    pub gid: u32,
    pub euid: u32,
    pub egid: u32,
}

/// Metadata of a file or directory.
#[derive(Debug, Clone, Copy)]
pub struct FileFacts {
    pub is_file: bool,
    pub is_dir: bool,
    pub size: u64,
    /// Unix mode bits, file type included.
    pub mode: u32,
    pub uid: u32,
    pub gid: u32,
}

/// What is known about a path.
#[derive(Debug, Clone, Copy)]
pub enum PathState {
    Missing,
    /// The path exists but its metadata could not be read.
    Unreadable,
    Present(FileFacts),
}

/// The facts gathered when an operation on a path failed.
#[derive(Debug, Clone)]
pub struct PermissionSnapshot {
    pub process: ProcessIds,
    pub target: PathState,
    /// The parent directory, when the path has one.
    pub parent: Option<(String, PathState)>,
}

/// A failure that reports denied permission.
pub open spec fn is_permission_error_spec(code: Seq<char>, message: Seq<char>) -> bool {
    code == "13"@ || code == "EACCES"@ || contains(message, "Permission denied"@) || contains(
        message,
        "OS Error 13"@,
    )
}

/// `c` when the flag is set, `-` otherwise.
pub open spec fn flag(b: bool, c: char) -> char {
    if b {
        c
    } else {
        '-'
    }
}

/// A mode in `ls` form: the type (`d` or `-`) and the nine permission bits.
pub open spec fn mode_symbolic(m: u32) -> Seq<char> {
    seq![
        if m & 0o170000u32 == 0o040000u32 { 'd' } else { '-' },
        flag(m & 0o400u32 != 0, 'r'),
        flag(m & 0o200u32 != 0, 'w'),
        flag(m & 0o100u32 != 0, 'x'),
        flag(m & 0o040u32 != 0, 'r'),
        flag(m & 0o020u32 != 0, 'w'),
        flag(m & 0o010u32 != 0, 'x'),
        flag(m & 0o004u32 != 0, 'r'),
        flag(m & 0o002u32 != 0, 'w'),
        flag(m & 0o001u32 != 0, 'x'),
    ]
}

/// The mode fields every snapshot of a present path shows.
pub open spec fn mode_entries(f: FileFacts) -> Seq<(Seq<char>, JsonView)> {
    seq![
        ("mode"@, jstr(octal(f.mode as nat))),
        ("mode_octal"@, jstr(seq!['0'] + octal((f.mode & 0o7777u32) as nat))),
        ("mode_symbolic"@, jstr(mode_symbolic(f.mode))),
        ("uid"@, jnum(f.uid as nat)),
        ("gid"@, jnum(f.gid as nat)),
    ]
}

/// The snapshot of the failed path.
pub open spec fn target_json(t: PathState, uid: u32) -> JsonView {
    match t {
        PathState::Missing => JsonView::Object(seq![("exists"@, JsonView::Bool(false))]),
        PathState::Unreadable => JsonView::Object(
            seq![
                ("exists"@, JsonView::Bool(true)),
                ("metadata_error"@, jstr("Could not read metadata"@)),
            ],
        ),
        PathState::Present(f) => JsonView::Object(
            seq![
                ("exists"@, JsonView::Bool(true)),
                ("is_file"@, JsonView::Bool(f.is_file)),
                ("is_dir"@, JsonView::Bool(f.is_dir)),
                ("size_bytes"@, jnum(f.size as nat)),
            ] + mode_entries(f) + seq![
                ("readable"@, JsonView::Bool(f.mode & 0o400u32 != 0 && uid == f.uid)),
                ("writable"@, JsonView::Bool(f.mode & 0o200u32 != 0 && uid == f.uid)),
                ("executable"@, JsonView::Bool(f.mode & 0o100u32 != 0 && uid == f.uid)),
            ],
        ),
    }
}

/// The snapshot of the failed path's parent directory.
pub open spec fn parent_json(path: Seq<char>, t: PathState, uid: u32) -> JsonView {
    JsonView::Object(
        seq![("path"@, jstr(path))] + match t {
            PathState::Missing => seq![("exists"@, JsonView::Bool(false))],
            PathState::Unreadable => seq![
                ("exists"@, JsonView::Bool(true)),
                ("metadata_error"@, jstr("Could not read metadata"@)),
            ],
            PathState::Present(f) => seq![("exists"@, JsonView::Bool(true))] + mode_entries(f)
                + seq![("writable"@, JsonView::Bool(f.mode & 0o200u32 != 0 && uid == f.uid))],
        },
    )
}

/// The whole permission report.
pub open spec fn permission_json(path: Seq<char>, s: PermissionSnapshot) -> JsonView {
    JsonView::Object(
        seq![
            ("error_code"@, jstr("EACCES"@)),
            ("path"@, jstr(path)),
            (
                "process"@,
                JsonView::Object(
                    seq![
                        ("uid"@, jnum(s.process.uid as nat)),
                        ("gid"@, jnum(s.process.gid as nat)),
                        ("euid"@, jnum(s.process.euid as nat)),
                        ("egid"@, jnum(s.process.egid as nat)),
                    ],
                ),
            ),
            ("target"@, target_json(s.target, s.process.uid)),
        ] + match s.parent {
            Some((pp, ps)) => seq![("parent"@, parent_json(pp@, ps, s.process.uid))],
            None => Seq::empty(),
        },
    )
}

/// A mode in `ls` form, such as `drwxr-xr-x`.
pub fn format_mode_symbolic(mode: u32) -> (r: String)
    ensures
        r@ == mode_symbolic(mode),
{
    let mut v: Vec<char> = Vec::new();
    v.push(if mode & 0o170000 == 0o040000 { 'd' } else { '-' });
    v.push(if mode & 0o400 != 0 { 'r' } else { '-' });
    v.push(if mode & 0o200 != 0 { 'w' } else { '-' });
    v.push(if mode & 0o100 != 0 { 'x' } else { '-' });
    v.push(if mode & 0o040 != 0 { 'r' } else { '-' });
    v.push(if mode & 0o020 != 0 { 'w' } else { '-' });
    v.push(if mode & 0o010 != 0 { 'x' } else { '-' });
    v.push(if mode & 0o004 != 0 { 'r' } else { '-' });
    v.push(if mode & 0o002 != 0 { 'w' } else { '-' });
    v.push(if mode & 0o001 != 0 { 'x' } else { '-' });
    assert(v@ =~= mode_symbolic(mode));
    string_of(&v)
}

fn push_mode_entries(es: &mut Vec<JsonEntry>, f: FileFacts)
    ensures
        entries_view(final(es)@) == entries_view(old(es)@) + mode_entries(f),
{
    let ghost base = entries_view(es@);
    let ghost m = mode_entries(f);
    push_entry(es, "mode", jchars(&octal_u32(f.mode)));
    let mut mo = chars_of("0");
    append_chars(&mut mo, &octal_u32(f.mode & 0o7777));
    proof {
        reveal_strlit("0");
        assert("0"@ =~= seq!['0']);
        assert(mo@ == seq!['0'] + octal((f.mode & 0o7777u32) as nat));
    }
    push_entry(es, "mode_octal", jchars(&mo));
    push_entry(es, "mode_symbolic", JsonValue::Str(format_mode_symbolic(f.mode)));
    push_entry(es, "uid", jnum32(f.uid));
    push_entry(es, "gid", jnum32(f.gid));
    assert(entries_view(es@) =~= base.push(m[0]).push(m[1]).push(m[2]).push(m[3]).push(m[4]));
    assert(entries_view(es@) =~= base + mode_entries(f));
}

fn target_value(t: PathState, uid: u32) -> (r: JsonValue)
    ensures
        json_view(r) == target_json(t, uid),
{
    let mut es: Vec<JsonEntry> = Vec::new();
    assert(entries_view(es@) =~= Seq::empty());
    match t {
        PathState::Missing => {
            push_entry(&mut es, "exists", JsonValue::Bool(false));
        },
        PathState::Unreadable => {
            push_entry(&mut es, "exists", JsonValue::Bool(true));
            push_entry(&mut es, "metadata_error", jtext("Could not read metadata"));
        },
        PathState::Present(f) => {
            push_entry(&mut es, "exists", JsonValue::Bool(true));
            push_entry(&mut es, "is_file", JsonValue::Bool(f.is_file));
            push_entry(&mut es, "is_dir", JsonValue::Bool(f.is_dir));
            push_entry(&mut es, "size_bytes", jnum64(f.size));
            push_mode_entries(&mut es, f);
            push_entry(&mut es, "readable", JsonValue::Bool(f.mode & 0o400 != 0 && uid == f.uid));
            push_entry(&mut es, "writable", JsonValue::Bool(f.mode & 0o200 != 0 && uid == f.uid));
            push_entry(&mut es, "executable", JsonValue::Bool(f.mode & 0o100 != 0 && uid == f.uid));
        },
    }
    proof {
        match t {
            PathState::Present(f) => {
                assert(entries_view(es@) =~= seq![
                    ("exists"@, JsonView::Bool(true)),
                    ("is_file"@, JsonView::Bool(f.is_file)),
                    ("is_dir"@, JsonView::Bool(f.is_dir)),
                    ("size_bytes"@, jnum(f.size as nat)),
                ] + mode_entries(f) + seq![
                    ("readable"@, JsonView::Bool(f.mode & 0o400u32 != 0 && uid == f.uid)),
                    ("writable"@, JsonView::Bool(f.mode & 0o200u32 != 0 && uid == f.uid)),
                    ("executable"@, JsonView::Bool(f.mode & 0o100u32 != 0 && uid == f.uid)),
                ]);
            },
            PathState::Missing => {
                assert(entries_view(es@) =~= seq![("exists"@, JsonView::Bool(false))]);
            },
            PathState::Unreadable => {
                assert(entries_view(es@) =~= seq![
                    ("exists"@, JsonView::Bool(true)),
                    ("metadata_error"@, jstr("Could not read metadata"@)),
                ]);
            },
        }
    }
    JsonValue::Object(es)
}

fn parent_value(path: &String, t: PathState, uid: u32) -> (r: JsonValue)
    ensures
        json_view(r) == parent_json(path@, t, uid),
{
    let mut es: Vec<JsonEntry> = Vec::new();
    assert(entries_view(es@) =~= Seq::empty());
    push_entry(&mut es, "path", JsonValue::Str(path.clone()));
    let ghost base = entries_view(es@);
    match t {
        PathState::Missing => {
            push_entry(&mut es, "exists", JsonValue::Bool(false));
        },
        PathState::Unreadable => {
            push_entry(&mut es, "exists", JsonValue::Bool(true));
            push_entry(&mut es, "metadata_error", jtext("Could not read metadata"));
        },
        PathState::Present(f) => {
            push_entry(&mut es, "exists", JsonValue::Bool(true));
            push_mode_entries(&mut es, f);
            push_entry(&mut es, "writable", JsonValue::Bool(f.mode & 0o200 != 0 && uid == f.uid));
        },
    }
    proof {
        match t {
            PathState::Present(f) => {
                assert(entries_view(es@) =~= base + (seq![("exists"@, JsonView::Bool(true))]
                    + mode_entries(f) + seq![
                    ("writable"@, JsonView::Bool(f.mode & 0o200u32 != 0 && uid == f.uid)),
                ]));
            },
            PathState::Missing => {
                assert(entries_view(es@) =~= base + seq![("exists"@, JsonView::Bool(false))]);
            },
            PathState::Unreadable => {
                assert(entries_view(es@) =~= base + seq![
                    ("exists"@, JsonView::Bool(true)),
                    ("metadata_error"@, jstr("Could not read metadata"@)),
                ]);
            },
        }
    }
    JsonValue::Object(es)
}

fn has_text(s: &String, p: &str) -> (r: bool)
    ensures
        r == contains(s@, p@),
{
    let sc = chars_of(s.as_str());
    let pc = chars_of(p);
    contains_chars(&sc, &pc)
}

fn same_text(s: &String, p: &str) -> (r: bool)
    ensures
        r == (s@ == p@),
{
    let sc = chars_of(s.as_str());
    let pc = chars_of(p);
    crate::text::chars_eq(&sc, &pc)
}

impl PermissionFixer {
    /// Whether an error reports denied permission (code 13 or `EACCES`, or
    /// a message saying so).
    pub fn is_permission_error(err: &ErrorDetail) -> (r: bool)
        ensures
            r == is_permission_error_spec(err.code@, err.message@),
    {
        same_text(&err.code, "13") || same_text(&err.code, "EACCES") || has_text(
            &err.message,
            "Permission denied",
        ) || has_text(&err.message, "OS Error 13")
    }

    /// After a failed operation on `path`: for a permission error, a warning
    /// holding the process's ids and the permissions of the path and its
    /// parent; nothing otherwise.
    pub fn check_post(path: &str, error: Option<&ErrorDetail>, facts: &PermissionSnapshot) -> (r:
        Option<AdvisoryMessage>)
        ensures
            match error {
                Some(e) => if is_permission_error_spec(e.code@, e.message@) {
                    r matches Some(a) && a.source == AdvisorySource::Tool && a.level
                        == AdvisoryLevel::Warn && json_view(a.content) == permission_json(
                        path@,
                        *facts,
                    ) && a.action is None && a.reference is None
                } else {
                    r is None
                },
                None => r is None,
            },
    {
        match error {
            Some(err) => {
                if !PermissionFixer::is_permission_error(err) {
                    return None;
                }
            },
            None => {
                return None;
            },
        }
        let mut es: Vec<JsonEntry> = Vec::new();
        assert(entries_view(es@) =~= Seq::empty());
        push_entry(&mut es, "error_code", jtext("EACCES"));
        push_entry(&mut es, "path", jtext(path));
        let mut pe: Vec<JsonEntry> = Vec::new();
        assert(entries_view(pe@) =~= Seq::empty());
        push_entry(&mut pe, "uid", jnum32(facts.process.uid));
        push_entry(&mut pe, "gid", jnum32(facts.process.gid));
        push_entry(&mut pe, "euid", jnum32(facts.process.euid));
        push_entry(&mut pe, "egid", jnum32(facts.process.egid));
        assert(entries_view(pe@) =~= seq![
            ("uid"@, jnum(facts.process.uid as nat)),
            ("gid"@, jnum(facts.process.gid as nat)),
            ("euid"@, jnum(facts.process.euid as nat)),
            ("egid"@, jnum(facts.process.egid as nat)),
        ]);
        push_entry(&mut es, "process", JsonValue::Object(pe));
        push_entry(&mut es, "target", target_value(facts.target, facts.process.uid));
        let ghost base = entries_view(es@);
        match &facts.parent {
            Some((pp, ps)) => {
                push_entry(&mut es, "parent", parent_value(pp, *ps, facts.process.uid));
            },
            None => {},
        }
        proof {
            assert(entries_view(es@) =~= seq![
                ("error_code"@, jstr("EACCES"@)),
                ("path"@, jstr(path@)),
                (
                    "process"@,
                    JsonView::Object(
                        seq![
                            ("uid"@, jnum(facts.process.uid as nat)),
                            ("gid"@, jnum(facts.process.gid as nat)),
                            ("euid"@, jnum(facts.process.euid as nat)),
                            ("egid"@, jnum(facts.process.egid as nat)),
                        ],
                    ),
                ),
                ("target"@, target_json(facts.target, facts.process.uid)),
            ] + match facts.parent {
                Some((pp, ps)) => seq![("parent"@, parent_json(pp@, ps, facts.process.uid))],
                None => Seq::empty(),
            });
        }
        Some(AdvisoryMessage::tool_warn(JsonValue::Object(es)))
    }

    /// The same check for an I/O failure, described by its OS error number
    /// (`unknown` when it has none) and its message.
    pub fn apply(path: &str, os_error: Option<i32>, message: &str, facts: &PermissionSnapshot) -> (r:
        Option<AdvisoryMessage>)
        ensures
            ({
                let code = match os_error {
                    Some(n) => if n >= 0 {
                        decimal(n as nat)
                    } else {
                        seq!['-'] + decimal((-n) as nat)
                    },
                    None => "unknown"@,
                };
                &&& r is Some <==> is_permission_error_spec(code, message@)
                &&& r matches Some(a) ==> json_view(a.content) == permission_json(path@, *facts)
            }),
    {
        let code: String = match os_error {
            Some(n) => {
                if n >= 0 {
                    string_of(&decimal_u64(n as u64))
                } else {
                    let mut v = chars_of("-");
                    append_chars(&mut v, &decimal_u64((0 - (n as i64)) as u64));
                    proof {
                        reveal_strlit("-");
                    }
                    string_of(&v)
                }
            },
            None => "unknown".to_owned(),
        };
        proof {
            reveal_strlit("-");
            assert("-"@ =~= seq!['-']);
        }
        let detail = ErrorDetail { code, message: message.to_owned(), hint: None, context: None };
        PermissionFixer::check_post(path, Some(&detail), facts)
    }
}

// ---------------------------------------------------------------------------
// Syntax of written sources
// ---------------------------------------------------------------------------

/// Reports, after a source file was written, whether it still parses.
pub struct SyntaxGuard;

/// Whether a written file of this kind is checked: parseable code, not
/// prose.
pub open spec fn syntax_checked(k: SourceKind) -> bool {
    !(k is Text || k is Markdown || k is Unknown || k is Other)
}

/// The command suggested for checking a file of this kind by hand.
pub open spec fn helper_command(k: SourceKind) -> Seq<char> {
    match k {
        SourceKind::Rust => "`cargo check`"@,
        SourceKind::Python => "`python -m py_compile <file>`"@,
        SourceKind::Go => "`go build`"@,
        _ => "an appropriate compiler or linter"@,
    }
}

/// The syntax report: whether parsing passed, the language, and what to do.
pub open spec fn syntax_json(label: Seq<char>, k: SourceKind, parse_error: Option<Seq<char>>) -> JsonView {
    match parse_error {
        None => JsonView::Object(
            seq![
                ("syntax_valid"@, JsonView::Bool(true)),
                ("language"@, jstr(label)),
                (
                    "instrumentation"@,
                    jstr(
                        "Target file type: "@ + label
                            + ". AST structural validation passed successfully."@,
                    ),
                ),
            ],
        ),
        Some(e) => JsonView::Object(
            seq![
                ("syntax_valid"@, JsonView::Bool(false)),
                ("language"@, jstr(label)),
                (
                    "instrumentation"@,
                    jstr(
                        "Target file type: "@ + label + ". AST validation failed: "@ + e
                            + ". Review lines near the error or use "@ + helper_command(k) + "."@,
                    ),
                ),
            ],
        ),
    }
}

impl SyntaxGuard {
    /// Whether a written file of this kind is checked.
    pub fn checks(kind: &SourceKind) -> (r: bool)
        ensures
            r == syntax_checked(*kind),
    {
        !matches!(kind, SourceKind::Text | SourceKind::Markdown | SourceKind::Unknown | SourceKind::Other(_))
    }

    /// The report on a written source, given whether it parsed (`None`) or
    /// the parser's error text.  The language is the kind's name in lower
    /// case.
    pub fn check_post(kind: &SourceKind, parse_error: Option<&str>) -> (r: Option<AdvisoryMessage>)
        ensures
            syntax_checked(*kind) ==> (r matches Some(a) && a.source == AdvisorySource::Tool
                && a.level == AdvisoryLevel::Info && json_view(a.content) == syntax_json(
                lowercase(kind_name(*kind)),
                *kind,
                match parse_error {
                    Some(e) => Some(e@),
                    None => None,
                },
            )),
            !syntax_checked(*kind) ==> r is None,
    {
        if !SyntaxGuard::checks(kind) {
            return None;
        }
        let name = kind.name();
        let label = to_lowercase(name.as_str());
        let helper = match kind {
            SourceKind::Rust => "`cargo check`",
            SourceKind::Python => "`python -m py_compile <file>`",
            SourceKind::Go => "`go build`",
            _ => "an appropriate compiler or linter",
        };
        let mut es: Vec<JsonEntry> = Vec::new();
        assert(entries_view(es@) =~= Seq::empty());
        let mut text = chars_of("Target file type: ");
        append_str(&mut text, label.as_str());
        match parse_error {
            None => {
                append_str(&mut text, ". AST structural validation passed successfully.");
                push_entry(&mut es, "syntax_valid", JsonValue::Bool(true));
            },
            Some(e) => {
                append_str(&mut text, ". AST validation failed: ");
                append_str(&mut text, e);
                append_str(&mut text, ". Review lines near the error or use ");
                append_str(&mut text, helper);
                append_str(&mut text, ".");
                push_entry(&mut es, "syntax_valid", JsonValue::Bool(false));
            },
        }
        push_entry(&mut es, "language", JsonValue::Str(label.clone()));
        push_entry(&mut es, "instrumentation", jchars(&text));
        proof {
            let pe = match parse_error {
                Some(e) => Some(e@),
                None => None,
            };
            let j = syntax_json(label@, *kind, pe);
            assert(label@ == lowercase(kind_name(*kind)));
            match j {
                JsonView::Object(x) => {
                    assert(entries_view(es@) =~= x);
                },
                _ => {},
            }
        }
        Some(AdvisoryMessage::tool_info(JsonValue::Object(es)))
    }
}

// ---------------------------------------------------------------------------
// Names close to a missing file
// ---------------------------------------------------------------------------

/// Suggests files next to a missing one whose names are close to its name.
pub struct SiblingTyposHint;

/// Levenshtein distance from `strsim`, counted in characters.
#[verifier::external_body]
fn strsim_levenshtein(a: &str, b: &str) -> (r: usize)
    ensures
        r == lev(a@, b@),
{
    strsim::levenshtein(a, b)
}

/// How far a sibling's name may be from the missing name: 1 below 5 bytes,
/// 2 below 10, else 3.
pub open spec fn typo_threshold(name: Seq<char>) -> nat {
    if utf8_len(name) < 5 {
        1
    } else if utf8_len(name) < 10 {
        2
    } else {
        3
    }
}

/// The siblings whose names differ from `name` by at least one and at most
/// the threshold edits, in order.
pub open spec fn close_siblings(name: Seq<char>, siblings: Seq<Seq<char>>) -> Seq<Seq<char>>
    decreases siblings.len(),
{
    if siblings.len() == 0 {
        Seq::empty()
    } else {
        let prev = close_siblings(name, siblings.drop_last());
        let s = siblings.last();
        if s != name && 0 < lev(name, s) <= typo_threshold(name) {
            prev.push(s)
        } else {
            prev
        }
    }
}

/// The names joined by `, `.
pub open spec fn comma_join(ns: Seq<Seq<char>>) -> Seq<char>
    decreases ns.len(),
{
    if ns.len() == 0 {
        Seq::empty()
    } else if ns.len() == 1 {
        ns[0]
    } else {
        comma_join(ns.drop_last()) + ", "@ + ns.last()
    }
}

impl SiblingTyposHint {
    /// For a missing file (a not-found error), the names among its
    /// siblings that are close to its name: an advisory listing them with
    /// the action `Did you mean: ...?`, or nothing when there are none.
    pub fn apply(not_found: bool, file_name: &str, siblings: &Vec<String>) -> (r: Option<
        AdvisoryMessage,
    >)
        ensures
            ({
                let found = close_siblings(file_name@, string_views(siblings@));
                &&& r is Some <==> (not_found && found.len() > 0)
                &&& r matches Some(a) ==> {
                    &&& a.source == AdvisorySource::Tool
                    &&& a.level == AdvisoryLevel::Info
                    &&& json_view(a.content) == JsonView::Object(
                        seq![
                            ("error_type"@, jstr("not_found"@)),
                            ("alternatives"@, JsonView::Array(jstrs(found))),
                        ],
                    )
                    &&& a.action matches Some(act) && act@ == "Did you mean: "@ + comma_join(found) + "?"@
                }
            }),
    {
        if !not_found {
            return None;
        }
        let fc = chars_of(file_name);
        let threshold: usize = if !utf8_len_gt(&fc, 4) {
            1
        } else if !utf8_len_gt(&fc, 9) {
            2
        } else {
            3
        };
        let ghost sv = string_views(siblings@);
        let mut found: Vec<String> = Vec::new();
        let mut i: usize = 0;
        while i < siblings.len()
            invariant
                i <= siblings@.len(),
                sv == string_views(siblings@),
                fc@ == file_name@,
                threshold == typo_threshold(file_name@),
                string_views(found@) == close_siblings(file_name@, sv.take(i as int)),
            decreases siblings.len() - i,
        {
            let name = &siblings[i];
            proof {
                assert(sv.take(i + 1).drop_last() =~= sv.take(i as int));
                assert(sv.take(i + 1).last() == name@);
            }
            let nc = chars_of(name.as_str());
            if !crate::text::chars_eq(&nc, &fc) {
                let d = strsim_levenshtein(file_name, name.as_str());
                if d > 0 && d <= threshold {
                    let ghost prev = string_views(found@);
                    found.push(name.clone());
                    assert(string_views(found@) =~= prev.push(name@));
                }
            }
            i += 1;
        }
        assert(sv.take(siblings@.len() as int) =~= sv);
        if found.len() == 0 {
            return None;
        }
        let ghost fv = string_views(found@);
        let mut alts: Vec<JsonValue> = Vec::new();
        let mut action = chars_of("Did you mean: ");
        let mut j: usize = 0;
        while j < found.len()
            invariant
                j <= found@.len(),
                fv == string_views(found@),
                alts@.len() == j,
                crate::json_edit::array_view(alts@) == jstrs(fv.take(j as int)),
                action@ == "Did you mean: "@ + comma_join(fv.take(j as int)),
            decreases found.len() - j,
        {
            let ghost t = fv.take(j + 1);
            proof {
                assert(t.drop_last() =~= fv.take(j as int));
            }
            if j > 0 {
                append_str(&mut action, ", ");
            }
            append_str(&mut action, found[j].as_str());
            let ghost prev = alts@;
            alts.push(JsonValue::Str(found[j].clone()));
            proof {
                assert(alts@.drop_last() =~= prev);
                assert(jstrs(t) =~= jstrs(fv.take(j as int)).push(jstr(found@[j as int]@)));
                assert(crate::json_edit::array_view(alts@) == crate::json_edit::array_view(prev).push(
                    json_view(alts@.last()),
                ));
                if j == 0 {
                    assert(comma_join(t) == t[0]);
                    assert(comma_join(fv.take(0)) =~= Seq::<char>::empty());
                }
                assert(action@ =~= "Did you mean: "@ + comma_join(t));
            }
            j += 1;
        }
        assert(fv.take(found@.len() as int) =~= fv);
        append_str(&mut action, "?");
        let mut es: Vec<JsonEntry> = Vec::new();
        assert(entries_view(es@) =~= Seq::empty());
        push_entry(&mut es, "error_type", jtext("not_found"));
        push_entry(&mut es, "alternatives", JsonValue::Array(alts));
        assert(entries_view(es@) =~= seq![
            ("error_type"@, jstr("not_found"@)),
            ("alternatives"@, JsonView::Array(jstrs(fv))),
        ]);
        Some(AdvisoryMessage::tool_info(JsonValue::Object(es)).with_action(string_of(&action)))
    }
}

} // verus!
