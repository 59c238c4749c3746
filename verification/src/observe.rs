//! Reading files safely: size and binary guards, line ranges, head-and-tail
//! truncation of long files, and grep-style reads with context.
use vstd::prelude::*;
use crate::advisory::AdvisoryMessage;
use crate::error::IvaldiError;
use crate::json_edit::{json_view, JsonValue, JsonView};
use crate::pattern::{compile, is_match, regex_compiles, regex_error_text, regex_matches, Pattern};
use crate::response::IvaldiResponse;
use crate::section::spaces;
use crate::text::{
    append_chars, append_str, chars_of, decimal, decimal_chars, lines_of, split_lines, string_of,
    string_views, views,
};

verus! {

/// Arguments of the read tool.
#[derive(Debug, Clone)]
pub struct ReadFileArgs {
    pub path: String,
    /// First line to read (1-based, inclusive).
    pub from_line: Option<usize>,
    /// Last line to read (1-based, inclusive).
    pub to_line: Option<usize>,
    /// Read even large or binary files, and do not truncate.
    pub force: bool,
    /// Structural query selecting what to read.
    pub query: Option<String>,
    /// Regular expression selecting the lines to read.
    pub grep: Option<String>,
    /// Lines of context around grep matches.
    pub context_lines: Option<usize>,
}

impl ReadFileArgs {
    /// Reading a whole file, with no selector.
    pub fn for_path(path: String) -> (r: Self)
        ensures
            r.path@ == path@,
            r.from_line is None && r.to_line is None && !r.force,
            r.query is None && r.grep is None && r.context_lines is None,
    {
        ReadFileArgs {
            path,
            from_line: None,
            to_line: None,
            force: false,
            query: None,
            grep: None,
            context_lines: None,
        }
    }

    /// Whether reads are forced when nothing says otherwise.
    pub fn default_force() -> (r: bool)
        ensures
            !r,
    {
        false
    }

    /// Context lines around grep matches when nothing says otherwise.
    pub fn default_context_lines() -> (r: Option<usize>)
        ensures
            r == Some(2usize),
    {
        Some(2)
    }
}

/// Facts about what a read returned.
#[derive(Debug, Clone, Copy, PartialEq, Eq, Structural)]
pub struct ReadInfo {
    pub lines_total: usize,
    pub lines_returned: usize,
    pub truncated: bool,
    pub is_binary: bool,
}

/// The text a read returned.
#[derive(Debug, Clone)]
pub struct FileContent {
    pub path: String,
    pub content: String,
    pub info: ReadInfo,
}

/// Arguments of the batch read tool.
#[derive(Debug, Clone)]
pub struct ReadFilesArgs {
    pub paths: Vec<String>,
}

/// How a read selects its text.
#[derive(Debug, Clone)]
pub enum ReadMode {
    /// By a structural query.
    Query(String),
    /// By a regular expression, with this many lines of context.
    Grep(String, usize),
    /// By line range (or the whole file).
    Lines,
}

/// The file-system reader.
pub struct FsObserver;

/// Files larger than this many bytes are refused unless forced.
pub const MAX_READ_BYTES: u64 = 10485760;

/// Files with more lines than this are truncated unless forced or a range is
/// given.
pub const MAX_LINES: usize = 1000;

// ---------------------------------------------------------------------------
// Specification
// ---------------------------------------------------------------------------

/// Each line followed by a line break.
pub open spec fn with_newlines(ls: Seq<Seq<char>>) -> Seq<char>
    decreases ls.len(),
{
    if ls.len() == 0 {
        Seq::empty()
    } else {
        with_newlines(ls.drop_last()) + ls.last() + seq!['\n']
    }
}

/// 0-based index of the first requested line.
pub open spec fn first_requested(from: Option<usize>) -> int {
    match from {
        Some(f) => if f >= 1 {
            f - 1
        } else {
            0
        },
        None => 0,
    }
}

/// 0-based index one past the last requested line.
pub open spec fn end_requested(to: Option<usize>, total: int) -> int {
    match to {
        Some(t) => if t < total {
            t as int
        } else {
            total
        },
        None => total,
    }
}

/// The request starts past the end of a non-empty file.
pub open spec fn beyond_end(full: Seq<char>, from: Option<usize>) -> bool {
    let total = lines_of(full).len() as int;
    first_requested(from) >= total && total > 0
}

/// The whole file is too long to return.
pub open spec fn is_truncated(full: Seq<char>, from: Option<usize>, to: Option<usize>, force: bool) -> bool {
    from is None && to is None && lines_of(full).len() > 1000 && !force
}

/// The text a line-based read returns: the requested range, or the first
/// and last 500 lines of a long file around a marker, or the whole text.
pub open spec fn read_text_spec(
    full: Seq<char>,
    from: Option<usize>,
    to: Option<usize>,
    force: bool,
) -> Seq<char> {
    let ls = lines_of(full);
    let total = ls.len() as int;
    let f = first_requested(from);
    let e = end_requested(to, total);
    if from is Some || to is Some {
        if f <= e {
            with_newlines(ls.subrange(f, e))
        } else {
            Seq::empty()
        }
    } else if total > 1000 && !force {
        with_newlines(ls.take(500)) + "\n... [ TRUNCATED ] ...\n"@ + with_newlines(
            ls.skip(total - 500),
        )
    } else {
        full
    }
}

/// A read with a last line asked for returns exactly the lines from the
/// first one asked for (the first line of the file when none is) up to
/// that last line, or to the end of a shorter file, each with its line
/// break, and never a line past the last one asked for.  Neither the length
/// of the file nor `force` changes that.
pub proof fn law_range_read_is_exact(full: Seq<char>, from: Option<usize>, to_line: usize, force: bool)
    ensures
        ({
            let ls = lines_of(full);
            let first: int = match from {
                Some(f) => if f >= 1 { f - 1 } else { 0 },
                None => 0,
            };
            let last: int = if to_line < ls.len() { to_line as int } else { ls.len() as int };
            read_text_spec(full, from, Some(to_line), force) == if first <= last {
                with_newlines(ls.subrange(first, last))
            } else {
                Seq::<char>::empty()
            }
        }),
        read_text_spec(full, from, Some(to_line), force) == read_text_spec(full, from, Some(to_line), !force),
{
}

/// The warning a truncated read carries.
pub open spec fn truncation_warning(total: nat) -> Seq<char> {
    "File truncated ("@ + decimal(total)
        + " lines). Showing head/tail. Use --from/--to to read specific sections."@
}

/// An advisory with a text content at a level.
pub open spec fn text_advisory(a: AdvisoryMessage, level: crate::advisory::AdvisoryLevel, msg: Seq<
    char,
>) -> bool {
    &&& a.source == crate::advisory::AdvisorySource::Tool
    &&& a.level == level
    &&& json_view(a.content) == JsonView::Str(msg)
    &&& a.action is None
    &&& a.reference is None
}

/// A successful response with this content and no diffs.
pub open spec fn content_ok(
    r: IvaldiResponse<FileContent>,
    path: Seq<char>,
    text: Seq<char>,
    info: ReadInfo,
) -> bool {
    &&& !r.is_error
    &&& r.error is None
    &&& r.ui_diffs@.len() == 0
    &&& r.content matches Some(c) && c.path@ == path && c.content@ == text && c.info == info
}

// ---------------------------------------------------------------------------
// Guards and dispatch
// ---------------------------------------------------------------------------

impl FsObserver {
    /// Whether a file of `len` bytes is refused: over 10 MiB and not forced.
    pub fn too_large(len: u64, force: bool) -> (r: bool)
        ensures
            r == (len > MAX_READ_BYTES && !force),
    {
        len > MAX_READ_BYTES && !force
    }

    /// Whether the first bytes of a file mark it as binary: they hold a zero
    /// byte, and the read is not forced.
    pub fn looks_binary(head: &[u8], force: bool) -> (r: bool)
        ensures
            r == ((exists|i: int| 0 <= i < head@.len() && head@[i] == 0u8) && !force),
    {
        let mut i: usize = 0;
        while i < head.len()
            invariant
                i <= head@.len(),
                forall|j: int| 0 <= j < i ==> head@[j] != 0u8,
            decreases head.len() - i,
        {
            if head[i] == 0 {
                return !force;
            }
            i += 1;
        }
        false
    }

    /// How a read selects its text: a query first, then a pattern (with two
    /// lines of context unless told otherwise), else by lines.
    pub fn read_mode(args: &ReadFileArgs) -> (r: ReadMode)
        ensures
            match args.query {
                Some(q) => r matches ReadMode::Query(x) && x@ == q@,
                None => match args.grep {
                    Some(p) => r matches ReadMode::Grep(x, c) && x@ == p@ && c == match args.context_lines {
                        Some(n) => n,
                        None => 2usize,
                    },
                    None => r is Lines,
                },
            },
    {
        match &args.query {
            Some(q) => ReadMode::Query(q.clone()),
            None => match &args.grep {
                Some(p) => ReadMode::Grep(
                    p.clone(),
                    match args.context_lines {
                        Some(n) => n,
                        None => 2,
                    },
                ),
                None => ReadMode::Lines,
            },
        }
    }
}

/// `ls[from..to]`, each line followed by a line break, appended to `out`.
fn push_lines(out: &mut Vec<char>, ls: &Vec<Vec<char>>, from: usize, to: usize)
    requires
        from <= to <= ls@.len(),
    ensures
        final(out)@ == old(out)@ + with_newlines(views(ls@).subrange(from as int, to as int)),
{
    let ghost base = out@;
    let mut i: usize = from;
    assert(views(ls@).subrange(from as int, from as int) =~= Seq::<Seq<char>>::empty());
    while i < to
        invariant
            from <= i <= to <= ls@.len(),
            out@ == base + with_newlines(views(ls@).subrange(from as int, i as int)),
        decreases to - i,
    {
        let ghost prev = out@;
        append_chars(out, &ls[i]);
        out.push('\n');
        proof {
            let w = views(ls@).subrange(from as int, i + 1);
            assert(w.drop_last() =~= views(ls@).subrange(from as int, i as int));
            assert(w.last() == ls@[i as int]@);
            assert(out@ =~= base + with_newlines(w));
        }
        i += 1;
    }
}

/// Number of lines in a text.
fn count_lines(s: &Vec<char>) -> (n: usize)
    ensures
        n == lines_of(s@).len(),
{
    let ls = split_lines(s);
    assert(views(ls@).len() == ls@.len());
    ls.len()
}

impl FsObserver {
    /// The line-based part of a read, given the file's decoded text: a
    /// requested range, the head and tail of a long file (with a warning),
    /// or the whole text; a request starting past the end returns nothing
    /// and a warning.
    pub fn read_lines(path: &str, full: &str, args: &ReadFileArgs) -> (r: IvaldiResponse<FileContent>)
        ensures
            ({
                let total = lines_of(full@).len();
                if beyond_end(full@, args.from_line) {
                    &&& content_ok(
                        r,
                        path@,
                        Seq::empty(),
                        ReadInfo {
                            lines_total: total as usize,
                            lines_returned: 0,
                            truncated: false,
                            is_binary: false,
                        },
                    )
                    &&& r.advisory@.len() == 1
                    &&& text_advisory(
                        r.advisory@[0],
                        crate::advisory::AdvisoryLevel::Warn,
                        "Start line is beyond end of file."@,
                    )
                } else {
                    let text = read_text_spec(full@, args.from_line, args.to_line, args.force);
                    let t = is_truncated(full@, args.from_line, args.to_line, args.force);
                    &&& content_ok(
                        r,
                        path@,
                        text,
                        ReadInfo {
                            lines_total: total as usize,
                            lines_returned: lines_of(text).len() as usize,
                            truncated: t,
                            is_binary: false,
                        },
                    )
                    &&& t ==> r.advisory@.len() == 1 && text_advisory(
                        r.advisory@[0],
                        crate::advisory::AdvisoryLevel::Warn,
                        truncation_warning(total),
                    )
                    &&& !t ==> r.advisory@.len() == 0
                }
            }),
    {
        let text = chars_of(full);
        let ls = split_lines(&text);
        let ghost lv = views(ls@);
        let total = ls.len();
        let from: usize = match args.from_line {
            Some(f) => if f >= 1 {
                f - 1
            } else {
                0
            },
            None => 0,
        };
        let to: usize = match args.to_line {
            Some(t) => if t < total {
                t
            } else {
                total
            },
            None => total,
        };
        if from >= total && total > 0 {
            let fc = FileContent {
                path: path.to_owned(),
                content: String::new(),
                info: ReadInfo { lines_total: total, lines_returned: 0, truncated: false, is_binary: false },
            };
            return IvaldiResponse::success(fc).with_advisory(
                AdvisoryMessage::tool_warn(JsonValue::text("Start line is beyond end of file.")),
            );
        }
        let mut out: Vec<char> = Vec::new();
        let mut truncated = false;
        if args.from_line.is_some() || args.to_line.is_some() {
            if from <= to {
                push_lines(&mut out, &ls, from, to);
            }
        } else if total > MAX_LINES && !args.force {
            truncated = true;
            push_lines(&mut out, &ls, 0, 500);
            append_str(&mut out, "\n... [ TRUNCATED ] ...\n");
            push_lines(&mut out, &ls, total - 500, total);
            proof {
                assert(lv.subrange(0, 500) =~= lv.take(500));
                assert(lv.subrange(total - 500, total as int) =~= lv.skip(total - 500));
            }
        } else {
            out = text;
        }
        let returned = count_lines(&out);
        let fc = FileContent {
            path: path.to_owned(),
            content: string_of(&out),
            info: ReadInfo { lines_total: total, lines_returned: returned, truncated, is_binary: false },
        };
        let resp = IvaldiResponse::success(fc);
        if truncated {
            let mut msg = chars_of("File truncated (");
            append_chars(&mut msg, &decimal_chars(total));
            append_str(&mut msg, " lines). Showing head/tail. Use --from/--to to read specific sections.");
            let m = string_of(&msg);
            resp.with_advisory(AdvisoryMessage::tool_warn(JsonValue::text(m.as_str())))
        } else {
            resp
        }
    }
}

// ---------------------------------------------------------------------------
// Reading by pattern
// ---------------------------------------------------------------------------

/// Indices of the set flags, in order.
pub open spec fn flagged(fs: Seq<bool>) -> Seq<int>
    decreases fs.len(),
{
    if fs.len() == 0 {
        Seq::empty()
    } else if fs.last() {
        flagged(fs.drop_last()).push(fs.len() - 1)
    } else {
        flagged(fs.drop_last())
    }
}

/// A number right-aligned in four columns.
pub open spec fn pad4(n: nat) -> Seq<char> {
    let d = decimal(n);
    if d.len() < 4 {
        spaces((4 - d.len()) as nat) + d
    } else {
        d
    }
}

/// One numbered output line; the matched line is marked with `>>>`.
pub open spec fn numbered_line(i: int, line: Seq<char>, is_match: bool) -> Seq<char> {
    pad4((i + 1) as nat) + ": "@ + (if is_match {
        ">>> "@
    } else {
        "    "@
    }) + line + seq!['\n']
}

/// Numbered lines `lo..hi`, with line `m` marked.
pub open spec fn numbered_lines(ls: Seq<Seq<char>>, lo: int, hi: int, m: int) -> Seq<char>
    decreases hi - lo,
{
    if hi <= lo {
        Seq::empty()
    } else {
        numbered_lines(ls, lo, hi - 1, m) + numbered_line(hi - 1, ls[hi - 1], hi - 1 == m)
    }
}

/// The grep read of the matches `ms` (increasing line indices) with `ctx`
/// lines of context: the output text, the number of lines shown, and the
/// index one past the last line shown.  Each match shows the lines from
/// `ctx` before it to `ctx` after it that were not shown yet; a gap between
/// windows is marked by a `...` line.
pub open spec fn grep_render(ls: Seq<Seq<char>>, ms: Seq<int>, ctx: nat) -> (Seq<char>, nat, int)
    decreases ms.len(),
{
    if ms.len() == 0 {
        (Seq::empty(), 0, 0)
    } else {
        let prev = grep_render(ls, ms.drop_last(), ctx);
        let m = ms.last();
        let start = if m >= ctx {
            m - ctx
        } else {
            0
        };
        let end = if m + ctx + 1 < ls.len() {
            m + ctx + 1
        } else {
            ls.len() as int
        };
        let sep = if ms.len() > 1 && start > prev.2 {
            "\n...\n\n"@
        } else {
            Seq::empty()
        };
        let lo = if start > prev.2 {
            start
        } else {
            prev.2
        };
        (
            prev.0 + sep + numbered_lines(ls, lo, end, m),
            prev.1 + (if end > lo {
                end - lo
            } else {
                0
            }) as nat,
            if end > prev.2 {
                end
            } else {
                prev.2
            },
        )
    }
}

/// The lines a pattern matches, as flags.
pub open spec fn match_flags(pattern: Seq<char>, content: Seq<char>) -> Seq<bool> {
    lines_of(content).map_values(|l: Seq<char>| regex_matches(pattern, l))
}

/// The response of a grep read.
pub open spec fn grep_read_ok(
    r: IvaldiResponse<FileContent>,
    path: Seq<char>,
    content: Seq<char>,
    pattern: Seq<char>,
    ctx: nat,
) -> bool {
    let ls = lines_of(content);
    let ms = flagged(match_flags(pattern, content));
    if !regex_compiles(pattern) {
        &&& r.is_error && r.content is None && r.advisory@.len() == 0
        &&& r.error matches Some(e) && e.code@ == "regex_error"@ && e.message@ == "Regex error: "@
            + ("Invalid regex pattern: "@ + regex_error_text(pattern))
    } else if ms.len() == 0 {
        &&& r.is_error && r.content is None
        &&& r.error matches Some(e) && e.code@ == "regex_error"@ && e.message@ == "Regex error: "@
            + ("Pattern '"@ + pattern + "' matched 0 lines"@)
        &&& r.advisory@.len() == 1
        &&& text_advisory(
            r.advisory@[0],
            crate::advisory::AdvisoryLevel::Info,
            "Try a broader pattern or check regex syntax"@,
        )
    } else {
        let g = grep_render(ls, ms, ctx);
        &&& content_ok(
            r,
            path,
            g.0,
            ReadInfo {
                lines_total: ls.len() as usize,
                lines_returned: g.1 as usize,
                truncated: false,
                is_binary: false,
            },
        )
        &&& r.advisory@.len() == 1
        &&& text_advisory(
            r.advisory@[0],
            crate::advisory::AdvisoryLevel::Info,
            "Pattern matched "@ + decimal(ms.len()) + " lines (showing with "@ + decimal(ctx)
                + " lines context)"@,
        )
    }
}

proof fn lemma_render_bounds(ls: Seq<Seq<char>>, ms: Seq<int>, ctx: nat)
    requires
        forall|i: int| 0 <= i < ms.len() ==> 0 <= #[trigger] ms[i] < ls.len(),
    ensures
        0 <= grep_render(ls, ms, ctx).2 <= ls.len(),
        grep_render(ls, ms, ctx).1 <= grep_render(ls, ms, ctx).2,
    decreases ms.len(),
{
    if ms.len() > 0 {
        lemma_render_bounds(ls, ms.drop_last(), ctx);
    }
}

proof fn lemma_flagged(fs: Seq<bool>)
    ensures
        forall|i: int| 0 <= i < flagged(fs).len() ==> 0 <= #[trigger] flagged(fs)[i] < fs.len(),
        flagged(fs).len() <= fs.len(),
    decreases fs.len(),
{
    if fs.len() > 0 {
        lemma_flagged(fs.drop_last());
    }
}

/// A number right-aligned in four columns.
fn pad4_chars(n: usize) -> (r: Vec<char>)
    ensures
        r@ == pad4(n as nat),
{
    let d = decimal_chars(n);
    if d.len() < 4 {
        let mut r: Vec<char> = Vec::new();
        let mut k: usize = 0;
        while k < 4 - d.len()
            invariant
                d.len() < 4,
                k <= 4 - d.len(),
                r@ == spaces(k as nat),
            decreases 4 - d.len() - k,
        {
            r.push(' ');
            k += 1;
            assert(r@ =~= spaces(k as nat));
        }
        append_chars(&mut r, &d);
        r
    } else {
        d
    }
}

/// Appends numbered lines `lo..hi`, marking line `m`.
fn push_numbered(out: &mut Vec<char>, ls: &Vec<Vec<char>>, lo: usize, hi: usize, m: usize)
    requires
        lo <= hi <= ls@.len(),
        hi < usize::MAX,
    ensures
        final(out)@ == old(out)@ + numbered_lines(views(ls@), lo as int, hi as int, m as int),
{
    let ghost base = out@;
    let mut i: usize = lo;
    while i < hi
        invariant
            lo <= i <= hi <= ls@.len(),
            hi < usize::MAX,
            out@ == base + numbered_lines(views(ls@), lo as int, i as int, m as int),
        decreases hi - i,
    {
        append_chars(out, &pad4_chars(i + 1));
        append_str(out, ": ");
        append_str(out, if i == m { ">>> " } else { "    " });
        append_chars(out, &ls[i]);
        out.push('\n');
        proof {
            reveal_strlit(": ");
            reveal_strlit(">>> ");
            reveal_strlit("    ");
            assert(out@ =~= base + numbered_lines(views(ls@), lo as int, i + 1, m as int));
        }
        i += 1;
    }
}

/// Reads the lines a regular expression matches, each with `context_lines`
/// lines of context, numbered, the matches marked with `>>>`.
pub fn read_with_grep(content: &str, path: &str, pattern: &str, context_lines: usize) -> (r:
    IvaldiResponse<FileContent>)
    requires
        lines_of(content@).len() + context_lines + 1 < usize::MAX,
    ensures
        grep_read_ok(r, path@, content@, pattern@, context_lines as nat),
{
    let re = match compile(pattern) {
        Ok(p) => p,
        Err(msg) => {
            let mut full = chars_of("Invalid regex pattern: ");
            append_str(&mut full, msg.as_str());
            return IvaldiResponse::from_error(IvaldiError::Regex(string_of(&full)));
        },
    };
    let text = chars_of(content);
    let ls = split_lines(&text);
    let ghost lv = views(ls@);
    let total = ls.len();
    let mut flags: Vec<bool> = Vec::new();
    let mut i: usize = 0;
    while i < total
        invariant
            i <= total == ls@.len(),
            re@ == pattern@,
            lv == views(ls@),
            lv == lines_of(content@),
            flags@ == lv.take(i as int).map_values(|l: Seq<char>| regex_matches(pattern@, l)),
        decreases total - i,
    {
        let line = string_of(&ls[i]);
        let hit = is_match(&re, line.as_str());
        flags.push(hit);
        i += 1;
        assert(flags@ =~= lv.take(i as int).map_values(|l: Seq<char>| regex_matches(pattern@, l)));
    }
    assert(lv.take(total as int) =~= lv);
    let ghost fl = flags@;
    let ghost ms = flagged(fl);
    let mut out: Vec<char> = Vec::new();
    let mut shown: usize = 0;
    let mut prev_end: usize = 0;
    let mut nmatch: usize = 0;
    let mut j: usize = 0;
    while j < total
        invariant
            j <= total == ls@.len() == fl.len(),
            fl == flags@,
            lv == views(ls@),
            total + context_lines + 1 < usize::MAX,
            nmatch == flagged(fl.take(j as int)).len(),
            nmatch <= j,
            ({
                let g = grep_render(lv, flagged(fl.take(j as int)), context_lines as nat);
                out@ == g.0 && shown as nat == g.1 && prev_end as int == g.2
            }),
            prev_end <= total,
        decreases total - j,
    {
        let ghost t = fl.take(j + 1);
        proof {
            assert(t.drop_last() =~= fl.take(j as int));
            lemma_flagged(fl.take(j as int));
            lemma_render_bounds(lv, flagged(fl.take(j as int)), context_lines as nat);
        }
        if flags[j] {
            proof {
                assert(flagged(t) == flagged(fl.take(j as int)).push(j as int));
                assert(flagged(t).drop_last() =~= flagged(fl.take(j as int)));
            }
            let start: usize = if j >= context_lines { j - context_lines } else { 0 };
            let end: usize = if j + context_lines + 1 < total { j + context_lines + 1 } else { total };
            if nmatch > 0 && start > prev_end {
                append_str(&mut out, "\n...\n\n");
            }
            let lo: usize = if start > prev_end { start } else { prev_end };
            if end > lo {
                push_numbered(&mut out, &ls, lo, end, j);
                shown = shown + (end - lo);
            }
            if end > prev_end {
                prev_end = end;
            }
            nmatch = nmatch + 1;
            proof {
                reveal_strlit("\n...\n\n");
            }
        } else {
            assert(flagged(t) == flagged(fl.take(j as int)));
        }
        j += 1;
    }
    assert(fl.take(total as int) =~= fl);
    if nmatch == 0 {
        let mut msg = chars_of("Pattern '");
        append_str(&mut msg, pattern);
        append_str(&mut msg, "' matched 0 lines");
        return IvaldiResponse::from_error(IvaldiError::Regex(string_of(&msg))).with_advisory(
            AdvisoryMessage::tool_info(JsonValue::text("Try a broader pattern or check regex syntax")),
        );
    }
    let mut msg = chars_of("Pattern matched ");
    append_chars(&mut msg, &decimal_chars(nmatch));
    append_str(&mut msg, " lines (showing with ");
    append_chars(&mut msg, &decimal_chars(context_lines));
    append_str(&mut msg, " lines context)");
    let m = string_of(&msg);
    let fc = FileContent {
        path: path.to_owned(),
        content: string_of(&out),
        info: ReadInfo { lines_total: total, lines_returned: shown, truncated: false, is_binary: false },
    };
    IvaldiResponse::success(fc).with_advisory(AdvisoryMessage::tool_info(JsonValue::text(m.as_str())))
}

/// The text of a query read: the rendered nodes separated by `---` lines.
pub open spec fn join_results(parts: Seq<Seq<char>>) -> Seq<char>
    decreases parts.len(),
{
    if parts.len() == 0 {
        Seq::empty()
    } else if parts.len() == 1 {
        parts[0]
    } else {
        join_results(parts.drop_last()) + "\n\n---\n\n"@ + parts.last()
    }
}

/// Joins rendered query results with `---` separator lines.
pub fn join_query_results(parts: &Vec<String>) -> (r: String)
    ensures
        r@ == join_results(string_views(parts@)),
{
    let ghost pv = string_views(parts@);
    let mut out: Vec<char> = Vec::new();
    let mut i: usize = 0;
    while i < parts.len()
        invariant
            i <= parts@.len(),
            pv == string_views(parts@),
            out@ == join_results(pv.take(i as int)),
        decreases parts.len() - i,
    {
        let ghost t = pv.take(i + 1);
        proof {
            assert(t.drop_last() =~= pv.take(i as int));
        }
        if i > 0 {
            append_str(&mut out, "\n\n---\n\n");
        }
        append_str(&mut out, parts[i].as_str());
        proof {
            if i == 0 {
                assert(out@ =~= t[0]);
            }
        }
        i += 1;
    }
    assert(pv.take(parts@.len() as int) =~= pv);
    string_of(&out)
}

/// The answer to a query read, given the rendered nodes the query matched:
/// no node is an error `no_matches` with a hint; otherwise the nodes joined
/// by `---` lines, with the number of nodes matched.
pub fn query_read_response(content: &str, path: &str, query: &str, rendered: &Vec<String>) -> (r:
    IvaldiResponse<FileContent>)
    ensures
        rendered@.len() == 0 ==> {
            &&& r.is_error && r.content is None
            &&& r.error matches Some(e) && e.code@ == "no_matches"@ && e.message@ == "Query '"@ + query@
                + "' matched 0 nodes"@
            &&& r.advisory@.len() == 1
            &&& text_advisory(
                r.advisory@[0],
                crate::advisory::AdvisoryLevel::Info,
                "Try a broader query like '.functions[]' or '.structs[]'"@,
            )
        },
        rendered@.len() > 0 ==> {
            let text = join_results(string_views(rendered@));
            &&& content_ok(
                r,
                path@,
                text,
                ReadInfo {
                    lines_total: lines_of(content@).len() as usize,
                    lines_returned: lines_of(text).len() as usize,
                    truncated: false,
                    is_binary: false,
                },
            )
            &&& r.advisory@.len() == 1
            &&& text_advisory(
                r.advisory@[0],
                crate::advisory::AdvisoryLevel::Info,
                "Query matched "@ + decimal(rendered@.len()) + " nodes"@,
            )
        },
{
    if rendered.len() == 0 {
        let mut m = chars_of("Query '");
        append_str(&mut m, query);
        append_str(&mut m, "' matched 0 nodes");
        return IvaldiResponse::error("no_matches".to_owned(), string_of(&m)).with_advisory(
            AdvisoryMessage::tool_info(JsonValue::text("Try a broader query like '.functions[]' or '.structs[]'")),
        );
    }
    let out = join_query_results(rendered);
    let oc = chars_of(out.as_str());
    let cc = chars_of(content);
    let info = ReadInfo {
        lines_total: count_lines(&cc),
        lines_returned: count_lines(&oc),
        truncated: false,
        is_binary: false,
    };
    let mut note = chars_of("Query matched ");
    append_chars(&mut note, &decimal_chars(rendered.len()));
    append_str(&mut note, " nodes");
    let fc = FileContent { path: path.to_owned(), content: out, info };
    IvaldiResponse::success(fc).with_advisory(AdvisoryMessage::tool_info(JsonValue::text(string_of(&note).as_str())))
}

} // verus!
