//! Replacing a range of lines, with the two repair heuristics of the editor:
//! indentation healing (a replacement written at column 0 takes the
//! indentation of the target site) and anchor trimming (a replacement that
//! repeats the line just before or just after the range loses that copy).
use vstd::prelude::*;
use crate::edit_context::{
    AmbiguousContext, GrepAmbiguousContext, GrepNoMatchContext, NoMatchContext,
};
use crate::text::{
    append_chars, append_str, blank, chars_eq, chars_of, decimal, decimal_chars, is_blank, join_lines,
    join_with_newlines, leading_ws, leading_ws_count, lemma_leading_ws, lines_of, slice_chars,
    split_lines, string_of, string_views, trim, trim_chars, views,
};

verus! {

// ---------------------------------------------------------------------------
// Specification
// ---------------------------------------------------------------------------

/// Leading whitespace of a line.
pub open spec fn indent_of(l: Seq<char>) -> Seq<char> {
    l.take(leading_ws(l) as int)
}

/// First index in `[i, to)` of a line that is not blank, or `to`.
pub open spec fn first_nonblank_from(ls: Seq<Seq<char>>, i: int, to: int) -> int
    decreases to - i,
{
    if i >= to {
        to
    } else if !is_blank(ls[i]) {
        i
    } else {
        first_nonblank_from(ls, i + 1, to)
    }
}

/// A 1-indexed inclusive range `start..=end` is acceptable for `n` lines
/// (`end == start - 1` is an empty range: an insertion before `start`).
pub open spec fn range_ok(n: int, start: int, end: int) -> bool {
    1 <= start <= n + 1 && start - 1 <= end <= n
}

/// The indentation the target site asks for: that of the first non-blank
/// line of the range, else that of the line before the range.
pub open spec fn target_indent(ls: Seq<Seq<char>>, start: int, end: int) -> Seq<char> {
    if start > ls.len() {
        Seq::empty()
    } else {
        let k = first_nonblank_from(ls, start - 1, end);
        let ws = if k < end { indent_of(ls[k]) } else { Seq::<char>::empty() };
        if ws.len() == 0 && start > 1 {
            indent_of(ls[start - 2])
        } else {
            ws
        }
    }
}

/// Indentation (in characters) of the first non-blank replacement line, or 0.
pub open spec fn first_content_indent(rl: Seq<Seq<char>>) -> nat {
    let k = first_nonblank_from(rl, 0, rl.len() as int);
    if k < rl.len() {
        leading_ws(rl[k])
    } else {
        0
    }
}

/// The replacement is written at column 0 and is short enough to be shifted.
pub open spec fn heals(rl: Seq<Seq<char>>, ws: Seq<char>) -> bool {
    ws.len() > 0 && rl.len() > 0 && first_content_indent(rl) == 0 && rl.len() < 100
}

/// The replacement is indented, but not at the target's depth.
pub open spec fn indent_mismatch(rl: Seq<Seq<char>>, ws: Seq<char>) -> bool {
    ws.len() > 0 && rl.len() > 0 && first_content_indent(rl) > 0 && first_content_indent(rl)
        != ws.len()
}

/// Every non-empty line prefixed with `ws`.
pub open spec fn shift_lines(rl: Seq<Seq<char>>, ws: Seq<char>) -> Seq<Seq<char>> {
    rl.map_values(|l: Seq<char>| if l.len() == 0 { l } else { ws + l })
}

/// Replacement lines after indentation healing.
pub open spec fn healed_lines(rl: Seq<Seq<char>>, ws: Seq<char>) -> Seq<Seq<char>> {
    if heals(rl, ws) {
        shift_lines(rl, ws)
    } else {
        rl
    }
}

/// The first replacement line repeats the line just before the range.
pub open spec fn trims_leading(
    ls: Seq<Seq<char>>,
    start: int,
    rl: Seq<Seq<char>>,
    explicit: bool,
) -> bool {
    !explicit && start > 1 && rl.len() > 0 && trim(rl[0]) == trim(ls[start - 2])
}

/// The last replacement line repeats the line just after the range.
pub open spec fn trims_trailing(
    ls: Seq<Seq<char>>,
    end: int,
    rl: Seq<Seq<char>>,
    explicit: bool,
) -> bool {
    !explicit && end < ls.len() && rl.len() > 0 && trim(rl.last()) == trim(ls[end])
}

/// Replacement lines after healing and anchor trimming.
pub open spec fn final_replacement(
    ls: Seq<Seq<char>>,
    start: int,
    end: int,
    rl: Seq<Seq<char>>,
    explicit: bool,
) -> Seq<Seq<char>> {
    let h = healed_lines(rl, target_indent(ls, start, end));
    let a = if trims_leading(ls, start, h, explicit) { h.drop_first() } else { h };
    if trims_trailing(ls, end, a, explicit) { a.drop_last() } else { a }
}

/// The lines of the file after the edit.
pub open spec fn edited_lines(
    ls: Seq<Seq<char>>,
    start: int,
    end: int,
    rl: Seq<Seq<char>>,
    explicit: bool,
) -> Seq<Seq<char>> {
    ls.take(start - 1) + final_replacement(ls, start, end, rl, explicit) + ls.skip(end)
}

/// Text ends with a newline.
pub open spec fn ends_with_newline(s: Seq<char>) -> bool {
    s.len() > 0 && s.last() == '\n'
}

/// The text of the file after the edit: edited lines joined, keeping a
/// final newline when the original had one.
pub open spec fn edited_text(
    content: Seq<char>,
    start: int,
    end: int,
    replacement: Seq<char>,
    explicit: bool,
) -> Seq<char> {
    let body = join_lines(
        edited_lines(lines_of(content), start, end, lines_of(replacement), explicit),
    );
    if ends_with_newline(content) {
        body + seq!['\n']
    } else {
        body
    }
}

/// Names of the heuristics an edit of lines `ls` applies, in order.
pub open spec fn heuristics_for(
    ls: Seq<Seq<char>>,
    start: int,
    end: int,
    rl: Seq<Seq<char>>,
    explicit: bool,
) -> Seq<Seq<char>> {
    let ws = target_indent(ls, start, end);
    let h = healed_lines(rl, ws);
    let lead = trims_leading(ls, start, h, explicit);
    let a = if lead { h.drop_first() } else { h };
    let trail = trims_trailing(ls, end, a, explicit);
    let s1 = if heals(rl, ws) { seq!["indentation_healing"@] } else { Seq::empty() };
    let s2 = if lead { s1.push("anchor_trimming_leading"@) } else { s1 };
    if trail { s2.push("anchor_trimming_trailing"@) } else { s2 }
}

/// Names of the heuristics an edit applies, in the order they apply.
pub open spec fn heuristics_applied(
    content: Seq<char>,
    start: int,
    end: int,
    replacement: Seq<char>,
    explicit: bool,
) -> Seq<Seq<char>> {
    heuristics_for(lines_of(content), start, end, lines_of(replacement), explicit)
}

/// Message of a rejected line range.
pub open spec fn invalid_range_message(start: nat, end: nat, n: nat) -> Seq<char> {
    "Invalid line range: "@ + decimal(start) + "-"@ + decimal(end) + " (total lines: "@ + decimal(
        n,
    ) + ")"@
}

/// What `edit_lines` returns for a given input.
pub open spec fn edit_lines_post(
    content: Seq<char>,
    start: int,
    end: int,
    replacement: Seq<char>,
    explicit: bool,
    r: Result<EditOutcome, RichEditError>,
) -> bool {
    let ls = lines_of(content);
    let rl = lines_of(replacement);
    let ws = target_indent(ls, start, end);
    &&& !range_ok(ls.len() as int, start, end) ==> r is Err && r->Err_0 is InvalidLineRange
        && r->Err_0->InvalidLineRange_0@ == invalid_range_message(start as nat, end as nat, ls.len())
    &&& range_ok(ls.len() as int, start, end) && indent_mismatch(rl, ws) ==> r is Err
        && r->Err_0 == RichEditError::IndentationMismatch(
        first_content_indent(rl) as usize,
        ws.len() as usize,
    )
    &&& range_ok(ls.len() as int, start, end) && !indent_mismatch(rl, ws) ==> r is Ok
        && r->Ok_0.content@ == edited_text(content, start, end, replacement, explicit)
        && string_views(r->Ok_0.heuristics_triggered@) == heuristics_applied(
        content,
        start,
        end,
        replacement,
        explicit,
    )
}

// ---------------------------------------------------------------------------
// Types
// ---------------------------------------------------------------------------

/// Result of a successful edit.
#[derive(Debug, Clone)]
pub struct EditOutcome {
    /// File content after the edit.
    pub content: String,
    /// Repair heuristics that were applied.
    pub heuristics_triggered: Vec<String>,
}

/// Why an edit failed, with the context an agent needs to retry.
#[derive(Debug)]
pub enum RichEditError {
    /// A query matched no node.
    NoMatch(Box<NoMatchContext>),
    /// A query matched more than one node.
    Ambiguous(Box<AmbiguousContext>),
    /// The range does not fit the file; the message names the range.
    InvalidLineRange(String),
    /// A grep pattern matched no line.
    GrepNoMatch(Box<GrepNoMatchContext>),
    /// A grep pattern matched more than one line.
    GrepAmbiguous(Box<GrepAmbiguousContext>),
    /// The matched node carries no start line.
    MissingLineStart,
    /// The matched node carries no end line.
    MissingLineEnd,
    /// Replacement indentation (first field) differs from the target's (second field).
    IndentationMismatch(usize, usize),
    /// The grep pattern is not a valid regular expression; the message says why.
    InvalidPattern(String),
}

// ---------------------------------------------------------------------------
// Lemmas
// ---------------------------------------------------------------------------

/// Anchor trimming: when an edit's range was not given by line numbers and
/// the first (healed) replacement line repeats the line just before the
/// range, up to surrounding whitespace, that line is not written twice: the
/// lines before the range are followed by the rest of the replacement
/// (without its last line too, when that one repeats the line after the
/// range) and then by the lines after the range.
pub proof fn law_leading_anchor_not_repeated(ls: Seq<Seq<char>>, start: int, end: int, rl: Seq<Seq<char>>)
    requires
        2 <= start,
        start - 2 < ls.len(),
        start - 1 <= end <= ls.len(),
        healed_lines(rl, target_indent(ls, start, end)).len() > 0,
        trim(healed_lines(rl, target_indent(ls, start, end))[0]) == trim(ls[start - 2]),
    ensures
        ({
            let h = healed_lines(rl, target_indent(ls, start, end));
            let out = edited_lines(ls, start, end, rl, false);
            ||| out == ls.take(start - 1) + h.drop_first() + ls.skip(end)
            ||| out == ls.take(start - 1) + h.drop_first().drop_last() + ls.skip(end)
        }),
{
}

proof fn lemma_first_nonblank(ls: Seq<Seq<char>>, i: int, to: int)
    requires
        i <= to,
    ensures
        i <= first_nonblank_from(ls, i, to) <= to,
        forall|j: int| i <= j < first_nonblank_from(ls, i, to) ==> is_blank(#[trigger] ls[j]),
        first_nonblank_from(ls, i, to) < to ==> !is_blank(ls[first_nonblank_from(ls, i, to)]),
    decreases to - i,
{
    if i < to && is_blank(ls[i]) {
        lemma_first_nonblank(ls, i + 1, to);
    }
}

// ---------------------------------------------------------------------------
// Executable
// ---------------------------------------------------------------------------

/// First index in `[from, to)` of a line that is not blank, or `to`.
fn first_nonblank(ls: &Vec<Vec<char>>, from: usize, to: usize) -> (k: usize)
    requires
        from <= to <= ls.len(),
    ensures
        k == first_nonblank_from(views(ls@), from as int, to as int),
{
    let mut i = from;
    while i < to && blank(&ls[i])
        invariant
            from <= i <= to <= ls.len(),
            first_nonblank_from(views(ls@), from as int, to as int) == first_nonblank_from(
                views(ls@),
                i as int,
                to as int,
            ),
        decreases to - i,
    {
        i += 1;
    }
    i
}

/// Leading whitespace of a line.
fn indent_chars(l: &Vec<char>) -> (r: Vec<char>)
    ensures
        r@ == indent_of(l@),
{
    let k = leading_ws_count(l);
    proof {
        lemma_leading_ws(l@);
    }
    slice_chars(l, 0, k)
}

/// The indentation the target site asks for.
fn target_indent_exec(ls: &Vec<Vec<char>>, start: usize, end: usize) -> (r: Vec<char>)
    requires
        range_ok(ls.len() as int, start as int, end as int),
    ensures
        r@ == target_indent(views(ls@), start as int, end as int),
{
    if start > ls.len() {
        return Vec::new();
    }
    let k = first_nonblank(ls, start - 1, end);
    let ws = if k < end {
        indent_chars(&ls[k])
    } else {
        Vec::new()
    };
    if ws.len() == 0 && start > 1 {
        indent_chars(&ls[start - 2])
    } else {
        ws
    }
}

/// Indentation of the first non-blank replacement line, or 0.
fn first_content_indent_exec(rl: &Vec<Vec<char>>) -> (r: usize)
    ensures
        r == first_content_indent(views(rl@)),
{
    let k = first_nonblank(rl, 0, rl.len());
    if k < rl.len() {
        leading_ws_count(&rl[k])
    } else {
        0
    }
}

/// Every non-empty line prefixed with `ws`.
fn shift_lines_exec(rl: &Vec<Vec<char>>, ws: &Vec<char>) -> (r: Vec<Vec<char>>)
    ensures
        views(r@) == shift_lines(views(rl@), ws@),
{
    let mut r: Vec<Vec<char>> = Vec::new();
    let mut i: usize = 0;
    while i < rl.len()
        invariant
            i <= rl.len(),
            views(r@) == shift_lines(views(rl@), ws@).take(i as int),
        decreases rl.len() - i,
    {
        let line = &rl[i];
        let shifted = if line.len() == 0 {
            Vec::new()
        } else {
            let mut s = ws.clone();
            append_chars(&mut s, line);
            s
        };
        proof {
            if line@.len() == 0 {
                assert(shifted@ =~= line@);
            }
        }
        let ghost prev = views(r@);
        r.push(shifted);
        assert(views(r@) =~= prev.push(shifted@));
        i += 1;
        assert(views(r@) =~= shift_lines(views(rl@), ws@).take(i as int));
    }
    assert(shift_lines(views(rl@), ws@).take(rl.len() as int) =~= shift_lines(views(rl@), ws@));
    r
}

/// A string literal as characters, with its view revealed to callers.
fn lit(s: &str) -> (r: String)
    ensures
        r@ == s@,
{
    s.to_owned()
}

/// Appends `src[from..to]` to `dst`.
fn extend_lines(dst: &mut Vec<Vec<char>>, src: &Vec<Vec<char>>, from: usize, to: usize)
    requires
        from <= to <= src.len(),
    ensures
        views(final(dst)@) == views(old(dst)@) + views(src@).subrange(from as int, to as int),
{
    let mut i = from;
    while i < to
        invariant
            from <= i <= to <= src.len(),
            views(dst@) == views(old(dst)@) + views(src@).subrange(from as int, i as int),
        decreases to - i,
    {
        let ghost prev = views(dst@);
        dst.push(src[i].clone());
        assert(views(dst@) =~= prev.push(src@[i as int]@));
        i += 1;
        assert(views(dst@) =~= views(old(dst)@) + views(src@).subrange(from as int, i as int));
    }
}

/// The edit on line vectors: the new lines and the heuristics applied, or
/// the two indentation widths when the replacement is indented at another
/// depth than the target.
#[verifier::rlimit(40)]
fn edit_line_vectors(
    lines: &Vec<Vec<char>>,
    rl0: &Vec<Vec<char>>,
    start: usize,
    end: usize,
    is_explicit_range: bool,
) -> (r: Result<(Vec<Vec<char>>, Vec<String>), (usize, usize)>)
    requires
        range_ok(lines@.len() as int, start as int, end as int),
    ensures
        ({
            let ls = views(lines@);
            let rl = views(rl0@);
            let ws = target_indent(ls, start as int, end as int);
            &&& r is Err <==> indent_mismatch(rl, ws)
            &&& r matches Err(e) ==> e == (first_content_indent(rl) as usize, ws.len() as usize)
            &&& r matches Ok(v) ==> views(v.0@) == edited_lines(
                ls,
                start as int,
                end as int,
                rl,
                is_explicit_range,
            ) && string_views(v.1@) == heuristics_for(
                ls,
                start as int,
                end as int,
                rl,
                is_explicit_range,
            )
        }),
{
    let ghost ls = views(lines@);
    let n = lines.len();
    let ghost rlv = views(rl0@);
    let ws = target_indent_exec(&lines, start, end);
    let mut heur: Vec<String> = Vec::new();
    let mut rl = rl0.clone();
    assert(views(rl@) =~= rlv);
    if ws.len() > 0 && rl0.len() > 0 {
        let fci = first_content_indent_exec(&rl0);
        if fci == 0 && rl0.len() < 100 {
            rl = shift_lines_exec(&rl0, &ws);
            heur.push(lit("indentation_healing"));
        } else if fci > 0 && fci != ws.len() {
            return Err((fci, ws.len()));
        }
    }
    let ghost h = views(rl@);
    assert(h == healed_lines(rlv, ws@));
    let ghost s1 = string_views(heur@);
    assert(s1 =~= (if heals(rlv, ws@) { seq!["indentation_healing"@] } else { Seq::empty() }));
    let mut lead = false;
    if !is_explicit_range && start > 1 && rl.len() > 0 {
        let a = trim_chars(&rl[0]);
        let b = trim_chars(&lines[start - 2]);
        if chars_eq(&a, &b) {
            rl.remove(0);
            lead = true;
            let ghost prev = string_views(heur@);
            heur.push(lit("anchor_trimming_leading"));
            assert(string_views(heur@) =~= prev.push("anchor_trimming_leading"@));
        }
    }
    assert(lead == trims_leading(ls, start as int, h, is_explicit_range));
    let ghost a = views(rl@);
    assert(a =~= (if lead { h.drop_first() } else { h }));
    let mut trail = false;
    if !is_explicit_range && end < n && rl.len() > 0 {
        let x = trim_chars(&rl[rl.len() - 1]);
        let y = trim_chars(&lines[end]);
        if chars_eq(&x, &y) {
            rl.pop();
            trail = true;
            let ghost prev = string_views(heur@);
            heur.push(lit("anchor_trimming_trailing"));
            assert(string_views(heur@) =~= prev.push("anchor_trimming_trailing"@));
        }
    }
    assert(trail == trims_trailing(ls, end as int, a, is_explicit_range));
    assert(views(rl@) =~= (if trail { a.drop_last() } else { a }));
    assert(views(rl@) == final_replacement(ls, start as int, end as int, rlv, is_explicit_range));
    let mut out: Vec<Vec<char>> = Vec::new();
    extend_lines(&mut out, &lines, 0, start - 1);
    extend_lines(&mut out, &rl, 0, rl.len());
    extend_lines(&mut out, &lines, end, n);
    proof {
        assert(ls.subrange(0, start - 1) =~= ls.take(start - 1));
        assert(views(rl@).subrange(0, rl@.len() as int) =~= views(rl@));
        assert(ls.subrange(end as int, n as int) =~= ls.skip(end as int));
        assert(views(out@) =~= edited_lines(ls, start as int, end as int, rlv, is_explicit_range));
    }
    Ok((out, heur))
}

/// Replaces lines `start..=end` (1-indexed) of `content` with `replacement`.
///
/// The replacement is healed to the target's indentation when written at
/// column 0, rejected when indented at another depth, and (unless the range
/// was given explicitly) loses a first or last line that repeats the line
/// just outside the range.
#[verifier::rlimit(40)]
pub fn edit_lines(
    content: &str,
    start: usize,
    end: usize,
    replacement: &str,
    is_explicit_range: bool,
) -> (r: Result<EditOutcome, RichEditError>)
    ensures
        edit_lines_post(content@, start as int, end as int, replacement@, is_explicit_range, r),
{
    let text = chars_of(content);
    let lines = split_lines(&text);
    let ghost ls = views(lines@);
    let n = lines.len();
    if start < 1 || end > n || start - 1 > end || start - 1 > n {
        let mut msg = chars_of("Invalid line range: ");
        append_chars(&mut msg, &decimal_chars(start));
        append_str(&mut msg, "-");
        append_chars(&mut msg, &decimal_chars(end));
        append_str(&mut msg, " (total lines: ");
        append_chars(&mut msg, &decimal_chars(n));
        append_str(&mut msg, ")");
        assert(msg@ == invalid_range_message(start as nat, end as nat, n as nat));
        assert(!range_ok(n as int, start as int, end as int));
        return Err(RichEditError::InvalidLineRange(string_of(&msg)));
    }
    let rtext = chars_of(replacement);
    let rl0 = split_lines(&rtext);
    let (out, heur) = match edit_line_vectors(&lines, &rl0, start, end, is_explicit_range) {
        Ok(v) => v,
        Err((fci, tw)) => {
            return Err(RichEditError::IndentationMismatch(fci, tw));
        },
    };
    let mut body = join_with_newlines(&out);
    if text.len() > 0 && text[text.len() - 1] == '\n' {
        body.push('\n');
    }
    assert(body@ == edited_text(content@, start as int, end as int, replacement@, is_explicit_range));
    Ok(EditOutcome { content: string_of(&body), heuristics_triggered: heur })
}

} // verus!
