//! Editing by grep pattern: the pattern must select exactly one line, which
//! is then replaced like a one-line range.  When it selects none or several,
//! the error carries the lines that came close or all the candidates.
use vstd::prelude::*;
use crate::edit_context::{FileInfo, GrepAmbiguousContext, GrepNoMatchContext, MatchInfo, PartialMatch};
use crate::line_edit::{edit_lines, edit_lines_post, EditOutcome, RichEditError};
use crate::pattern::{compile, is_match, regex_compiles, regex_error_text, regex_matches};
use crate::similarity::{lev, levenshtein_chars};
use crate::text::{
    chars_of, contains, contains_chars, lines_of, lowercase, split_lines, string_of, string_views,
    strings_of, to_lowercase, views,
};

verus! {

// ---------------------------------------------------------------------------
// Specification
// ---------------------------------------------------------------------------

/// A line looks like the pattern: it contains it, or is within distance 3
/// of it, both compared in lowercase.
pub open spec fn looks_similar(pattern_lower: Seq<char>, line: Seq<char>) -> bool {
    contains(lowercase(line), pattern_lower) || lev(pattern_lower, lowercase(line)) <= 3
}

/// All lines that look like the pattern, in order.
pub open spec fn similar_lines_all(pattern_lower: Seq<char>, ls: Seq<Seq<char>>) -> Seq<Seq<char>>
    decreases ls.len(),
{
    if ls.len() == 0 {
        Seq::empty()
    } else {
        let prev = similar_lines_all(pattern_lower, ls.drop_last());
        if looks_similar(pattern_lower, ls.last()) {
            prev.push(ls.last())
        } else {
            prev
        }
    }
}

/// The first three lines of `content` that look like `pattern`.
pub open spec fn similar_lines_spec(pattern: Seq<char>, content: Seq<char>) -> Seq<Seq<char>> {
    let all = similar_lines_all(lowercase(pattern), lines_of(content));
    if all.len() <= 3 {
        all
    } else {
        all.take(3)
    }
}

/// Lines among the first `k` that the pattern selected, as
/// (1-based line number, line).
pub open spec fn selected_lines(ls: Seq<Seq<char>>, m: Seq<bool>, k: int) -> Seq<(nat, Seq<char>)>
    decreases k,
{
    if k <= 0 {
        Seq::empty()
    } else {
        let prev = selected_lines(ls, m, k - 1);
        if m[k - 1] {
            prev.push(((k) as nat, ls[k - 1]))
        } else {
            prev
        }
    }
}

/// Lines among the first `k` that the pattern did not select but that
/// contain it when both are lowercased, as (1-based line number, line).
pub open spec fn loose_lines(ls: Seq<Seq<char>>, m: Seq<bool>, pattern_lower: Seq<char>, k: int) -> Seq<
    (nat, Seq<char>),
>
    decreases k,
{
    if k <= 0 {
        Seq::empty()
    } else {
        let prev = loose_lines(ls, m, pattern_lower, k - 1);
        if !m[k - 1] && contains(lowercase(ls[k - 1]), pattern_lower) {
            prev.push(((k) as nat, ls[k - 1]))
        } else {
            prev
        }
    }
}

/// Abstract value of a partial match.
pub open spec fn partial_view(p: PartialMatch) -> (nat, Seq<char>, Seq<char>) {
    (p.line as nat, p.content@, p.match_type@)
}

/// Abstract value of a match.
pub open spec fn match_view(m: MatchInfo) -> (
    Seq<char>,
    nat,
    nat,
    Option<Seq<char>>,
    Option<Seq<char>>,
    Option<Seq<char>>,
) {
    (
        m.name@,
        m.line_start as nat,
        m.line_end as nat,
        match m.signature {
            Some(s) => Some(s@),
            None => None,
        },
        match m.parent {
            Some(s) => Some(s@),
            None => None,
        },
        match m.content_preview {
            Some(s) => Some(s@),
            None => None,
        },
    )
}

/// Expected value of a match built from a selected line.
pub open spec fn hit_view(x: (nat, Seq<char>)) -> (
    Seq<char>,
    nat,
    nat,
    Option<Seq<char>>,
    Option<Seq<char>>,
    Option<Seq<char>>,
) {
    (x.1, x.0, x.0, None, None, Some(x.1))
}

/// Abstract values of matches.
pub open spec fn match_views(s: Seq<MatchInfo>) -> Seq<
    (Seq<char>, nat, nat, Option<Seq<char>>, Option<Seq<char>>, Option<Seq<char>>),
> {
    s.map_values(|m: MatchInfo| match_view(m))
}

/// Expected matches for selected lines.
pub open spec fn hit_views(s: Seq<(nat, Seq<char>)>) -> Seq<
    (Seq<char>, nat, nat, Option<Seq<char>>, Option<Seq<char>>, Option<Seq<char>>),
> {
    s.map_values(|x: (nat, Seq<char>)| hit_view(x))
}

/// Abstract values of partial matches.
pub open spec fn partial_views(s: Seq<PartialMatch>) -> Seq<(nat, Seq<char>, Seq<char>)> {
    s.map_values(|p: PartialMatch| partial_view(p))
}

/// Expected partial matches for loosely matching lines.
pub open spec fn loose_views(s: Seq<(nat, Seq<char>)>) -> Seq<(nat, Seq<char>, Seq<char>)> {
    s.map_values(|x: (nat, Seq<char>)| (x.0, x.1, "case_insensitive"@))
}

/// The file facts a grep failure reports.
pub open spec fn grep_file_info(f: FileInfo, content: &str) -> bool {
    &&& f.path@ == "unknown"@
    &&& f.file_type@ == "text"@
    &&& f.total_lines == lines_of(content@).len()
    &&& f.total_bytes == content.len()
}

/// What `edit_grep_selected` returns, given which lines the pattern selected.
pub open spec fn grep_edit_post(
    content: &str,
    pattern: Seq<char>,
    matched: Seq<bool>,
    replacement: Seq<char>,
    r: Result<EditOutcome, RichEditError>,
) -> bool {
    let ls = lines_of(content@);
    let hits = selected_lines(ls, matched, ls.len() as int);
    &&& hits.len() == 0 ==> r is Err && r->Err_0 is GrepNoMatch && {
        let c = r->Err_0->GrepNoMatch_0;
        &&& c.pattern@ == pattern
        &&& grep_file_info(c.file_info, content)
        &&& partial_views(c.partial_matches@) == loose_views(
            loose_lines(ls, matched, lowercase(pattern), ls.len() as int),
        )
        &&& string_views(c.similar_lines@) == similar_lines_spec(pattern, content@)
    }
    &&& hits.len() > 1 ==> r is Err && r->Err_0 is GrepAmbiguous && {
        let c = r->Err_0->GrepAmbiguous_0;
        &&& c.pattern@ == pattern
        &&& grep_file_info(c.file_info, content)
        &&& match_views(c.matches@) == hit_views(hits)
    }
    &&& hits.len() == 1 ==> {
        let line = hits[0].0 as int;
        let multi = lines_of(replacement).len() > 1;
        exists|e: Result<EditOutcome, RichEditError>|
            {
                &&& edit_lines_post(content@, line, line, replacement, false, e)
                &&& e is Err ==> r == e
                &&& e is Ok ==> r is Ok && r->Ok_0.content == e->Ok_0.content && string_views(
                    r->Ok_0.heuristics_triggered@,
                ) == if multi {
                    string_views(e->Ok_0.heuristics_triggered@).push(
                        "grep_multi_line_replacement"@,
                    )
                } else {
                    string_views(e->Ok_0.heuristics_triggered@)
                }
            }
    }
}

// ---------------------------------------------------------------------------
// Executable
// ---------------------------------------------------------------------------

/// The first three lines of `content` that contain `pattern` or are within
/// edit distance 3 of it (ignoring case).
pub fn find_similar_lines(pattern: &str, content: &str) -> (r: Vec<String>)
    ensures
        string_views(r@) == similar_lines_spec(pattern@, content@),
{
    let pl = to_lowercase(pattern);
    let plc = chars_of(pl.as_str());
    let text = chars_of(content);
    let ls = split_lines(&text);
    let mut found: Vec<Vec<char>> = Vec::new();
    let mut i: usize = 0;
    while i < ls.len()
        invariant
            i <= ls@.len(),
            plc@ == lowercase(pattern@),
            views(ls@) == lines_of(content@),
            views(found@) == similar_lines_all(plc@, views(ls@).take(i as int)),
        decreases ls.len() - i,
    {
        let line = string_of(&ls[i]);
        let ll = to_lowercase(line.as_str());
        let llc = chars_of(ll.as_str());
        let hit = contains_chars(&llc, &plc) || levenshtein_chars(&plc, &llc) <= 3;
        proof {
            let v = views(ls@);
            assert(v.take(i + 1).drop_last() =~= v.take(i as int));
            assert(v.take(i + 1).last() == ls@[i as int]@);
        }
        if hit {
            let ghost prev = views(found@);
            found.push(ls[i].clone());
            assert(views(found@) =~= prev.push(ls@[i as int]@));
        }
        i += 1;
    }
    proof {
        assert(views(ls@).take(ls@.len() as int) =~= views(ls@));
    }
    if found.len() > 3 {
        let ghost fv = views(found@);
        found.truncate(3);
        assert(views(found@) =~= fv.take(3));
    }
    strings_of(&found)
}

/// Line counts and sizes reported with a grep failure.
fn grep_info(content: &str, n: usize) -> (f: FileInfo)
    requires
        n == lines_of(content@).len(),
    ensures
        grep_file_info(f, content),
{
    FileInfo {
        path: "unknown".to_owned(),
        file_type: "text".to_owned(),
        total_lines: n,
        total_bytes: content.len(),
    }
}

/// Edits the one line a grep pattern selected, given for each line of
/// `content` whether the pattern matched it.
///
/// No selected line gives `GrepNoMatch` with the lines that contain the
/// pattern when case is ignored and the lines that look like it; several
/// give `GrepAmbiguous` listing them; one is replaced as the range
/// `line..=line`, with anchor trimming.
#[verifier::rlimit(40)]
pub fn edit_grep_selected(
    content: &str,
    pattern: &str,
    matched: &Vec<bool>,
    replacement: &str,
) -> (r: Result<EditOutcome, RichEditError>)
    requires
        matched@.len() == lines_of(content@).len(),
    ensures
        grep_edit_post(content, pattern@, matched@, replacement@, r),
{
    let text = chars_of(content);
    let ls = split_lines(&text);
    let ghost lv = views(ls@);
    let pl = to_lowercase(pattern);
    let plc = chars_of(pl.as_str());
    let mut hits: Vec<MatchInfo> = Vec::new();
    let mut loose: Vec<PartialMatch> = Vec::new();
    let mut first_hit: usize = 0;
    let mut i: usize = 0;
    while i < ls.len()
        invariant
            i <= ls@.len() == matched@.len(),
            lv == views(ls@),
            lv == lines_of(content@),
            plc@ == lowercase(pattern@),
            match_views(hits@) == hit_views(selected_lines(lv, matched@, i as int)),
            hits@.len() > 0 ==> first_hit == selected_lines(lv, matched@, i as int)[0].0,
            partial_views(loose@) == loose_views(loose_lines(lv, matched@, plc@, i as int)),
        decreases ls.len() - i,
    {
        let line = string_of(&ls[i]);
        if matched[i] {
            let ghost prev = hits@;
            let mi = MatchInfo {
                name: line.clone(),
                line_start: i + 1,
                line_end: i + 1,
                signature: None,
                parent: None,
                content_preview: Some(line),
            };
            if hits.len() == 0 {
                first_hit = i + 1;
            }
            hits.push(mi);
            proof {
                assert(hits@ =~= prev.push(mi));
                let sl = selected_lines(lv, matched@, i + 1);
                assert(sl == selected_lines(lv, matched@, i as int).push(((i + 1) as nat, lv[i as int])));
                assert(match_views(hits@) =~= match_views(prev).push(match_view(mi)));
                assert(hit_views(sl) =~= hit_views(selected_lines(lv, matched@, i as int)).push(
                    hit_view(((i + 1) as nat, lv[i as int])),
                ));
            }
        } else {
            let ll = to_lowercase(line.as_str());
            let llc = chars_of(ll.as_str());
            if contains_chars(&llc, &plc) {
                let ghost prev = loose@;
                let pm = PartialMatch {
                    line: i + 1,
                    content: line,
                    match_type: "case_insensitive".to_owned(),
                };
                loose.push(pm);
                proof {
                    assert(loose@ =~= prev.push(pm));
                    let ll2 = loose_lines(lv, matched@, plc@, i + 1);
                    assert(ll2 == loose_lines(lv, matched@, plc@, i as int).push(((i + 1) as nat, lv[i as int])));
                    assert(partial_views(loose@) =~= partial_views(prev).push(partial_view(pm)));
                    assert(loose_views(ll2) =~= loose_views(
                        loose_lines(lv, matched@, plc@, i as int),
                    ).push(((i + 1) as nat, lv[i as int], "case_insensitive"@)));
                }
            }
        }
        i += 1;
    }
    let n = ls.len();
    if hits.len() == 0 {
        let ctx = GrepNoMatchContext {
            pattern: pattern.to_owned(),
            file_info: grep_info(content, n),
            partial_matches: loose,
            similar_lines: find_similar_lines(pattern, content),
        };
        return Err(RichEditError::GrepNoMatch(Box::new(ctx)));
    }
    if hits.len() > 1 {
        let ctx = GrepAmbiguousContext {
            pattern: pattern.to_owned(),
            file_info: grep_info(content, n),
            matches: hits,
        };
        return Err(RichEditError::GrepAmbiguous(Box::new(ctx)));
    }
    let line = first_hit;
    let res = edit_lines(content, line, line, replacement, false);
    let rtext = chars_of(replacement);
    let rls = split_lines(&rtext);
    match res {
        Ok(outcome) => {
            let mut o = outcome;
            let ghost before = string_views(o.heuristics_triggered@);
            if rls.len() > 1 {
                o.heuristics_triggered.push("grep_multi_line_replacement".to_owned());
                assert(string_views(o.heuristics_triggered@) =~= before.push(
                    "grep_multi_line_replacement"@,
                ));
            }
            proof {
                let e = Ok::<EditOutcome, RichEditError>(outcome);
                assert(edit_lines_post(content@, line as int, line as int, replacement@, false, e));
            }
            Ok(o)
        },
        Err(e) => {
            proof {
                let ee = Err::<EditOutcome, RichEditError>(e);
                assert(edit_lines_post(content@, line as int, line as int, replacement@, false, ee));
            }
            Err(e)
        },
    }
}

/// Edits the one line that `pattern` (a regular expression) matches.
pub fn edit_grep(content: &str, pattern: &str, replacement: &str) -> (r: Result<
    EditOutcome,
    RichEditError,
>)
    ensures
        !regex_compiles(pattern@) ==> r is Err && r->Err_0 is InvalidPattern
            && r->Err_0->InvalidPattern_0@ == "Invalid regex pattern: "@ + regex_error_text(
            pattern@,
        ),
        regex_compiles(pattern@) ==> grep_edit_post(
            content,
            pattern@,
            lines_of(content@).map_values(|l: Seq<char>| regex_matches(pattern@, l)),
            replacement@,
            r,
        ),
{
    let re = match compile(pattern) {
        Ok(p) => p,
        Err(msg) => {
            let mut full = chars_of("Invalid regex pattern: ");
            let ec = chars_of(msg.as_str());
            crate::text::append_chars(&mut full, &ec);
            return Err(RichEditError::InvalidPattern(string_of(&full)));
        },
    };
    let text = chars_of(content);
    let ls = split_lines(&text);
    let mut matched: Vec<bool> = Vec::new();
    let mut i: usize = 0;
    while i < ls.len()
        invariant
            i <= ls@.len(),
            re@ == pattern@,
            views(ls@) == lines_of(content@),
            matched@ == views(ls@).take(i as int).map_values(
                |l: Seq<char>| regex_matches(pattern@, l),
            ),
        decreases ls.len() - i,
    {
        let line = string_of(&ls[i]);
        let hit = is_match(&re, line.as_str());
        matched.push(hit);
        i += 1;
        assert(matched@ =~= views(ls@).take(i as int).map_values(
            |l: Seq<char>| regex_matches(pattern@, l),
        ));
    }
    assert(views(ls@).take(ls@.len() as int) =~= views(ls@));
    edit_grep_selected(content, pattern, &matched, replacement)
}

/// How an edit picks the lines it replaces.
#[derive(Debug, Clone)]
pub enum EditSelector {
    /// The one line that a regular expression matches.
    Grep(String),
    /// An explicit 1-indexed inclusive line range.
    Lines(usize, usize),
}

/// Performs an edit with the given selector.
pub fn edit_content(content: &str, selector: EditSelector, replacement: &str) -> (r: Result<
    EditOutcome,
    RichEditError,
>)
    ensures
        selector matches EditSelector::Lines(s, e) ==> edit_lines_post(
            content@,
            s as int,
            e as int,
            replacement@,
            true,
            r,
        ),
        selector matches EditSelector::Grep(p) ==> {
            &&& !regex_compiles(p@) ==> r is Err && r->Err_0 is InvalidPattern
                && r->Err_0->InvalidPattern_0@ == "Invalid regex pattern: "@ + regex_error_text(
                p@,
            )
            &&& regex_compiles(p@) ==> grep_edit_post(
                content,
                p@,
                lines_of(content@).map_values(|l: Seq<char>| regex_matches(p@, l)),
                replacement@,
                r,
            )
        },
{
    match selector {
        EditSelector::Lines(start, end) => edit_lines(content, start, end, replacement, true),
        EditSelector::Grep(pattern) => edit_grep(content, pattern.as_str(), replacement),
    }
}

} // verus!
