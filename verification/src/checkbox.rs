//! Markdown task-list checkboxes: finding them by their text and producing
//! the toggled line.
use vstd::prelude::*;
use crate::json_edit::{
    array_view, as_array, as_bool, as_str, as_u64, field, get_field, json_view, lemma_array_view,
    value_as_array, value_as_bool, value_as_str, value_as_u64, JsonValue, JsonView,
};
use crate::error::IvaldiError;
use crate::pattern::{compile, escape, regex_compiles, regex_escape, regex_replace_first, replace_first};
use crate::similarity::{lev, levenshtein_chars};
use crate::text::{
    append_chars, append_str, chars_of, contains, contains_chars, decimal, decimal_chars,
    lines_of, lowercase, split_lines, string_of, string_views, to_lowercase, trim, trim_chars,
    views,
};

verus! {

/// Desired checkbox state.
#[derive(Debug, Clone, Copy, PartialEq, Eq, Structural)]
pub enum CheckboxState {
    /// Checked (`[x]`).
    True,
    /// Unchecked (`[ ]`).
    False,
    /// The opposite of the current state.
    Toggle,
}

/// Arguments of the checkbox toggle tool.
#[derive(Debug, Clone)]
pub struct ToggleCheckboxArgs {
    /// Markdown file.
    pub path: String,
    /// Text the checkbox item must contain (case is ignored).
    pub pattern: String,
    pub state: CheckboxState,
}

/// A checkbox found in a document.
#[derive(Debug, Clone)]
pub struct CheckboxMatch {
    /// 1-based line number.
    pub line: usize,
    /// Item text.
    pub content: String,
    /// Whether it is checked.
    pub current_state: bool,
    /// The whole source line.
    pub full_line: String,
}

/// Result of a successful toggle.
#[derive(Debug, Clone)]
pub struct CheckboxResult {
    pub path: String,
    pub pattern: String,
    pub matched_checkbox: CheckboxMatch,
    pub previous_state: bool,
    pub new_state: bool,
    pub line_changed: usize,
    pub total_checkboxes: usize,
    pub checked_count: usize,
}

// ---------------------------------------------------------------------------
// Specification
// ---------------------------------------------------------------------------

/// Abstract value of a checkbox: line, text, state, source line.
pub open spec fn checkbox_view(c: CheckboxMatch) -> (nat, Seq<char>, bool, Seq<char>) {
    (c.line as nat, c.content@, c.current_state, c.full_line@)
}

/// Abstract values of checkboxes.
pub open spec fn checkbox_views(s: Seq<CheckboxMatch>) -> Seq<(nat, Seq<char>, bool, Seq<char>)> {
    s.map_values(|c: CheckboxMatch| checkbox_view(c))
}

/// The list items of a parsed Markdown document.
pub open spec fn list_items_of(doc: JsonView) -> Seq<JsonView> {
    match as_array(field(doc, "list_items"@)) {
        Some(a) => a,
        None => Seq::empty(),
    }
}

/// A task item's text, state and line, when the item has all of them and is
/// a task.
pub open spec fn task_of(item: JsonView) -> Option<(Seq<char>, bool, u64)> {
    let c = as_str(field(item, "content"@));
    let t = as_bool(field(item, "task"@));
    let ch = as_bool(field(item, "checked"@));
    let l = as_u64(field(item, "line_start"@));
    if c is Some && t is Some && ch is Some && l is Some && t->Some_0 {
        Some((c->Some_0, ch->Some_0, l->Some_0))
    } else {
        None
    }
}

/// 0-based index of a 1-based line number (line 0 maps to index 0).
pub open spec fn line_index(line: u64) -> int {
    if line as usize >= 1 {
        line as usize - 1
    } else {
        0
    }
}

/// Checkboxes among the first `k` items whose text contains the pattern
/// (both lowercased) and whose line exists.
pub open spec fn matching_checkboxes(
    items: Seq<JsonView>,
    ls: Seq<Seq<char>>,
    pattern_lower: Seq<char>,
    k: int,
) -> Seq<(nat, Seq<char>, bool, Seq<char>)>
    decreases k,
{
    if k <= 0 {
        Seq::empty()
    } else {
        let prev = matching_checkboxes(items, ls, pattern_lower, k - 1);
        match task_of(items[k - 1]) {
            Some((c, ch, l)) => if contains(lowercase(c), pattern_lower) && line_index(l)
                < ls.len() {
                prev.push(((l as usize) as nat, c, ch, ls[line_index(l)]))
            } else {
                prev
            },
            None => prev,
        }
    }
}

/// The line written for a checkbox whose source line is missing.
pub open spec fn synthetic_line(c: Seq<char>, checked: bool) -> Seq<char> {
    "- ["@ + (if checked { "x"@ } else { " "@ }) + "] "@ + c
}

/// All checkboxes among the first `k` items.
pub open spec fn all_checkboxes(items: Seq<JsonView>, ls: Seq<Seq<char>>, k: int) -> Seq<
    (nat, Seq<char>, bool, Seq<char>),
>
    decreases k,
{
    if k <= 0 {
        Seq::empty()
    } else {
        let prev = all_checkboxes(items, ls, k - 1);
        match task_of(items[k - 1]) {
            Some((c, ch, l)) => prev.push(
                (
                    (l as usize) as nat,
                    c,
                    ch,
                    if line_index(l) < ls.len() {
                        ls[line_index(l)]
                    } else {
                        synthetic_line(c, ch)
                    },
                ),
            ),
            None => prev,
        }
    }
}

/// Checkbox texts that look like the pattern, described as
/// `'<text>' (line <n>)`.
pub open spec fn similar_checkbox_list(
    pattern_lower: Seq<char>,
    cs: Seq<(nat, Seq<char>, bool, Seq<char>)>,
) -> Seq<Seq<char>>
    decreases cs.len(),
{
    if cs.len() == 0 {
        Seq::empty()
    } else {
        let prev = similar_checkbox_list(pattern_lower, cs.drop_last());
        let c = cs.last();
        let cl = lowercase(c.1);
        if contains(cl, pattern_lower) || lev(pattern_lower, cl) <= 3 {
            prev.push("'"@ + c.1 + "' (line "@ + decimal(c.0) + ")"@)
        } else {
            prev
        }
    }
}

/// The state a toggle sets.
pub open spec fn target_state_spec(state: CheckboxState, current: bool) -> bool {
    match state {
        CheckboxState::True => true,
        CheckboxState::False => false,
        CheckboxState::Toggle => !current,
    }
}

/// Toggling flips a checkbox: the state asked of a toggle is the opposite
/// of the current one, whatever that is; checking or unchecking asks for a
/// fixed state.
pub proof fn law_toggle_flips(current: bool)
    ensures
        target_state_spec(CheckboxState::Toggle, current) != current,
        target_state_spec(CheckboxState::True, current),
        !target_state_spec(CheckboxState::False, current),
        target_state_spec(CheckboxState::Toggle, target_state_spec(CheckboxState::Toggle, current)) == current,
{
}

// ---------------------------------------------------------------------------
// Executable
// ---------------------------------------------------------------------------

/// Text, state and line of a task item.
fn task_item(item: &JsonValue) -> (r: Option<(String, bool, u64)>)
    ensures
        match task_of(json_view(*item)) {
            Some((c, ch, l)) => r is Some && r->Some_0.0@ == c && r->Some_0.1 == ch && r->Some_0.2
                == l,
            None => r is None,
        },
{
    let c = value_as_str(get_field(item, "content"));
    let t = value_as_bool(get_field(item, "task"));
    let ch = value_as_bool(get_field(item, "checked"));
    let l = value_as_u64(get_field(item, "line_start"));
    match (c, t, ch, l) {
        (Some(c), Some(t), Some(ch), Some(l)) => if t {
            Some((c.clone(), ch, l))
        } else {
            None
        },
        _ => None,
    }
}

/// The list items of a parsed Markdown document.
fn list_items(doc: &JsonValue) -> (r: Option<&Vec<JsonValue>>)
    ensures
        match r {
            Some(a) => array_view(a@) == list_items_of(json_view(*doc)),
            None => list_items_of(json_view(*doc)).len() == 0,
        },
{
    value_as_array(get_field(doc, "list_items"))
}

/// Checkboxes whose text contains `pattern` (ignoring case), in document
/// order, given the document's text and its parsed Markdown structure.
pub fn find_matching_checkboxes(content: &str, doc: &JsonValue, pattern: &str) -> (r: Result<
    Vec<CheckboxMatch>,
    String,
>)
    ensures
        r is Ok,
        ({
            let items = list_items_of(json_view(*doc));
            checkbox_views(r->Ok_0@) == matching_checkboxes(
                items,
                lines_of(content@),
                lowercase(pattern@),
                items.len() as int,
            )
        }),
{
    let text = chars_of(content);
    let ls = split_lines(&text);
    let pl = to_lowercase(pattern);
    let plc = chars_of(pl.as_str());
    let mut out: Vec<CheckboxMatch> = Vec::new();
    match list_items(doc) {
        Some(items) => {
            let ghost iv = array_view(items@);
            proof {
                lemma_array_view(items@);
            }
            let mut i: usize = 0;
            while i < items.len()
                invariant
                    i <= items@.len(),
                    iv == array_view(items@),
                    iv == list_items_of(json_view(*doc)),
                    iv.len() == items@.len(),
                    forall|j: int| 0 <= j < items@.len() ==> #[trigger] iv[j] == json_view(items@[j]),
                    views(ls@) == lines_of(content@),
                    plc@ == lowercase(pattern@),
                    checkbox_views(out@) == matching_checkboxes(iv, views(ls@), plc@, i as int),
                decreases items.len() - i,
            {
                match task_item(&items[i]) {
                    Some((c, ch, l)) => {
                        let lc = to_lowercase(c.as_str());
                        let lcc = chars_of(lc.as_str());
                        let idx: usize = if l as usize >= 1 { l as usize - 1 } else { 0 };
                        if contains_chars(&lcc, &plc) && idx < ls.len() {
                            let m = CheckboxMatch {
                                line: l as usize,
                                content: c,
                                current_state: ch,
                                full_line: string_of(&ls[idx]),
                            };
                            let ghost prev = checkbox_views(out@);
                            out.push(m);
                            assert(checkbox_views(out@) =~= prev.push(checkbox_view(m)));
                        }
                    },
                    None => {},
                }
                i += 1;
            }
        },
        None => {},
    }
    Ok(out)
}

/// Every checkbox of the document, in order; an item whose line is missing
/// gets a line written from its text and state.
pub fn get_all_checkboxes(content: &str, doc: &JsonValue) -> (r: Result<Vec<CheckboxMatch>, String>)
    ensures
        r is Ok,
        ({
            let items = list_items_of(json_view(*doc));
            checkbox_views(r->Ok_0@) == all_checkboxes(
                items,
                lines_of(content@),
                items.len() as int,
            )
        }),
{
    let text = chars_of(content);
    let ls = split_lines(&text);
    let mut out: Vec<CheckboxMatch> = Vec::new();
    match list_items(doc) {
        Some(items) => {
            let ghost iv = array_view(items@);
            proof {
                lemma_array_view(items@);
            }
            let mut i: usize = 0;
            while i < items.len()
                invariant
                    i <= items@.len(),
                    iv == array_view(items@),
                    iv == list_items_of(json_view(*doc)),
                    iv.len() == items@.len(),
                    forall|j: int| 0 <= j < items@.len() ==> #[trigger] iv[j] == json_view(items@[j]),
                    views(ls@) == lines_of(content@),
                    checkbox_views(out@) == all_checkboxes(iv, views(ls@), i as int),
                decreases items.len() - i,
            {
                match task_item(&items[i]) {
                    Some((c, ch, l)) => {
                        let idx: usize = if l as usize >= 1 { l as usize - 1 } else { 0 };
                        let full_line = if idx < ls.len() {
                            string_of(&ls[idx])
                        } else {
                            let mut v = chars_of("- [");
                            append_str(&mut v, if ch { "x" } else { " " });
                            append_str(&mut v, "] ");
                            append_str(&mut v, c.as_str());
                            string_of(&v)
                        };
                        let m = CheckboxMatch { line: l as usize, content: c, current_state: ch, full_line };
                        let ghost prev = checkbox_views(out@);
                        out.push(m);
                        assert(checkbox_views(out@) =~= prev.push(checkbox_view(m)));
                    },
                    None => {},
                }
                i += 1;
            }
        },
        None => {},
    }
    Ok(out)
}

/// Up to three checkboxes whose text contains the pattern or is within edit
/// distance 3 of it (ignoring case), each as `'<text>' (line <n>)`.
pub fn find_similar_checkboxes(pattern: &str, checkboxes: &[CheckboxMatch]) -> (r: Vec<String>)
    ensures
        ({
            let all = similar_checkbox_list(lowercase(pattern@), checkbox_views(checkboxes@));
            string_views(r@) == if all.len() <= 3 { all } else { all.take(3) }
        }),
{
    let pl = to_lowercase(pattern);
    let plc = chars_of(pl.as_str());
    let ghost cv = checkbox_views(checkboxes@);
    let mut out: Vec<String> = Vec::new();
    let mut i: usize = 0;
    while i < checkboxes.len()
        invariant
            i <= checkboxes@.len(),
            cv == checkbox_views(checkboxes@),
            plc@ == lowercase(pattern@),
            string_views(out@) == similar_checkbox_list(plc@, cv.take(i as int)),
        decreases checkboxes.len() - i,
    {
        let cb = &checkboxes[i];
        let lc = to_lowercase(cb.content.as_str());
        let lcc = chars_of(lc.as_str());
        proof {
            assert(cv.take(i + 1).drop_last() =~= cv.take(i as int));
            assert(cv.take(i + 1).last() == checkbox_view(*cb));
        }
        if contains_chars(&lcc, &plc) || levenshtein_chars(&plc, &lcc) <= 3 {
            let mut v = chars_of("'");
            append_str(&mut v, cb.content.as_str());
            append_str(&mut v, "' (line ");
            append_chars(&mut v, &decimal_chars(cb.line));
            append_str(&mut v, ")");
            let s = string_of(&v);
            let ghost prev = string_views(out@);
            out.push(s);
            assert(string_views(out@) =~= prev.push(s@));
        }
        i += 1;
    }
    assert(cv.take(cv.len() as int) =~= cv);
    if out.len() > 3 {
        let ghost ov = string_views(out@);
        out.truncate(3);
        assert(string_views(out@) =~= ov.take(3));
    }
    out
}

/// The checkbox line with its first `[ ]` turned into `[x]` (checking) or
/// its first `[x]` turned into `[ ]` (unchecking).
pub fn generate_checkbox_line(original_line: &str, new_state: bool) -> (r: String)
    ensures
        ({
            let pat = if new_state { "\\[ \\]"@ } else { "\\[x\\]"@ };
            let rep = if new_state { "[x]"@ } else { "[ ]"@ };
            regex_compiles(pat) ==> r@ == regex_replace_first(pat, original_line@, rep)
        }),
{
    let checkbox_pattern = if new_state { "\\[ \\]" } else { "\\[x\\]" };
    let replacement = if new_state { "[x]" } else { "[ ]" };
    match compile(checkbox_pattern) {
        Ok(p) => replace_first(&p, original_line, replacement),
        Err(_) => original_line.to_owned(),
    }
}

/// The state a toggle request sets, given the current state.
pub fn target_state(state: CheckboxState, current: bool) -> (r: bool)
    ensures
        r == target_state_spec(state, current),
{
    match state {
        CheckboxState::True => true,
        CheckboxState::False => false,
        CheckboxState::Toggle => !current,
    }
}

/// Number of checked boxes.
pub fn count_checked(cs: &Vec<CheckboxMatch>) -> (r: usize)
    ensures
        r == cs@.filter(|c: CheckboxMatch| c.current_state).len(),
{
    let mut n: usize = 0;
    let mut i: usize = 0;
    while i < cs.len()
        invariant
            i <= cs@.len(),
            n == cs@.take(i as int).filter(|c: CheckboxMatch| c.current_state).len(),
            n <= i,
        decreases cs.len() - i,
    {
        proof {
            assert(cs@.take(i + 1).drop_last() =~= cs@.take(i as int));
            reveal_with_fuel(Seq::<CheckboxMatch>::filter, 1);
        }
        if cs[i].current_state {
            n += 1;
        }
        i += 1;
    }
    assert(cs@.take(cs@.len() as int) =~= cs@);
    n
}


/// What a toggle request comes to.
#[derive(Debug)]
pub enum TogglePlan {
    /// No checkbox matched: the error, and the checkboxes and close matches
    /// to suggest.
    NoMatch { error: IvaldiError, available: Vec<CheckboxMatch>, suggestions: Vec<String>, action: String },
    /// Several checkboxes matched.
    Ambiguous { error: IvaldiError, matches: Vec<CheckboxMatch>, action: String },
    /// One checkbox matched: its line is replaced by `replacement`, the line
    /// being found by the anchored pattern `grep`.
    Toggle { checkbox: CheckboxMatch, new_state: bool, replacement: String, grep: String },
}

/// The line pattern that finds exactly the checkbox's (trimmed) line.
pub open spec fn anchored_line(line: Seq<char>) -> Seq<char> {
    seq!['^'] + regex_escape(trim(line)) + seq!['$']
}

fn duplicate_match(c: &CheckboxMatch) -> (r: CheckboxMatch)
    ensures
        checkbox_view(r) == checkbox_view(*c),
{
    CheckboxMatch {
        line: c.line,
        content: c.content.clone(),
        current_state: c.current_state,
        full_line: c.full_line.clone(),
    }
}

/// Plans a toggle: report no match (with every checkbox and up to three
/// close ones) or an ambiguous match, or toggle the one matching checkbox
/// to the requested state.
pub fn plan_toggle(content: &str, doc: &JsonValue, args: &ToggleCheckboxArgs) -> (r: TogglePlan)
    ensures
        ({
            let items = list_items_of(json_view(*doc));
            let ms = matching_checkboxes(items, lines_of(content@), lowercase(args.pattern@), items.len() as int);
            let all = all_checkboxes(items, lines_of(content@), items.len() as int);
            &&& ms.len() == 0 ==> (r matches TogglePlan::NoMatch { error, available, suggestions, action }
                && (error matches IvaldiError::Query(m) && m@ == "No checkbox matched pattern"@)
                && checkbox_views(available@) == all && string_views(suggestions@) == (if similar_checkbox_list(
                lowercase(args.pattern@),
                all,
            ).len() <= 3 {
                similar_checkbox_list(lowercase(args.pattern@), all)
            } else {
                similar_checkbox_list(lowercase(args.pattern@), all).take(3)
            }) && action@ == "Found "@ + decimal(all.len()) + " checkboxes. Check your pattern or see available options."@)
            &&& ms.len() > 1 ==> (r matches TogglePlan::Ambiguous { error, matches, action }
                && (error matches IvaldiError::Query(m) && m@ == "Multiple checkboxes matched pattern"@)
                && checkbox_views(matches@) == ms && action@
                == "Use a more specific pattern to match exactly one checkbox"@)
            &&& ms.len() == 1 ==> (r matches TogglePlan::Toggle { checkbox, new_state, replacement, grep }
                && checkbox_view(checkbox) == ms[0] && new_state == target_state_spec(
                args.state,
                ms[0].2,
            ) && grep@ == anchored_line(ms[0].3) && ({
                let pat = if new_state {
                    "\\[ \\]"@
                } else {
                    "\\[x\\]"@
                };
                let rep = if new_state {
                    "[x]"@
                } else {
                    "[ ]"@
                };
                regex_compiles(pat) ==> replacement@ == regex_replace_first(pat, ms[0].3, rep)
            }))
        }),
{
    let matches = match find_matching_checkboxes(content, doc, args.pattern.as_str()) {
        Ok(m) => m,
        Err(_) => Vec::new(),
    };
    if matches.len() == 0 {
        let available = match get_all_checkboxes(content, doc) {
            Ok(a) => a,
            Err(_) => Vec::new(),
        };
        let suggestions = find_similar_checkboxes(args.pattern.as_str(), available.as_slice());
        let mut action = chars_of("Found ");
        append_chars(&mut action, &decimal_chars(available.len()));
        append_str(&mut action, " checkboxes. Check your pattern or see available options.");
        proof {
            assert(checkbox_views(available@).len() == available@.len());
        }
        return TogglePlan::NoMatch {
            error: IvaldiError::Query("No checkbox matched pattern".to_owned()),
            available,
            suggestions,
            action: string_of(&action),
        };
    }
    if matches.len() > 1 {
        return TogglePlan::Ambiguous {
            error: IvaldiError::Query("Multiple checkboxes matched pattern".to_owned()),
            matches,
            action: "Use a more specific pattern to match exactly one checkbox".to_owned(),
        };
    }
    let checkbox = duplicate_match(&matches[0]);
    proof {
        assert(checkbox_views(matches@)[0] == checkbox_view(matches@[0]));
    }
    let new_state = target_state(args.state, checkbox.current_state);
    let replacement = generate_checkbox_line(checkbox.full_line.as_str(), new_state);
    let fl = chars_of(checkbox.full_line.as_str());
    let trimmed = string_of(&trim_chars(&fl));
    let escaped = escape(trimmed.as_str());
    let mut g = chars_of("^");
    append_str(&mut g, escaped.as_str());
    g.push('$');
    proof {
        reveal_strlit("^");
    }
    TogglePlan::Toggle { checkbox, new_state, replacement, grep: string_of(&g) }
}

/// The result reported after the toggled line was written: the checkbox,
/// its old and new state, and the document's checkbox counts.
pub fn toggle_result(
    path: String,
    pattern: String,
    checkbox: CheckboxMatch,
    new_state: bool,
    all: &Vec<CheckboxMatch>,
) -> (r: CheckboxResult)
    ensures
        r.path == path,
        r.pattern == pattern,
        checkbox_view(r.matched_checkbox) == checkbox_view(checkbox),
        r.previous_state == checkbox.current_state,
        r.new_state == new_state,
        r.line_changed == checkbox.line,
        r.total_checkboxes == all@.len(),
        r.checked_count == all@.filter(|c: CheckboxMatch| c.current_state).len(),
{
    let checked_count = count_checked(all);
    CheckboxResult {
        path,
        pattern,
        previous_state: checkbox.current_state,
        new_state,
        line_changed: checkbox.line,
        matched_checkbox: checkbox,
        total_checkboxes: all.len(),
        checked_count,
    }
}

} // verus!
