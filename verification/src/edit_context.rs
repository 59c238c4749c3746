//! Context gathered when an edit cannot be applied: what the selector was,
//! what the file holds, and what was close to matching.
use vstd::prelude::*;
use crate::pattern::{capture_group, captures, compile, group_of, regex_captures, regex_compiles};
use crate::text::{
    append_chars, append_str, chars_of, contains, contains_chars, decimal, decimal_chars,
    string_of, string_views,
};

verus! {

/// Kind of selector an edit used.
#[derive(Debug, Clone, Copy, PartialEq, Eq, Structural)]
pub enum SelectorType {
    AstQuery,
    Grep,
    LineRange,
}

/// Basic facts about the edited file.
#[derive(Debug, Clone)]
pub struct FileInfo {
    pub path: String,
    pub file_type: String,
    pub total_lines: usize,
    pub total_bytes: usize,
}

/// A named target in a file (function, struct, header).
#[derive(Debug, Clone)]
pub struct TargetInfo {
    pub name: String,
    pub line_start: usize,
    pub visibility: Option<String>,
    pub parent: Option<String>,
}

/// A Markdown list item.
#[derive(Debug, Clone)]
pub struct ListItemInfo {
    pub content: String,
    pub line: usize,
    pub task: Option<bool>,
    pub checked: Option<bool>,
}

/// Targets available in a file, grouped by kind.
#[derive(Debug, Clone)]
pub struct AvailableTargets {
    pub functions: Vec<TargetInfo>,
    pub structs: Vec<TargetInfo>,
    pub classes: Vec<TargetInfo>,
    pub imports: Vec<String>,
    pub headers: Vec<TargetInfo>,
    pub list_items: Vec<ListItemInfo>,
}

impl AvailableTargets {
    /// No targets of any kind.
    pub fn empty() -> (r: Self)
        ensures
            r.functions@.len() == 0,
            r.structs@.len() == 0,
            r.classes@.len() == 0,
            r.imports@.len() == 0,
            r.headers@.len() == 0,
            r.list_items@.len() == 0,
    {
        AvailableTargets {
            functions: Vec::new(),
            structs: Vec::new(),
            classes: Vec::new(),
            imports: Vec::new(),
            headers: Vec::new(),
            list_items: Vec::new(),
        }
    }
}

/// A name close to the one that was asked for.
#[derive(Debug, Clone)]
pub struct SimilarName {
    pub name: String,
    pub distance: usize,
    pub category: String,
}

impl SimilarName {
    /// An equal copy.
    pub fn duplicate(&self) -> (r: Self)
        ensures
            r == *self,
    {
        SimilarName {
            name: self.name.clone(),
            distance: self.distance,
            category: self.category.clone(),
        }
    }
}

/// A line that matched a grep pattern only loosely.
#[derive(Debug, Clone)]
pub struct PartialMatch {
    pub line: usize,
    pub content: String,
    pub match_type: String,
}

/// One of several matches of an ambiguous selector.
#[derive(Debug, Clone)]
pub struct MatchInfo {
    pub name: String,
    pub line_start: usize,
    pub line_end: usize,
    pub signature: Option<String>,
    pub parent: Option<String>,
    pub content_preview: Option<String>,
}

/// Why a query matched nothing.
#[derive(Debug, Clone)]
pub struct NoMatchContext {
    pub query: String,
    pub selector_type: SelectorType,
    pub file_info: FileInfo,
    pub available_targets: Option<AvailableTargets>,
    pub similar_names: Vec<SimilarName>,
    pub partial_matches: Vec<PartialMatch>,
}

/// Why a query matched more than one target.
#[derive(Debug, Clone)]
pub struct AmbiguousContext {
    pub query: String,
    pub selector_type: SelectorType,
    pub file_info: FileInfo,
    pub matches: Vec<MatchInfo>,
    pub disambiguation_hints: Vec<String>,
}

/// Why a grep pattern matched no line.
#[derive(Debug, Clone)]
pub struct GrepNoMatchContext {
    pub pattern: String,
    pub file_info: FileInfo,
    pub partial_matches: Vec<PartialMatch>,
    pub similar_lines: Vec<String>,
}

/// Why a grep pattern matched more than one line.
#[derive(Debug, Clone)]
pub struct GrepAmbiguousContext {
    pub pattern: String,
    pub file_info: FileInfo,
    pub matches: Vec<MatchInfo>,
}


// ---------------------------------------------------------------------------
// Messages and hints
// ---------------------------------------------------------------------------

/// `parts` joined with `sep` between them.
pub open spec fn join_sep(parts: Seq<Seq<char>>, sep: Seq<char>) -> Seq<char>
    decreases parts.len(),
{
    if parts.len() == 0 {
        Seq::empty()
    } else if parts.len() == 1 {
        parts[0]
    } else {
        join_sep(parts.drop_last(), sep) + sep + parts.last()
    }
}

/// At most the first `n` elements.
pub open spec fn first_n<A>(s: Seq<A>, n: int) -> Seq<A> {
    if s.len() <= n {
        s
    } else {
        s.take(n)
    }
}

/// Names of targets.
pub open spec fn target_names(ts: Seq<TargetInfo>) -> Seq<Seq<char>> {
    ts.map_values(|t: TargetInfo| t.name@)
}

/// Parents that matches name, in order.
pub open spec fn parents_of(ms: Seq<MatchInfo>) -> Seq<Seq<char>>
    decreases ms.len(),
{
    if ms.len() == 0 {
        Seq::empty()
    } else {
        let prev = parents_of(ms.drop_last());
        match ms.last().parent {
            Some(p) => prev.push(p@),
            None => prev,
        }
    }
}

/// Not every match has the same name.
pub open spec fn names_differ(ms: Seq<MatchInfo>) -> bool {
    exists|i: int| 0 <= i < ms.len() && (#[trigger] ms[i]).name@ != ms[0].name@
}

/// The hints `generate_disambiguation_hints` gives, in order.
pub open spec fn disambiguation_hints_spec(ms: Seq<MatchInfo>, query: Seq<char>) -> Seq<Seq<char>> {
    let ps = parents_of(ms);
    let h1: Seq<Seq<char>> = if ps.len() > 1 {
        seq!["Add parent filter: select(.parent == \""@ + ps[0] + "\")"@]
    } else {
        Seq::empty()
    };
    let h2 = if ms.len() >= 2 {
        h1.push(
            "Use line range: from_line="@ + decimal(ms[0].line_start as nat) + ", to_line="@
                + decimal(ms[0].line_end as nat),
        )
    } else {
        h1
    };
    let h3 = if ms.len() > 0 && names_differ(ms) {
        h2.push("Be more specific with name: select(.name == \""@ + ms[0].name@ + "\")"@)
    } else {
        h2
    };
    if !contains(query, ".name"@) && ms.len() > 0 {
        h3.push("Add name filter: select(.name == \""@ + ms[0].name@ + "\")"@)
    } else {
        h3
    }
}

/// Characters of `a`, then `b`, then `c`.
fn concat3(a: &str, b: &str, c: &str) -> (r: String)
    ensures
        r@ == a@ + b@ + c@,
{
    let mut v = chars_of(a);
    append_str(&mut v, b);
    append_str(&mut v, c);
    string_of(&v)
}

/// Hints for telling apart several matches of a query: filter on the
/// parent when the matches have parents, use the first match's line range,
/// filter on the name when names differ, and add a name filter when the
/// query has none.
pub fn generate_disambiguation_hints(matches: &[MatchInfo], query: &str) -> (r: Vec<String>)
    ensures
        string_views(r@) == disambiguation_hints_spec(matches@, query@),
{
    let ghost ms = matches@;
    // Parents, in order.
    let mut parents: Vec<String> = Vec::new();
    let mut i: usize = 0;
    while i < matches.len()
        invariant
            i <= ms.len(),
            ms == matches@,
            string_views(parents@) == parents_of(ms.take(i as int)),
        decreases matches.len() - i,
    {
        proof {
            assert(ms.take(i + 1).drop_last() =~= ms.take(i as int));
        }
        match &matches[i].parent {
            Some(p) => {
                let ghost prev = string_views(parents@);
                parents.push(p.clone());
                assert(string_views(parents@) =~= prev.push(p@));
            },
            None => {},
        }
        i += 1;
    }
    assert(ms.take(ms.len() as int) =~= ms);
    let mut hints: Vec<String> = Vec::new();
    if parents.len() > 1 {
        let ghost prev = string_views(hints@);
        hints.push(concat3("Add parent filter: select(.parent == \"", parents[0].as_str(), "\")"));
        assert(string_views(hints@) =~= prev.push(
            "Add parent filter: select(.parent == \""@ + string_views(parents@)[0] + "\")"@,
        ));
    }
    if matches.len() >= 2 {
        let mut v = chars_of("Use line range: from_line=");
        append_chars(&mut v, &decimal_chars(matches[0].line_start));
        append_str(&mut v, ", to_line=");
        append_chars(&mut v, &decimal_chars(matches[0].line_end));
        let ghost prev = string_views(hints@);
        let h = string_of(&v);
        hints.push(h);
        assert(string_views(hints@) =~= prev.push(h@));
    }
    if matches.len() > 0 {
        let mut differ = false;
        let mut j: usize = 0;
        while j < matches.len()
            invariant
                j <= ms.len(),
                ms == matches@,
                ms.len() > 0,
                differ == exists|k: int| 0 <= k < j && (#[trigger] ms[k]).name@ != ms[0].name@,
            decreases matches.len() - j,
        {
            if !(matches[j].name == matches[0].name) {
                differ = true;
            }
            j += 1;
        }
        if differ {
            let ghost prev = string_views(hints@);
            let h = concat3("Be more specific with name: select(.name == \"", matches[0].name.as_str(), "\")");
            hints.push(h);
            assert(string_views(hints@) =~= prev.push(h@));
        }
    }
    let q = chars_of(query);
    let has_name = contains_chars(&q, &chars_of(".name"));
    if !has_name && matches.len() > 0 {
        let ghost prev = string_views(hints@);
        let h = concat3("Add name filter: select(.name == \"", matches[0].name.as_str(), "\")");
        hints.push(h);
        assert(string_views(hints@) =~= prev.push(h@));
    }
    hints
}

/// The query patterns that carry a target name, tried in order.
pub open spec fn name_patterns() -> Seq<Seq<char>> {
    seq![
        ".name == \"([^\"]+)\""@,
        ".name == '([^']+)'"@,
        "select\\(.name == \"([^\"]+)\"\\)"@,
        "select\\(.name == '([^']+)'\\)"@,
        "\\.name == \"([^\"]+)\""@,
    ]
}

/// The name captured by the first pattern (from index `i` on) that compiles
/// and matches.
pub open spec fn first_capture(ps: Seq<Seq<char>>, i: int, query: Seq<char>) -> Option<Seq<char>>
    decreases ps.len() - i,
{
    if i >= ps.len() || i < 0 {
        None
    } else if regex_compiles(ps[i]) && capture_group(regex_captures(ps[i], query), 1) is Some {
        capture_group(regex_captures(ps[i], query), 1)
    } else {
        first_capture(ps, i + 1, query)
    }
}

/// The target name in a query such as `.functions[] | select(.name == "foo")`.
pub fn extract_target_name_from_query(query: &str) -> (r: Option<String>)
    ensures
        match first_capture(name_patterns(), 0, query@) {
            Some(n) => r is Some && r->Some_0@ == n,
            None => r is None,
        },
{
    let patterns: [&str; 5] = [
        ".name == \"([^\"]+)\"",
        ".name == '([^']+)'",
        "select\\(.name == \"([^\"]+)\"\\)",
        "select\\(.name == '([^']+)'\\)",
        "\\.name == \"([^\"]+)\"",
    ];
    let mut i: usize = 0;
    while i < 5
        invariant
            i <= 5,
            forall|k: int| 0 <= k < 5 ==> #[trigger] patterns@[k]@ == name_patterns()[k],
            first_capture(name_patterns(), 0, query@) == first_capture(name_patterns(), i as int, query@),
        decreases 5 - i,
    {
        let p = patterns[i];
        match compile(p) {
            Ok(re) => {
                let caps = captures(&re, query);
                match group_of(&caps, 1) {
                    Some(name) => {
                        return Some(name);
                    },
                    None => {},
                }
            },
            Err(_) => {},
        }
        i += 1;
    }
    None
}

/// Suggested action for a query that matched nothing.
pub open spec fn no_match_action_spec(c: NoMatchContext) -> Seq<char> {
    if c.similar_names@.len() > 0 {
        "Did you mean '"@ + c.similar_names@[0].name@ + "'? (distance: "@ + decimal(
            c.similar_names@[0].distance as nat,
        ) + ")"@
    } else {
        match c.available_targets {
            Some(t) => if t.functions@.len() > 0 {
                "Available functions: "@ + join_sep(first_n(target_names(t.functions@), 5), ", "@)
            } else if t.headers@.len() > 0 {
                "Available headers: "@ + join_sep(first_n(target_names(t.headers@), 5), ", "@)
            } else {
                "Check available targets in the response"@
            },
            None => "Verify the query syntax and file content"@,
        }
    }
}

/// Names of at most the first five targets, joined with ", ".
fn first_five_names(ts: &Vec<TargetInfo>) -> (r: Vec<char>)
    ensures
        r@ == join_sep(first_n(target_names(ts@), 5), ", "@),
{
    let n = if ts.len() < 5 { ts.len() } else { 5 };
    let ghost names = first_n(target_names(ts@), 5);
    assert(names.len() == n);
    let mut out: Vec<char> = Vec::new();
    let mut i: usize = 0;
    while i < n
        invariant
            i <= n,
            n <= ts@.len(),
            names == first_n(target_names(ts@), 5),
            names.len() == n,
            forall|k: int| 0 <= k < n ==> #[trigger] names[k] == ts@[k].name@,
            out@ == join_sep(names.take(i as int), ", "@),
        decreases n - i,
    {
        proof {
            assert(names.take(i + 1).drop_last() =~= names.take(i as int));
        }
        if i > 0 {
            append_str(&mut out, ", ");
        }
        append_str(&mut out, ts[i].name.as_str());
        i += 1;
    }
    assert(names.take(n as int) =~= names);
    out
}

impl NoMatchContext {
    /// The action suggested to the agent: the closest name, else the
    /// available functions or headers, else a generic pointer.
    pub fn advisory_action(&self) -> (r: String)
        ensures
            r@ == no_match_action_spec(*self),
    {
        if self.similar_names.len() > 0 {
            let s = &self.similar_names[0];
            let mut v = chars_of("Did you mean '");
            append_str(&mut v, s.name.as_str());
            append_str(&mut v, "'? (distance: ");
            append_chars(&mut v, &decimal_chars(s.distance));
            append_str(&mut v, ")");
            return string_of(&v);
        }
        match &self.available_targets {
            Some(t) => {
                if t.functions.len() > 0 {
                    let mut v = chars_of("Available functions: ");
                    append_chars(&mut v, &first_five_names(&t.functions));
                    string_of(&v)
                } else if t.headers.len() > 0 {
                    let mut v = chars_of("Available headers: ");
                    append_chars(&mut v, &first_five_names(&t.headers));
                    string_of(&v)
                } else {
                    "Check available targets in the response".to_owned()
                }
            },
            None => "Verify the query syntax and file content".to_owned(),
        }
    }
}

/// Suggested action for a query that matched several nodes.
pub open spec fn ambiguous_action_spec(c: AmbiguousContext) -> Seq<char> {
    if c.disambiguation_hints@.len() > 0 {
        c.disambiguation_hints@[0]@
    } else {
        "Matched "@ + decimal(c.matches@.len()) + " nodes. Add more specific selector constraints."@
    }
}

impl AmbiguousContext {
    /// The action suggested to the agent: the first hint, else a count.
    pub fn advisory_action(&self) -> (r: String)
        ensures
            r@ == ambiguous_action_spec(*self),
    {
        if self.disambiguation_hints.len() > 0 {
            self.disambiguation_hints[0].clone()
        } else {
            let mut v = chars_of("Matched ");
            append_chars(&mut v, &decimal_chars(self.matches.len()));
            append_str(&mut v, " nodes. Add more specific selector constraints.");
            string_of(&v)
        }
    }
}

impl GrepAmbiguousContext {
    /// The action suggested to the agent.
    pub fn advisory_action(&self) -> (r: String)
        ensures
            r@ == "Matched "@ + decimal(self.matches@.len()) + " lines. Use line numbers or a more specific pattern."@,
    {
        let mut v = chars_of("Matched ");
        append_chars(&mut v, &decimal_chars(self.matches.len()));
        append_str(&mut v, " lines. Use line numbers or a more specific pattern.");
        string_of(&v)
    }
}

} // verus!
