//! Regular expressions, compiled and run by the `regex` crate.
//!
//! What a pattern matches is the regex crate's business; this module only
//! names those results so that the logic around them can be stated exactly.
use vstd::prelude::*;

verus! {

#[verifier::external_type_specification]
#[verifier::external_body]
pub struct ExRegex(regex::Regex);

/// Whether `regex::Regex::new` accepts a pattern.
pub uninterp spec fn regex_compiles(pattern: Seq<char>) -> bool;

/// The message of the error `regex::Regex::new` returns for a pattern.
pub uninterp spec fn regex_error_text(pattern: Seq<char>) -> Seq<char>;

/// Whether a pattern matches somewhere in a haystack (`Regex::is_match`).
pub uninterp spec fn regex_matches(pattern: Seq<char>, haystack: Seq<char>) -> bool;

/// The capture groups of the first match, if there is one
/// (`Regex::captures`): entry `i` is the text of group `i`, or `None` where
/// that group took no part in the match.
pub uninterp spec fn regex_captures(pattern: Seq<char>, haystack: Seq<char>) -> Option<
    Seq<Option<Seq<char>>>,
>;

/// Group `i` of a capture result, if there was a match and the group took
/// part in it.
pub open spec fn capture_group(caps: Option<Seq<Option<Seq<char>>>>, i: int) -> Option<Seq<char>> {
    match caps {
        Some(gs) => if 0 <= i < gs.len() {
            gs[i]
        } else {
            None
        },
        None => None,
    }
}

/// Views of optional strings.
pub open spec fn opt_views(v: Seq<Option<String>>) -> Seq<Option<Seq<char>>> {
    v.map_values(|o: Option<String>| match o {
        Some(s) => Some(s@),
        None => None,
    })
}

/// The haystack with its first match replaced (`Regex::replace`).
pub uninterp spec fn regex_replace_first(
    pattern: Seq<char>,
    haystack: Seq<char>,
    replacement: Seq<char>,
) -> Seq<char>;

/// The characters that have a meaning in a regular expression.
pub open spec fn regex_meta(c: char) -> bool {
    c == '\\' || c == '.' || c == '+' || c == '*' || c == '?' || c == '(' || c == ')' || c == '|' || c == '['
        || c == ']' || c == '{' || c == '}' || c == '^' || c == '$' || c == '#' || c == '&' || c == '-' || c
        == '~'
}

/// A pattern matching exactly the given text: each metacharacter preceded
/// by a backslash.
pub open spec fn regex_escape(text: Seq<char>) -> Seq<char>
    decreases text.len(),
{
    if text.len() == 0 {
        Seq::empty()
    } else {
        let c = text.last();
        regex_escape(text.drop_last()) + if regex_meta(c) {
            seq!['\\', c]
        } else {
            seq![c]
        }
    }
}

/// `regex::escape`: the text with every regex metacharacter (see
/// `regex_meta`) preceded by a backslash.
#[verifier::external_body]
pub(crate) fn escape(text: &str) -> (r: String)
    ensures
        r@ == regex_escape(text@),
{
    regex::escape(text)
}

/// A compiled regular expression together with the pattern it came from.
pub struct Pattern {
    source: String,
    re: regex::Regex,
}

impl View for Pattern {
    type V = Seq<char>;

    /// The pattern text the expression was compiled from.
    closed spec fn view(&self) -> Seq<char> {
        self.source@
    }
}

/// Compiles a pattern with `regex::Regex::new`.
/// On failure the error's display text is returned.
#[verifier::external_body]
pub(crate) fn compile(pattern: &str) -> (r: Result<Pattern, String>)
    ensures
        r is Ok <==> regex_compiles(pattern@),
        r matches Ok(p) ==> p@ == pattern@,
        r matches Err(m) ==> m@ == regex_error_text(pattern@),
{
    match regex::Regex::new(pattern) {
        Ok(re) => Ok(Pattern { source: pattern.to_string(), re }),
        Err(e) => Err(e.to_string()),
    }
}

/// `Regex::is_match`: whether the pattern matches somewhere in `haystack`.
#[verifier::external_body]
pub(crate) fn is_match(p: &Pattern, haystack: &str) -> (r: bool)
    ensures
        r == regex_matches(p@, haystack@),
{
    p.re.is_match(haystack)
}

/// `Regex::captures`: the groups of the first match, each converted to an
/// owned string.
#[verifier::external_body]
pub(crate) fn captures(p: &Pattern, haystack: &str) -> (r: Option<Vec<Option<String>>>)
    ensures
        match r {
            Some(v) => regex_captures(p@, haystack@) == Some(opt_views(v@)),
            None => regex_captures(p@, haystack@) is None,
        },
{
    p.re.captures(haystack).map(|c| c.iter().map(|m| m.map(|m| m.as_str().to_string())).collect())
}

/// Group `i` of a capture result.
pub fn group_of(caps: &Option<Vec<Option<String>>>, i: usize) -> (r: Option<String>)
    ensures
        r matches Some(s) ==> capture_group(
            match caps {
                Some(v) => Some(opt_views(v@)),
                None => None,
            },
            i as int,
        ) == Some(s@),
        r is None ==> capture_group(
            match caps {
                Some(v) => Some(opt_views(v@)),
                None => None,
            },
            i as int,
        ) is None,
{
    match caps {
        Some(v) => if i < v.len() {
            match &v[i] {
                Some(s) => Some(s.clone()),
                None => None,
            }
        } else {
            None
        },
        None => None,
    }
}

/// `Regex::replace`: the first match replaced by `replacement`.
#[verifier::external_body]
pub(crate) fn replace_first(p: &Pattern, haystack: &str, replacement: &str) -> (r: String)
    ensures
        r@ == regex_replace_first(p@, haystack@, replacement@),
{
    p.re.replace(haystack, replacement).to_string()
}

impl Pattern {
    /// Compiles a regular expression; on failure, the reason as text.
    pub fn new(pattern: &str) -> (r: Result<Pattern, String>)
        ensures
            r is Ok <==> regex_compiles(pattern@),
            r matches Ok(p) ==> p@ == pattern@,
            r matches Err(m) ==> m@ == regex_error_text(pattern@),
    {
        compile(pattern)
    }
}

} // verus!
