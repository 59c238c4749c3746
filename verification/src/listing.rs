//! Listing a directory and finding files: the arguments, which entries a
//! search keeps, and how results are reported.
use vstd::prelude::*;
use crate::advisory::{AdvisoryLevel, AdvisoryMessage};
use crate::json_edit::JsonValue;
use crate::observe::text_advisory;
use crate::response::IvaldiResponse;
use crate::text::{append_chars, append_str, chars_of, contains, contains_chars, decimal, decimal_chars, string_of};

verus! {

/// Arguments of the directory listing tool.
#[derive(Debug, Clone)]
pub struct ListDirArgs {
    pub path: String,
    /// Sort entries by name.
    pub sort: bool,
    pub show_hidden: bool,
    /// Honour `.aiignore` and `.agentignore` files.
    pub respect_aiignore: bool,
    pub enable_gitignore: bool,
}

impl ListDirArgs {
    /// The directory listed when none is given.
    pub fn default_list_path() -> (r: String)
        ensures
            r@ == "."@,
    {
        ".".to_owned()
    }

    /// Whether entries are sorted when nothing says otherwise.
    pub fn default_list_sort() -> (r: bool)
        ensures
            r,
    {
        true
    }

    /// Whether hidden entries are shown when nothing says otherwise.
    pub fn default_list_hidden() -> (r: bool)
        ensures
            !r,
    {
        false
    }
}

/// One listed entry.
#[derive(Debug, Clone)]
pub struct DirEntry {
    pub name: String,
    pub path: String,
    pub is_dir: bool,
    pub is_symlink: bool,
    pub size: u64,
    /// Modification time, in seconds since the epoch.
    pub modified: Option<u64>,
}

/// The directory lister.
pub struct FsLister;

/// Listings with more entries than this get a note.
pub const MANY_ENTRIES: usize = 1000;

/// `a` comes before `b` in character order (or is equal).
pub open spec fn text_le(a: Seq<char>, b: Seq<char>) -> bool
    decreases a.len(),
{
    if a.len() == 0 {
        true
    } else if b.len() == 0 {
        false
    } else if a[0] != b[0] {
        (a[0] as u32) < (b[0] as u32)
    } else {
        text_le(a.drop_first(), b.drop_first())
    }
}

/// Abstract value of an entry.
pub open spec fn entry_view(e: DirEntry) -> (Seq<char>, Seq<char>, bool, bool, u64, Option<u64>) {
    (e.name@, e.path@, e.is_dir, e.is_symlink, e.size, e.modified)
}

/// Abstract values of entries.
pub open spec fn entry_views(s: Seq<DirEntry>) -> Seq<(Seq<char>, Seq<char>, bool, bool, u64, Option<u64>)> {
    s.map_values(|e: DirEntry| entry_view(e))
}

/// Inserts an entry after every entry whose name is not after its name.
pub open spec fn insert_by_name(
    s: Seq<(Seq<char>, Seq<char>, bool, bool, u64, Option<u64>)>,
    x: (Seq<char>, Seq<char>, bool, bool, u64, Option<u64>),
) -> Seq<(Seq<char>, Seq<char>, bool, bool, u64, Option<u64>)>
    decreases s.len(),
{
    if s.len() == 0 {
        seq![x]
    } else if text_le(s.last().0, x.0) {
        s.push(x)
    } else {
        insert_by_name(s.drop_last(), x).push(s.last())
    }
}

/// Entries ordered by name, stably.
pub open spec fn sort_by_name(s: Seq<(Seq<char>, Seq<char>, bool, bool, u64, Option<u64>)>) -> Seq<
    (Seq<char>, Seq<char>, bool, bool, u64, Option<u64>),
>
    decreases s.len(),
{
    if s.len() == 0 {
        Seq::empty()
    } else {
        insert_by_name(sort_by_name(s.drop_last()), s.last())
    }
}

pub(crate) fn text_le_chars(a: &Vec<char>, b: &Vec<char>) -> (r: bool)
    ensures
        r == text_le(a@, b@),
{
    let mut i: usize = 0;
    assert(a@.skip(0) =~= a@);
    assert(b@.skip(0) =~= b@);
    while i < a.len() && i < b.len() && a[i] == b[i]
        invariant
            i <= a@.len(),
            i <= b@.len(),
            text_le(a@, b@) == text_le(a@.skip(i as int), b@.skip(i as int)),
        decreases a.len() - i,
    {
        proof {
            assert(a@.skip(i as int).drop_first() =~= a@.skip(i + 1));
            assert(b@.skip(i as int).drop_first() =~= b@.skip(i + 1));
        }
        i += 1;
    }
    if i == a.len() {
        true
    } else if i == b.len() {
        false
    } else {
        proof {
            assert(a@.skip(i as int)[0] == a@[i as int]);
            assert(b@.skip(i as int)[0] == b@[i as int]);
        }
        (a[i] as u32) < (b[i] as u32)
    }
}

fn duplicate_entry(e: &DirEntry) -> (r: DirEntry)
    ensures
        entry_view(r) == entry_view(*e),
{
    DirEntry {
        name: e.name.clone(),
        path: e.path.clone(),
        is_dir: e.is_dir,
        is_symlink: e.is_symlink,
        size: e.size,
        modified: e.modified,
    }
}

fn insert_entry(v: &mut Vec<DirEntry>, x: DirEntry)
    ensures
        entry_views(final(v)@) == insert_by_name(entry_views(old(v)@), entry_view(x)),
    decreases old(v)@.len(),
{
    let ghost s = entry_views(v@);
    let last_le = if v.len() == 0 {
        true
    } else {
        let a = chars_of(v[v.len() - 1].name.as_str());
        let b = chars_of(x.name.as_str());
        text_le_chars(&a, &b)
    };
    if v.len() == 0 || last_le {
        v.push(x);
        assert(entry_views(v@) =~= s.push(entry_view(x)));
    } else {
        let y = v.pop().unwrap();
        assert(entry_views(v@) =~= s.drop_last());
        insert_entry(v, x);
        let ghost mid = entry_views(v@);
        let ghost yv = entry_view(y);
        v.push(y);
        assert(entry_views(v@) =~= mid.push(yv));
    }
}

impl FsLister {
    /// The listing's response: the entries (ordered by name when asked),
    /// with a warning about the last entry that could not be read, or else
    /// a note when there are more than 1000 entries.
    pub fn finish_listing(entries: Vec<DirEntry>, sort: bool, read_error: Option<String>) -> (r:
        IvaldiResponse<Vec<DirEntry>>)
        ensures
            !r.is_error && r.error is None && r.ui_diffs@.len() == 0,
            r.content matches Some(es) && entry_views(es@) == if sort {
                sort_by_name(entry_views(entries@))
            } else {
                entry_views(entries@)
            },
            match read_error {
                Some(e) => r.advisory@.len() == 1 && text_advisory(
                    r.advisory@[0],
                    AdvisoryLevel::Warn,
                    "Failed to read an entry: "@ + e@,
                ),
                None => if entries@.len() > 1000 {
                    r.advisory@.len() == 1 && text_advisory(
                        r.advisory@[0],
                        AdvisoryLevel::Info,
                        "Directory contains "@ + decimal(entries@.len())
                            + " items. Consider using filters."@,
                    )
                } else {
                    r.advisory@.len() == 0
                },
            },
    {
        let n = entries.len();
        let ghost ev = entry_views(entries@);
        let out = if sort {
            let mut sorted: Vec<DirEntry> = Vec::new();
            let mut i: usize = 0;
            while i < entries.len()
                invariant
                    i <= entries@.len(),
                    ev == entry_views(entries@),
                    entry_views(sorted@) == sort_by_name(ev.take(i as int)),
                decreases entries.len() - i,
            {
                proof {
                    assert(ev.take(i + 1).drop_last() =~= ev.take(i as int));
                }
                insert_entry(&mut sorted, duplicate_entry(&entries[i]));
                i += 1;
            }
            assert(ev.take(entries@.len() as int) =~= ev);
            sorted
        } else {
            entries
        };
        let resp = IvaldiResponse::success(out);
        match read_error {
            Some(e) => {
                let mut v = chars_of("Failed to read an entry: ");
                append_str(&mut v, e.as_str());
                let m = string_of(&v);
                resp.with_advisory(AdvisoryMessage::tool_warn(JsonValue::text(m.as_str())))
            },
            None => if n > MANY_ENTRIES {
                let mut v = chars_of("Directory contains ");
                append_chars(&mut v, &decimal_chars(n));
                append_str(&mut v, " items. Consider using filters.");
                let m = string_of(&v);
                resp.with_advisory(AdvisoryMessage::tool_info(JsonValue::text(m.as_str())))
            } else {
                resp
            },
        }
    }
}

// ---------------------------------------------------------------------------
// Finding files
// ---------------------------------------------------------------------------

/// Arguments of the file search tool.
#[derive(Debug, Clone)]
pub struct FindFilesArgs {
    pub path: String,
    /// Glob (or, when it is not a valid glob, a substring) to match.
    pub pattern: String,
    pub max_depth: usize,
    pub max_entries: usize,
    pub timeout_ms: u64,
    pub enable_gitignore: bool,
    pub respect_aiignore: bool,
    pub respect_agentignore: bool,
}

impl FindFilesArgs {
    /// The directory searched when none is given.
    pub fn default_root() -> (r: String)
        ensures
            r@ == "."@,
    {
        ".".to_owned()
    }

    /// The search depth when none is given.
    pub fn default_max_depth() -> (r: usize)
        ensures
            r == 5,
    {
        5
    }

    /// The most results when nothing says otherwise.
    pub fn default_max_entries() -> (r: usize)
        ensures
            r == 100,
    {
        100
    }

    /// The time limit in milliseconds when nothing says otherwise.
    pub fn default_timeout_ms() -> (r: u64)
        ensures
            r == 2000,
    {
        2000
    }
}

/// A found file.
#[derive(Debug, Clone)]
pub struct FileMatch {
    pub path: String,
    pub is_dir: bool,
    pub size: u64,
}

/// The file searcher.
pub struct FsNavigator;

/// Whether a glob pattern compiles (`glob::Pattern::new`).
pub uninterp spec fn glob_compiles(pattern: Seq<char>) -> bool;

/// Whether a compiled glob pattern matches a path (`Pattern::matches_path`).
pub uninterp spec fn glob_matches(pattern: Seq<char>, path: Seq<char>) -> bool;

/// `glob::Pattern::new(pattern)` then `matches_path(path)`: `None` when the
/// pattern does not compile, else whether it matches.
#[verifier::external_body]
fn glob_match(pattern: &str, path: &str) -> (r: Option<bool>)
    ensures
        match r {
            Some(m) => glob_compiles(pattern@) && m == glob_matches(pattern@, path@),
            None => !glob_compiles(pattern@),
        },
{
    match glob::Pattern::new(pattern) {
        Ok(g) => Some(g.matches_path(std::path::Path::new(path))),
        Err(_) => None,
    }
}

/// Whether a search keeps a path: everything for an empty pattern or `*`;
/// else the glob must match the path or its file name, or, when the
/// pattern is not a valid glob, the path or file name must contain it.
pub open spec fn keeps_path(pattern: Seq<char>, path: Seq<char>, file_name: Option<Seq<char>>) -> bool {
    if pattern.len() == 0 || pattern == "*"@ {
        true
    } else if glob_compiles(pattern) {
        glob_matches(pattern, path) || (file_name matches Some(n) && glob_matches(pattern, n))
    } else {
        contains(path, pattern) || (file_name matches Some(n) && contains(n, pattern))
    }
}

impl FsNavigator {
    /// Whether a search for `pattern` keeps the path (with its file name,
    /// if it has one).
    pub fn matches_pattern(pattern: &str, path: &str, file_name: Option<&str>) -> (r: bool)
        ensures
            r == keeps_path(
                pattern@,
                path@,
                match file_name {
                    Some(n) => Some(n@),
                    None => None,
                },
            ),
    {
        let pc = chars_of(pattern);
        let star = chars_of("*");
        if pc.len() == 0 || crate::text::chars_eq(&pc, &star) {
            return true;
        }
        match glob_match(pattern, path) {
            Some(m) => {
                if m {
                    return true;
                }
                match file_name {
                    Some(n) => match glob_match(pattern, n) {
                        Some(x) => x,
                        None => false,
                    },
                    None => false,
                }
            },
            None => {
                let path_c = chars_of(path);
                if contains_chars(&path_c, &pc) {
                    return true;
                }
                match file_name {
                    Some(n) => {
                        let nc = chars_of(n);
                        contains_chars(&nc, &pc)
                    },
                    None => false,
                }
            },
        }
    }

    /// The search's response: the matches, a note when the search stopped at
    /// the entry limit, and a warning (naming the limit as `timeout_text`)
    /// when it ran out of time.
    pub fn finish_search(
        matches: Vec<FileMatch>,
        truncated: bool,
        max_entries: usize,
        timed_out: bool,
        timeout_text: &str,
    ) -> (r: IvaldiResponse<Vec<FileMatch>>)
        ensures
            !r.is_error && r.error is None && r.content == Some(matches),
            r.advisory@.len() == (if truncated { 1int } else { 0 }) + (if timed_out { 1int } else { 0 }),
            truncated ==> text_advisory(
                r.advisory@[0],
                AdvisoryLevel::Info,
                "Search truncated at "@ + decimal(max_entries as nat) + " results. Please refine query."@,
            ),
            timed_out ==> text_advisory(
                r.advisory@[r.advisory@.len() - 1],
                AdvisoryLevel::Warn,
                "Search timed out after "@ + timeout_text@ + ". Results may be incomplete."@,
            ),
    {
        let mut resp = IvaldiResponse::success(matches);
        if truncated {
            let mut v = chars_of("Search truncated at ");
            append_chars(&mut v, &decimal_chars(max_entries));
            append_str(&mut v, " results. Please refine query.");
            let m = string_of(&v);
            resp = resp.with_advisory(AdvisoryMessage::tool_info(JsonValue::text(m.as_str())));
        }
        if timed_out {
            let mut v = chars_of("Search timed out after ");
            append_str(&mut v, timeout_text);
            append_str(&mut v, ". Results may be incomplete.");
            let m = string_of(&v);
            resp = resp.with_advisory(AdvisoryMessage::tool_warn(JsonValue::text(m.as_str())));
        }
        resp
    }
}

/// Why a search stops before looking at the next entry.
#[derive(Debug, Clone, Copy, PartialEq, Eq, Structural)]
pub enum SearchStop {
    /// The time allowed ran out.
    TimedOut,
    /// As many matches as allowed were found.
    Truncated,
}

impl FsNavigator {
    /// Whether the search stops before the next entry: first when out of
    /// time, then when `max_entries` matches were found.
    pub fn search_stop(found: usize, max_entries: usize, out_of_time: bool) -> (r: Option<SearchStop>)
        ensures
            r == if out_of_time {
                Some(SearchStop::TimedOut)
            } else if found >= max_entries {
                Some(SearchStop::Truncated)
            } else {
                None::<SearchStop>
            },
    {
        if out_of_time {
            Some(SearchStop::TimedOut)
        } else if found >= max_entries {
            Some(SearchStop::Truncated)
        } else {
            None
        }
    }
}

/// Whether a code search keeps a file: always without a pattern or with one
/// that is no valid glob; else the glob must match the path or its file
/// name.
pub open spec fn glob_keeps_spec(pattern: Option<Seq<char>>, path: Seq<char>, file_name: Option<Seq<char>>) -> bool {
    match pattern {
        None => true,
        Some(p) => !glob_compiles(p) || glob_matches(p, path) || (file_name matches Some(n) && glob_matches(p, n)),
    }
}

impl FsNavigator {
    /// Whether a code search keeps a file (see `glob_keeps_spec`).
    pub fn glob_keeps(pattern: Option<&str>, path: &str, file_name: Option<&str>) -> (r: bool)
        ensures
            r == glob_keeps_spec(
                match pattern {
                    Some(p) => Some(p@),
                    None => None,
                },
                path@,
                match file_name {
                    Some(n) => Some(n@),
                    None => None,
                },
            ),
    {
        match pattern {
            None => true,
            Some(p) => match glob_match(p, path) {
                None => true,
                Some(true) => true,
                Some(false) => match file_name {
                    Some(n) => match glob_match(p, n) {
                        Some(m) => m,
                        None => false,
                    },
                    None => false,
                },
            },
        }
    }
}

} // verus!
