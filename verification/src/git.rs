//! Reading git history: the requests, and the bookkeeping around what the
//! repository reports (which blamed lines are shown, which patch lines
//! belong to which file, which change matched a search).
use vstd::prelude::*;
use crate::error::IvaldiError;
use crate::pattern::{is_match, regex_matches, Pattern};
use crate::text::{append_str, chars_of, string_of, trim, trim_chars};

verus! {

/// A read-only git request.
#[derive(Debug, Clone)]
pub enum GitAction {
    /// Who last changed each line (only the given lines, when listed).
    Blame { path: String, lines: Option<Vec<usize>> },
    /// Recent commits, optionally touching a path or newer than a window.
    Log { path: Option<String>, limit: usize, since: Option<String> },
    /// The changes between two revisions.
    Diff { from: String, to: String, path: Option<String>, stat_only: bool },
    /// Commits whose added or removed lines match a regular expression.
    Search { query: String, path: Option<String>, limit: usize },
    /// Any git command.
    Raw { args: Vec<String> },
}

/// Arguments of the git tool.
#[derive(Debug, Clone)]
pub struct GitReadArgs {
    pub action: GitAction,
    /// The repository; the session's project root when absent.
    pub project_root: Option<String>,
}

impl GitAction {
    /// The most commits returned when nothing says otherwise.
    pub fn default_limit() -> (r: usize)
        ensures
            r == 50,
    {
        50
    }

    /// The revision compared against when none is given.
    pub fn default_head() -> (r: String)
        ensures
            r@ == "HEAD"@,
    {
        "HEAD".to_owned()
    }
}

impl GitReadArgs {
    /// The repository a request reads: its own root, else the session's.
    pub fn repo_root(&self, session_root: Option<&str>) -> (r: Result<String, IvaldiError>)
        ensures
            match self.project_root {
                Some(p) => r matches Ok(x) && x@ == p@,
                None => match session_root {
                    Some(s) => r matches Ok(x) && x@ == s@,
                    None => r matches Err(IvaldiError::InvalidArgument(m)) && m@
                        == "No project_root available. Cannot locate git repository."@,
                },
            },
    {
        match &self.project_root {
            Some(p) => Ok(p.clone()),
            None => match session_root {
                Some(s) => Ok(s.to_owned()),
                None => Err(
                    IvaldiError::InvalidArgument(
                        "No project_root available. Cannot locate git repository.".to_owned(),
                    ),
                ),
            },
        }
    }
}

/// The lines of a blame hunk that are shown: all of them, or those listed.
pub open spec fn blamed_lines(start: nat, count: nat, targets: Option<Seq<usize>>) -> Seq<nat>
    decreases count,
{
    if count == 0 {
        Seq::empty()
    } else {
        let prev = blamed_lines(start, (count - 1) as nat, targets);
        let line = start + count - 1;
        match targets {
            Some(t) => if t.contains(line as usize) {
                prev.push(line as nat)
            } else {
                prev
            },
            None => prev.push(line as nat),
        }
    }
}

/// The lines of a blame hunk (`count` lines from `start`) that are shown.
pub fn blame_lines(start: usize, count: usize, targets: Option<&Vec<usize>>) -> (r: Vec<usize>)
    requires
        start + count <= usize::MAX,
    ensures
        r@.map_values(|x: usize| x as nat) == blamed_lines(
            start as nat,
            count as nat,
            match targets {
                Some(t) => Some(t@),
                None => None,
            },
        ),
{
    let ghost tv = match targets {
        Some(t) => Some(t@),
        None => None::<Seq<usize>>,
    };
    let mut out: Vec<usize> = Vec::new();
    let mut k: usize = 0;
    while k < count
        invariant
            k <= count,
            start + count <= usize::MAX,
            tv == match targets {
                Some(t) => Some(t@),
                None => None,
            },
            out@.map_values(|x: usize| x as nat) == blamed_lines(start as nat, k as nat, tv),
        decreases count - k,
    {
        let line = start + k;
        let keep = match targets {
            Some(t) => {
                let mut found = false;
                let mut j: usize = 0;
                while j < t.len()
                    invariant
                        j <= t@.len(),
                        found == exists|q: int| 0 <= q < j && t@[q] == line,
                    decreases t.len() - j,
                {
                    if t[j] == line {
                        found = true;
                    }
                    j += 1;
                }
                proof {
                    if found {
                        let q = choose|q: int| 0 <= q < t@.len() && t@[q] == line;
                        assert(t@.contains(line));
                    } else {
                        assert(!t@.contains(line));
                    }
                }
                found
            },
            None => true,
        };
        if keep {
            let ghost prev = out@.map_values(|x: usize| x as nat);
            out.push(line);
            assert(out@.map_values(|x: usize| x as nat) =~= prev.push(line as nat));
        }
        k += 1;
    }
    out
}

/// Seconds in a named log window (`1d`, `1w`, `1m`); other texts are read
/// as timestamps by the caller.
pub open spec fn log_window_spec(s: Seq<char>) -> Option<int> {
    if s == "1d"@ {
        Some(86400)
    } else if s == "1w"@ {
        Some(604800)
    } else if s == "1m"@ {
        Some(2592000)
    } else {
        None
    }
}

/// Seconds in a named log window.
pub fn log_window_seconds(since: &str) -> (r: Option<i64>)
    ensures
        match log_window_spec(since@) {
            Some(n) => r == Some(n as i64),
            None => r is None,
        },
{
    let c = chars_of(since);
    let d = chars_of("1d");
    let w = chars_of("1w");
    let m = chars_of("1m");
    if crate::text::chars_eq(&c, &d) {
        Some(86400)
    } else if crate::text::chars_eq(&c, &w) {
        Some(604800)
    } else if crate::text::chars_eq(&c, &m) {
        Some(2592000)
    } else {
        None
    }
}

/// The time an RFC 3339 text names, in seconds since the epoch
/// (`chrono::DateTime::parse_from_rfc3339`), or nothing when it names none.
pub uninterp spec fn rfc3339_seconds(s: Seq<char>) -> Option<i64>;

/// `DateTime::parse_from_rfc3339`, as seconds since the epoch.
#[verifier::external_body]
fn parse_rfc3339_seconds(s: &str) -> (r: Option<i64>)
    ensures
        r == rfc3339_seconds(s@),
{
    chrono::DateTime::parse_from_rfc3339(s).ok().map(|dt| dt.timestamp())
}

/// The oldest commit time a log keeps, at time `now`: a named window back
/// from now, else the time an RFC 3339 text names, else now (a text that
/// names no time keeps only commits from the future).
pub open spec fn log_cutoff_spec(now: i64, since: Option<Seq<char>>) -> Option<int> {
    match since {
        None => None,
        Some(s) => match log_window_spec(s) {
            Some(w) => Some(now - w),
            None => match rfc3339_seconds(s) {
                Some(t) => Some(t as int),
                None => Some(now as int),
            },
        },
    }
}

/// The oldest commit time a log keeps (see `log_cutoff_spec`).
pub fn log_cutoff(now: i64, since: Option<&str>) -> (r: Option<i64>)
    requires
        now >= i64::MIN + 2592000,
    ensures
        match log_cutoff_spec(
            now,
            match since {
                Some(s) => Some(s@),
                None => None,
            },
        ) {
            Some(c) => r == Some(c as i64),
            None => r is None,
        },
{
    match since {
        None => None,
        Some(s) => match log_window_seconds(s) {
            Some(w) => Some(now - w),
            None => match parse_rfc3339_seconds(s) {
                Some(t) => Some(t),
                None => Some(now),
            },
        },
    }
}

/// What a log does with the next commit of the walk.
#[derive(Debug, Clone, Copy, PartialEq, Eq, Structural)]
pub enum LogStep {
    /// The commit is older than the cutoff: the walk ends.
    Stop,
    /// The commit does not touch the path: it is passed over.
    Skip,
    /// The commit is listed and the walk goes on.
    Keep,
    /// The commit is listed and the limit is reached: the walk ends.
    KeepLast,
}

/// The decision on the next commit, `kept` commits having been listed:
/// commits walk newest first, so one older than the cutoff ends the walk;
/// with a path, commits that do not touch it are passed over; the walk
/// ends once `limit` commits are listed (a limit of 0 lists one).
pub open spec fn log_step_spec(kept: nat, limit: nat, time: i64, cutoff: Option<i64>, touches: Option<bool>) -> LogStep {
    if cutoff matches Some(c) && time < c {
        LogStep::Stop
    } else if touches == Some(false) {
        LogStep::Skip
    } else if kept + 1 >= limit {
        LogStep::KeepLast
    } else {
        LogStep::Keep
    }
}

/// The decision on the next commit of a log walk (see `log_step_spec`);
/// `touches` says whether the commit touches the path, when there is one.
pub fn log_step(kept: usize, limit: usize, time: i64, cutoff: Option<i64>, touches: Option<bool>) -> (r: LogStep)
    ensures
        r == log_step_spec(kept as nat, limit as nat, time, cutoff, touches),
{
    match cutoff {
        Some(c) => {
            if time < c {
                return LogStep::Stop;
            }
        },
        None => {},
    }
    match touches {
        Some(false) => {
            return LogStep::Skip;
        },
        _ => {},
    }
    if kept >= limit || limit - kept <= 1 {
        LogStep::KeepLast
    } else {
        LogStep::Keep
    }
}

/// After a commit of a history search was examined: whether it is listed
/// (its change matched) and whether the search ends (`limit` commits
/// listed; a limit of 0 ends it after the first commit).
pub fn search_step(listed: usize, limit: usize, matched: bool) -> (r: (bool, bool))
    ensures
        r.0 == matched,
        r.1 == (listed + (if matched { 1int } else { 0 }) >= limit),
{
    let now = if matched && listed < usize::MAX { listed + 1 } else { listed };
    if matched && listed == usize::MAX {
        return (true, true);
    }
    (matched, now >= limit)
}

/// One line of a patch as the repository prints it: the file it belongs to
/// (when known), its origin marker, and its text.
#[derive(Debug, Clone)]
pub struct PatchLine {
    pub path: Option<String>,
    pub origin: char,
    pub content: String,
}

/// Origins whose lines are kept in a file's diff.
pub open spec fn kept_origin(c: char) -> bool {
    c == '+' || c == '-' || c == ' ' || c == 'H' || c == 'F'
}

/// Grouping state after some patch lines: finished files, the current
/// file, and its diff so far.
pub open spec fn patch_state(ls: Seq<(Option<Seq<char>>, char, Seq<char>)>) -> (
    Seq<(Seq<char>, Seq<char>)>,
    Option<Seq<char>>,
    Seq<char>,
)
    decreases ls.len(),
{
    if ls.len() == 0 {
        (Seq::empty(), None, Seq::empty())
    } else {
        let (files, cur, diff) = patch_state(ls.drop_last());
        let (p, origin, text) = ls.last();
        let (files2, cur2, diff2) = match p {
            Some(path) => if cur != Some(path) {
                (
                    match cur {
                        Some(prev) => files.push((prev, diff)),
                        None => files,
                    },
                    Some(path),
                    Seq::empty(),
                )
            } else {
                (files, cur, diff)
            },
            None => (files, cur, diff),
        };
        (files2, cur2, if kept_origin(origin) {
            diff2 + seq![origin] + text
        } else {
            diff2
        })
    }
}

/// The per-file diffs of a patch, in order.
pub open spec fn patch_files(ls: Seq<(Option<Seq<char>>, char, Seq<char>)>) -> Seq<(Seq<char>, Seq<char>)> {
    let (files, cur, diff) = patch_state(ls);
    match cur {
        Some(p) => files.push((p, diff)),
        None => files,
    }
}

/// Abstract values of patch lines.
pub open spec fn patch_views(v: Seq<PatchLine>) -> Seq<(Option<Seq<char>>, char, Seq<char>)> {
    v.map_values(
        |l: PatchLine| (
            match l.path {
                Some(p) => Some(p@),
                None => None,
            },
            l.origin,
            l.content@,
        ),
    )
}

/// Abstract values of per-file diffs.
pub open spec fn file_diff_views(v: Seq<(String, String)>) -> Seq<(Seq<char>, Seq<char>)> {
    v.map_values(|f: (String, String)| (f.0@, f.1@))
}

/// Splits a printed patch into per-file diffs: a line naming another file
/// starts that file's diff; added, removed, context, hunk-header and
/// file-header lines are kept, each after its origin marker.
pub fn group_patch_lines(lines: &Vec<PatchLine>) -> (r: Vec<(String, String)>)
    ensures
        file_diff_views(r@) == patch_files(patch_views(lines@)),
{
    let ghost lv = patch_views(lines@);
    let mut files: Vec<(String, String)> = Vec::new();
    let mut cur: Option<String> = None;
    let mut diff: Vec<char> = Vec::new();
    let mut i: usize = 0;
    while i < lines.len()
        invariant
            i <= lines@.len(),
            lv == patch_views(lines@),
            ({
                let st = patch_state(lv.take(i as int));
                &&& file_diff_views(files@) == st.0
                &&& match cur {
                    Some(c) => st.1 == Some(c@),
                    None => st.1 is None,
                }
                &&& diff@ == st.2
            }),
        decreases lines.len() - i,
    {
        let l = &lines[i];
        proof {
            assert(lv.take(i + 1).drop_last() =~= lv.take(i as int));
        }
        match &l.path {
            Some(p) => {
                let same = match &cur {
                    Some(c) => {
                        let a = chars_of(c.as_str());
                        let b = chars_of(p.as_str());
                        crate::text::chars_eq(&a, &b)
                    },
                    None => false,
                };
                if !same {
                    match cur {
                        Some(prev) => {
                            let ghost fv = file_diff_views(files@);
                            let d = string_of(&diff);
                            files.push((prev, d));
                            assert(file_diff_views(files@) =~= fv.push((prev@, d@)));
                        },
                        None => {},
                    }
                    cur = Some(p.clone());
                    diff = Vec::new();
                }
            },
            None => {},
        }
        if l.origin == '+' || l.origin == '-' || l.origin == ' ' || l.origin == 'H' || l.origin == 'F' {
            diff.push(l.origin);
            crate::text::append_str(&mut diff, l.content.as_str());
        }
        i += 1;
    }
    assert(lv.take(lines@.len() as int) =~= lv);
    match cur {
        Some(p) => {
            let ghost fv = file_diff_views(files@);
            let d = string_of(&diff);
            files.push((p, d));
            assert(file_diff_views(files@) =~= fv.push((p@, d@)));
        },
        None => {},
    }
    files
}

/// The first added or removed line the pattern matches, trimmed.
pub open spec fn search_match(p: Seq<char>, ls: Seq<(char, Seq<char>)>) -> Option<Seq<char>>
    decreases ls.len(),
{
    if ls.len() == 0 {
        None
    } else if (ls[0].0 == '+' || ls[0].0 == '-') && regex_matches(p, ls[0].1) {
        Some(trim(ls[0].1))
    } else {
        search_match(p, ls.drop_first())
    }
}

/// The first added or removed line of a commit's patch that the pattern
/// matches, trimmed, if any.
pub fn first_change_match(re: &Pattern, lines: &Vec<(char, String)>) -> (r: Option<String>)
    ensures
        match search_match(re@, lines@.map_values(|l: (char, String)| (l.0, l.1@))) {
            Some(m) => r matches Some(x) && x@ == m,
            None => r is None,
        },
{
    let ghost lv = lines@.map_values(|l: (char, String)| (l.0, l.1@));
    let mut i: usize = 0;
    assert(lv.skip(0) =~= lv);
    while i < lines.len()
        invariant
            i <= lines@.len(),
            lv == lines@.map_values(|l: (char, String)| (l.0, l.1@)),
            search_match(re@, lv) == search_match(re@, lv.skip(i as int)),
        decreases lines.len() - i,
    {
        proof {
            assert(lv.skip(i as int)[0] == lv[i as int]);
            assert(lv.skip(i as int).drop_first() =~= lv.skip(i + 1));
        }
        let (origin, text) = (lines[i].0, &lines[i].1);
        if (origin == '+' || origin == '-') && is_match(re, text.as_str()) {
            let tc = chars_of(text.as_str());
            return Some(string_of(&trim_chars(&tc)));
        }
        i += 1;
    }
    None
}

} // verus!
