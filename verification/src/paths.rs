//! Paths given by people: a leading `~` stands for the home directory.
use vstd::prelude::*;
use crate::text::string_views;

verus! {

/// The rest of a path whose first component is `~` (`Path::strip_prefix`),
/// or nothing when its first component is something else.
pub uninterp spec fn tilde_rest(p: Seq<char>) -> Option<Seq<char>>;

/// A path followed by another (`PathBuf::push`).
pub uninterp spec fn path_join(base: Seq<char>, rest: Seq<char>) -> Seq<char>;

/// `Path::strip_prefix("~")`, converted lossily to text.
#[verifier::external_body]
fn strip_tilde(p: &str) -> (r: Option<String>)
    ensures
        match r {
            Some(rest) => tilde_rest(p@) == Some(rest@),
            None => tilde_rest(p@) is None,
        },
{
    std::path::Path::new(p).strip_prefix("~").ok().map(|r| r.to_string_lossy().into_owned())
}

/// `PathBuf::push`, converted lossily to text.
#[verifier::external_body]
fn join_path(base: &str, rest: &str) -> (r: String)
    ensures
        r@ == path_join(base@, rest@),
{
    let mut b = std::path::PathBuf::from(base);
    b.push(rest);
    b.to_string_lossy().into_owned()
}

/// The path with a leading `~` component replaced by the home directory;
/// unchanged when it has no such component or no home directory is known.
pub fn expand_tilde(path: &str, home: Option<&str>) -> (r: String)
    ensures
        r@ == match (tilde_rest(path@), home) {
            (Some(rest), Some(h)) => path_join(h@, rest),
            _ => path@,
        },
{
    match strip_tilde(path) {
        Some(rest) => match home {
            Some(h) => join_path(h, rest.as_str()),
            None => path.to_owned(),
        },
        None => path.to_owned(),
    }
}

/// Whether a path is absolute: on Unix, where a path is absolute exactly
/// when it starts at the root, whether it begins with `/`.
pub open spec fn path_is_absolute(p: Seq<char>) -> bool {
    p.len() > 0 && p[0] == '/'
}

/// `Path::is_absolute` (Unix: the path starts with the root `/`).
#[verifier::external_body]
fn is_absolute(p: &str) -> (r: bool)
    ensures
        r == path_is_absolute(p@),
{
    std::path::Path::new(p).is_absolute()
}

/// The places a relative path is looked for, in order: under the project
/// root (if one was found), under the session root, under `IVALDI_ROOT`
/// (if set) and under the home directory (if known).
pub open spec fn candidates_spec(
    path: Seq<char>,
    project_root: Option<Seq<char>>,
    root: Seq<char>,
    ivaldi_root: Option<Seq<char>>,
    home: Option<Seq<char>>,
) -> Seq<Seq<char>> {
    let a: Seq<Seq<char>> = match project_root {
        Some(p) => seq![path_join(p, path)],
        None => Seq::empty(),
    };
    let b = a.push(path_join(root, path));
    let c = match ivaldi_root {
        Some(i) => b.push(path_join(i, path)),
        None => b,
    };
    match home {
        Some(h) => c.push(path_join(h, path)),
        None => c,
    }
}

/// The index of the first place that exists.
pub open spec fn first_existing(exists: Seq<bool>, i: int) -> Option<int>
    decreases exists.len() - i,
{
    if i < 0 || i >= exists.len() {
        None
    } else if exists[i] {
        Some(i)
    } else {
        first_existing(exists, i + 1)
    }
}

/// The places a relative path is looked for (see `candidates_spec`).
pub fn resolution_candidates(
    path: &str,
    project_root: Option<&str>,
    root: &str,
    ivaldi_root: Option<&str>,
    home: Option<&str>,
) -> (r: Vec<String>)
    ensures
        string_views(r@) == candidates_spec(
            path@,
            match project_root {
                Some(p) => Some(p@),
                None => None,
            },
            root@,
            match ivaldi_root {
                Some(i) => Some(i@),
                None => None,
            },
            match home {
                Some(h) => Some(h@),
                None => None,
            },
        ),
{
    let mut out: Vec<String> = Vec::new();
    match project_root {
        Some(p) => {
            out.push(join_path(p, path));
        },
        None => {},
    }
    out.push(join_path(root, path));
    match ivaldi_root {
        Some(i) => {
            out.push(join_path(i, path));
        },
        None => {},
    }
    match home {
        Some(h) => {
            out.push(join_path(h, path));
        },
        None => {},
    }
    let ghost want = candidates_spec(
        path@,
        match project_root {
            Some(p) => Some(p@),
            None => None,
        },
        root@,
        match ivaldi_root {
            Some(i) => Some(i@),
            None => None,
        },
        match home {
            Some(h) => Some(h@),
            None => None,
        },
    );
    assert(string_views(out@) =~= want);
    out
}

/// Where a path given relative to a session points: an absolute path as it
/// is; else the first of the `candidates` that exists (`exists` tells which
/// do); else the path under the session root, which need not exist.
pub fn resolve_path(path: &str, root: &str, candidates: &Vec<String>, exists: &Vec<bool>) -> (r: String)
    requires
        exists@.len() == candidates@.len(),
    ensures
        path_is_absolute(path@) ==> r@ == path@,
        !path_is_absolute(path@) ==> r@ == match first_existing(exists@, 0) {
            Some(i) => candidates@[i]@,
            None => path_join(root@, path@),
        },
{
    if is_absolute(path) {
        return path.to_owned();
    }
    let mut i: usize = 0;
    while i < candidates.len()
        invariant
            i <= candidates@.len(),
            exists@.len() == candidates@.len(),
            first_existing(exists@, 0) == first_existing(exists@, i as int),
            !path_is_absolute(path@),
        decreases candidates.len() - i,
    {
        if exists[i] {
            return candidates[i].clone();
        }
        i += 1;
    }
    join_path(root, path)
}

} // verus!
