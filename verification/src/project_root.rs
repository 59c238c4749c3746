//! Finding a project's root: the nearest enclosing directory that holds a
//! project marker (`.ivaldi` or `.git`), else the starting directory.
use vstd::prelude::*;
use crate::text::{chars_eq, chars_of, string_views};

verus! {

/// Options of root discovery (none yet).
#[derive(Debug, Clone, Copy, Default)]
pub struct DiscoveryOptions {}

/// The markers that make a directory a project root, in the order they are
/// looked for.
pub open spec fn root_markers() -> Seq<Seq<char>> {
    seq![".ivaldi"@, ".git"@]
}

/// The markers that make a directory a project root (see `root_markers`).
pub fn root_marker_names() -> (r: Vec<String>)
    ensures
        string_views(r@) == root_markers(),
{
    let r = vec![".ivaldi".to_owned(), ".git".to_owned()];
    assert(string_views(r@) =~= root_markers());
    r
}

/// The parent of a path, as `std::path::Path::parent` gives it: the path
/// without its last component, if it has one.
pub uninterp spec fn path_parent(p: Seq<char>) -> Option<Seq<char>>;

/// `Path::parent`.  The parent drops the last component, so it is shorter
/// than the path.
#[verifier::external_body]
pub(crate) fn parent_of(p: &str) -> (r: Option<String>)
    ensures
        match r {
            Some(q) => path_parent(p@) == Some(q@) && q@.len() < p@.len(),
            None => path_parent(p@) is None,
        },
{
    std::path::Path::new(p).parent().map(|q| q.to_string_lossy().into_owned())
}

/// The path and then its ancestors, nearest first, following at most `n`
/// parents.
pub open spec fn ancestor_chain(p: Seq<char>, n: nat) -> Seq<Seq<char>>
    decreases n,
{
    seq![p] + match path_parent(p) {
        Some(q) => if n > 0 {
            ancestor_chain(q, (n - 1) as nat)
        } else {
            Seq::empty()
        },
        None => Seq::empty(),
    }
}

/// The path and all its ancestors, nearest first.
pub open spec fn ancestors_spec(p: Seq<char>) -> Seq<Seq<char>> {
    ancestor_chain(p, p.len())
}

/// The path and all its ancestors, nearest first.
pub fn ancestors(start: &str) -> (r: Vec<String>)
    ensures
        string_views(r@) == ancestors_spec(start@),
{
    let mut out: Vec<String> = Vec::new();
    let mut cur: String = start.to_owned();
    let ghost n = start@.len();
    let ghost mut budget: nat = n;
    assert(string_views(out@) + ancestor_chain(cur@, budget) =~= ancestor_chain(start@, n));
    loop
        invariant_except_break
            cur@.len() <= budget,
            budget <= n,
            string_views(out@) + ancestor_chain(cur@, budget) == ancestor_chain(start@, n),
        ensures
            string_views(out@) == ancestor_chain(start@, n),
        decreases budget,
    {
        let ghost prev = string_views(out@);
        let next = parent_of(cur.as_str());
        out.push(cur.clone());
        assert(string_views(out@) =~= prev.push(cur@));
        match next {
            Some(q) => {
                assert(budget > 0);
                proof {
                    assert(ancestor_chain(cur@, budget) =~= seq![cur@] + ancestor_chain(
                        q@,
                        (budget - 1) as nat,
                    ));
                    assert(prev + ancestor_chain(cur@, budget) =~= prev.push(cur@) + ancestor_chain(
                        q@,
                        (budget - 1) as nat,
                    ));
                    budget = (budget - 1) as nat;
                }
                cur = q;
            },
            None => {
                proof {
                    assert(ancestor_chain(cur@, budget) =~= seq![cur@]);
                    assert(prev + seq![cur@] =~= prev.push(cur@));
                    assert(string_views(out@) == ancestor_chain(start@, n));
                }
                break;
            },
        }
    }
    out
}

/// The first marked ancestor (`marked[i]` for the `i`-th, nearest first),
/// or `start` when none is marked.
pub open spec fn root_spec(start: Seq<char>, anc: Seq<Seq<char>>, marked: Seq<bool>, i: int) -> Seq<
    char,
>
    decreases anc.len() - i,
{
    if i < 0 || i >= anc.len() {
        start
    } else if i < marked.len() && marked[i] {
        anc[i]
    } else {
        root_spec(start, anc, marked, i + 1)
    }
}

/// The project root for `start`: the nearest of its ancestors (itself
/// first) that holds a project marker, as `marked` says for each ancestor
/// in the order `ancestors` lists them, or `start` itself.
pub fn find_project_root(start: &str, marked: &Vec<bool>) -> (r: String)
    ensures
        r@ == root_spec(start@, ancestors_spec(start@), marked@, 0),
{
    let anc = ancestors(start);
    let ghost av = string_views(anc@);
    let mut i: usize = 0;
    while i < anc.len()
        invariant
            i <= anc@.len(),
            av == string_views(anc@),
            av == ancestors_spec(start@),
            root_spec(start@, av, marked@, 0) == root_spec(start@, av, marked@, i as int),
        decreases anc.len() - i,
    {
        if i < marked.len() && marked[i] {
            return anc[i].clone();
        }
        i += 1;
    }
    start.to_owned()
}

/// The markers a session looks for, in order.
pub open spec fn session_markers() -> Seq<Seq<char>> {
    seq![".ivaldi"@, ".git"@, "Cargo.toml"@, "package.json"@, "pyproject.toml"@]
}

/// The markers a session looks for (see `session_markers`).
pub fn session_marker_names() -> (r: Vec<String>)
    ensures
        string_views(r@) == session_markers(),
{
    let r = vec![
        ".ivaldi".to_owned(),
        ".git".to_owned(),
        "Cargo.toml".to_owned(),
        "package.json".to_owned(),
        "pyproject.toml".to_owned(),
    ];
    assert(string_views(r@) =~= session_markers());
    r
}

/// The first marked ancestor from the `i`-th on, not looking above the
/// home directory.
pub open spec fn discovered(anc: Seq<Seq<char>>, marked: Seq<bool>, home: Option<Seq<char>>, i: int) -> Option<
    Seq<char>,
>
    decreases anc.len() - i,
{
    if i < 0 || i >= anc.len() {
        None
    } else if i < marked.len() && marked[i] {
        Some(anc[i])
    } else if home == Some(anc[i]) {
        None
    } else {
        discovered(anc, marked, home, i + 1)
    }
}

/// The project root a session discovers from `start`: the nearest of its
/// ancestors (itself first) that holds one of the session markers, as
/// `marked` says for each ancestor in the order `ancestors` lists them;
/// the search stops at the home directory.
pub fn discover_project_root(start: &str, home: Option<&str>, marked: &Vec<bool>) -> (r: Option<String>)
    ensures
        match r {
            Some(x) => discovered(ancestors_spec(start@), marked@, opt_text(home), 0) == Some(x@),
            None => discovered(ancestors_spec(start@), marked@, opt_text(home), 0) is None,
        },
{
    let anc = ancestors(start);
    let ghost av = string_views(anc@);
    let hc: Option<Vec<char>> = match home {
        Some(h) => Some(chars_of(h)),
        None => None,
    };
    let mut i: usize = 0;
    while i < anc.len()
        invariant
            i <= anc@.len(),
            av == string_views(anc@),
            av == ancestors_spec(start@),
            match hc {
                Some(v) => opt_text(home) == Some(v@),
                None => opt_text(home) is None,
            },
            discovered(av, marked@, opt_text(home), 0) == discovered(av, marked@, opt_text(home), i as int),
        decreases anc.len() - i,
    {
        if i < marked.len() && marked[i] {
            return Some(anc[i].clone());
        }
        let at_home = match &hc {
            Some(v) => chars_eq(&chars_of(anc[i].as_str()), v),
            None => false,
        };
        if at_home {
            return None;
        }
        i += 1;
    }
    None
}

/// An optional text's characters.
pub open spec fn opt_text(o: Option<&str>) -> Option<Seq<char>> {
    match o {
        Some(s) => Some(s@),
        None => None,
    }
}

} // verus!
