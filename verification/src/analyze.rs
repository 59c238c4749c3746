//! Summaries of a directory: counts, sizes, extensions, and the tree of
//! entries, directories first and then by name.
use vstd::prelude::*;
use crate::project_root::{parent_of, path_parent};
use crate::response::IvaldiResponse;
use crate::error::IvaldiError;
use crate::pattern::{capture_group, captures, compile, group_of, opt_views, regex_captures, regex_compiles};
use crate::text::{
    append_str, chars_eq, chars_of, lines_of, lowercase, split_lines, string_of, string_views, to_lowercase,
    trim, trim_chars, utf8_len, utf8_len_gt, views,
};

verus! {

/// Arguments of the directory analysis tool.
#[derive(Debug, Clone)]
pub struct AnalyzeDirArgs {
    pub path: String,
    pub max_depth: usize,
    pub respect_agentignore: bool,
}

impl AnalyzeDirArgs {
    /// The directory analysed when none is given.
    pub fn default_root() -> (r: String)
        ensures
            r@ == "."@,
    {
        ".".to_owned()
    }

    /// The depth analysed when none is given.
    pub fn default_max_depth() -> (r: usize)
        ensures
            r == 5,
    {
        5
    }
}

/// Arguments of the file analysis tool.
#[derive(Debug, Clone)]
pub struct AnalyzeFileArgs {
    pub path: String,
}

/// A node of the directory tree.
#[derive(Debug)]
pub struct FileNode {
    pub name: String,
    pub is_dir: bool,
    /// The entries of a directory; absent for files.
    pub children: Option<Vec<FileNode>>,
    pub size: Option<u64>,
}

/// The summary of a directory.
#[derive(Debug)]
pub struct DirAnalysis {
    pub path: String,
    pub file_count: usize,
    /// Directories, the analysed one included.
    pub dir_count: usize,
    pub total_size_bytes: u64,
    /// Files per lowercased extension (`no_ext` for none), by first
    /// appearance.
    pub extensions: Vec<(String, usize)>,
    pub structure: FileNode,
}

/// The summary of a file.
#[derive(Debug, Clone)]
pub struct FileAnalysis {
    pub path: String,
    pub lines: usize,
    pub size_bytes: u64,
    pub complexity_score: u32,
    pub symbols: Vec<String>,
    pub dependencies: Vec<String>,
    pub todos: Vec<String>,
}

/// The analysis tools.
pub struct Analyzer;

/// An entry the directory walk produced (the analysed directory itself
/// excluded).
#[derive(Debug, Clone)]
pub struct WalkEntry {
    pub path: String,
    pub is_dir: bool,
    pub size: u64,
}

/// The last component of a path, if it has one (`Path::file_name`).
pub uninterp spec fn path_file_name(p: Seq<char>) -> Option<Seq<char>>;

/// The extension of a path's file name, if it has one (`Path::extension`).
pub uninterp spec fn path_extension(p: Seq<char>) -> Option<Seq<char>>;

/// `Path::file_name`, converted lossily to text.
#[verifier::external_body]
pub(crate) fn file_name_of(p: &str) -> (r: Option<String>)
    ensures
        match r {
            Some(n) => path_file_name(p@) == Some(n@),
            None => path_file_name(p@) is None,
        },
{
    std::path::Path::new(p).file_name().map(|n| n.to_string_lossy().into_owned())
}

/// `Path::extension`, converted lossily to text.
#[verifier::external_body]
fn extension_of(p: &str) -> (r: Option<String>)
    ensures
        match r {
            Some(e) => path_extension(p@) == Some(e@),
            None => path_extension(p@) is None,
        },
{
    std::path::Path::new(p).extension().map(|e| e.to_string_lossy().into_owned())
}

// ---------------------------------------------------------------------------
// Counts
// ---------------------------------------------------------------------------

/// The extension a file is counted under.
pub open spec fn ext_key(p: Seq<char>) -> Seq<char> {
    match path_extension(p) {
        Some(e) => lowercase(e),
        None => "no_ext"@,
    }
}

/// Index of the first tally entry at or after `i` with key `k`, or the
/// tally's length.
pub open spec fn tally_find(t: Seq<(Seq<char>, nat)>, k: Seq<char>, i: int) -> int
    decreases t.len() - i,
{
    if i < 0 || i >= t.len() {
        t.len() as int
    } else if t[i].0 == k {
        i
    } else {
        tally_find(t, k, i + 1)
    }
}

/// Counts per key, keys in order of first appearance.
pub open spec fn tally(keys: Seq<Seq<char>>) -> Seq<(Seq<char>, nat)>
    decreases keys.len(),
{
    if keys.len() == 0 {
        Seq::empty()
    } else {
        let t = tally(keys.drop_last());
        let k = keys.last();
        let i = tally_find(t, k, 0);
        if i < t.len() {
            t.update(i, (k, t[i].1 + 1))
        } else {
            t.push((k, 1))
        }
    }
}

proof fn lemma_tally_find(t: Seq<(Seq<char>, nat)>, k: Seq<char>, i: int)
    requires
        0 <= i <= t.len(),
    ensures
        i <= tally_find(t, k, i) <= t.len(),
    decreases t.len() - i,
{
    if i < t.len() {
        lemma_tally_find(t, k, i + 1);
    }
}

/// Abstract value of a walk entry.
pub open spec fn walk_view(e: WalkEntry) -> (Seq<char>, bool, u64) {
    (e.path@, e.is_dir, e.size)
}

/// Abstract values of walk entries.
pub open spec fn walk_views(s: Seq<WalkEntry>) -> Seq<(Seq<char>, bool, u64)> {
    s.map_values(|e: WalkEntry| walk_view(e))
}

/// The extension keys of the files, in order.
pub open spec fn file_ext_keys(es: Seq<(Seq<char>, bool, u64)>) -> Seq<Seq<char>>
    decreases es.len(),
{
    if es.len() == 0 {
        Seq::empty()
    } else if es.last().1 {
        file_ext_keys(es.drop_last())
    } else {
        file_ext_keys(es.drop_last()).push(ext_key(es.last().0))
    }
}

/// Number of directories among the entries.
pub open spec fn dir_total(es: Seq<(Seq<char>, bool, u64)>) -> nat
    decreases es.len(),
{
    if es.len() == 0 {
        0
    } else {
        dir_total(es.drop_last()) + if es.last().1 {
            1nat
        } else {
            0
        }
    }
}

/// Total size of the files among the entries.
pub open spec fn size_total(es: Seq<(Seq<char>, bool, u64)>) -> nat
    decreases es.len(),
{
    if es.len() == 0 {
        0
    } else {
        size_total(es.drop_last()) + if es.last().1 {
            0
        } else {
            es.last().2 as nat
        }
    }
}

proof fn lemma_totals(es: Seq<(Seq<char>, bool, u64)>)
    ensures
        dir_total(es) <= es.len(),
        file_ext_keys(es).len() + dir_total(es) == es.len(),
    decreases es.len(),
{
    if es.len() > 0 {
        lemma_totals(es.drop_last());
    }
}

proof fn lemma_size_prefix(es: Seq<(Seq<char>, bool, u64)>, k: int)
    requires
        0 <= k <= es.len(),
    ensures
        size_total(es.take(k)) <= size_total(es),
    decreases es.len() - k,
{
    if k < es.len() {
        lemma_size_prefix(es, k + 1);
        assert(es.take(k + 1).drop_last() =~= es.take(k));
    } else {
        assert(es.take(k) =~= es);
    }
}

/// Abstract values of tally entries.
pub open spec fn tally_views(v: Seq<(String, usize)>) -> Seq<(Seq<char>, nat)> {
    v.map_values(|p: (String, usize)| (p.0@, p.1 as nat))
}

proof fn lemma_tally_len(keys: Seq<Seq<char>>)
    ensures
        tally(keys).len() <= keys.len(),
        forall|i: int| 0 <= i < tally(keys).len() ==> #[trigger] tally(keys)[i].1 <= keys.len(),
    decreases keys.len(),
{
    if keys.len() > 0 {
        lemma_tally_len(keys.drop_last());
        lemma_tally_find(tally(keys.drop_last()), keys.last(), 0);
    }
}

/// Adds one key to a tally.
fn tally_add(t: &mut Vec<(String, usize)>, k: String, Ghost(keys): Ghost<Seq<Seq<char>>>)
    requires
        tally_views(old(t)@) == tally(keys),
        keys.len() < usize::MAX,
    ensures
        tally_views(final(t)@) == tally(keys.push(k@)),
{
    proof {
        lemma_tally_len(keys);
        assert(keys.push(k@).drop_last() =~= keys);
    }
    let kc = chars_of(k.as_str());
    let ghost tv = tally_views(t@);
    let mut i: usize = 0;
    while i < t.len()
        invariant
            i <= t@.len(),
            tv == tally_views(t@),
            tv == tally(keys),
            kc@ == k@,
            keys.len() < usize::MAX,
            forall|j: int| 0 <= j < tv.len() ==> #[trigger] tv[j].1 <= keys.len(),
            tally_find(tv, k@, 0) == tally_find(tv, k@, i as int),
            keys.push(k@).drop_last() == keys,
        decreases t.len() - i,
    {
        let ec = chars_of(t[i].0.as_str());
        if chars_eq(&ec, &kc) {
            let n = t[i].1;
            assert(tv[i as int].1 <= keys.len());
            assert(tv[i as int].0 == k@);
            assert(tally_find(tv, k@, i as int) == i);
            let name = t[i].0.clone();
            t.set(i, (name, n + 1));
            assert(tally_views(t@) =~= tv.update(i as int, (k@, tv[i as int].1 + 1)));
            return;
        }
        i += 1;
    }
    let ghost prev = tally_views(t@);
    let ghost kv = k@;
    t.push((k, 1));
    assert(tally_views(t@) =~= prev.push((kv, 1)));
}

// ---------------------------------------------------------------------------
// The tree
// ---------------------------------------------------------------------------

/// A walk entry with its parent and name.
pub type EntryView = (Seq<char>, Option<Seq<char>>, Option<Seq<char>>, bool, u64);

/// An entry with its parent and name looked up.
pub open spec fn entry_of(e: (Seq<char>, bool, u64)) -> EntryView {
    (e.0, path_parent(e.0), path_file_name(e.0), e.1, e.2)
}

/// Abstract value of a tree node.
pub struct NodeView {
    pub name: Seq<char>,
    pub is_dir: bool,
    pub children: Option<Seq<NodeView>>,
    pub size: Option<u64>,
}

/// Abstract value of a tree node.
pub open spec fn node_view(n: FileNode) -> NodeView
    decreases n,
{
    NodeView {
        name: n.name@,
        is_dir: n.is_dir,
        children: match n.children {
            Some(c) => Some(node_views(c@)),
            None => None,
        },
        size: n.size,
    }
}

/// Abstract values of tree nodes.
pub open spec fn node_views(s: Seq<FileNode>) -> Seq<NodeView>
    decreases s,
{
    if s.len() == 0 {
        Seq::empty()
    } else {
        node_views(s.drop_last()).push(node_view(s.last()))
    }
}

/// Text order on optional names, absence first.
pub open spec fn opt_text_le(a: Option<Seq<char>>, b: Option<Seq<char>>) -> bool {
    match (a, b) {
        (None, _) => true,
        (Some(_), None) => false,
        (Some(x), Some(y)) => crate::listing::text_le(x, y),
    }
}

/// Directories come first, then names in order.
pub open spec fn child_le(a: EntryView, b: EntryView) -> bool {
    (a.3 && !b.3) || (a.3 == b.3 && opt_text_le(a.2, b.2))
}

/// Inserts a child after every child that does not come after it.
pub open spec fn insert_child(s: Seq<EntryView>, x: EntryView) -> Seq<EntryView>
    decreases s.len(),
{
    if s.len() == 0 {
        seq![x]
    } else if child_le(s.last(), x) {
        s.push(x)
    } else {
        insert_child(s.drop_last(), x).push(s.last())
    }
}

/// The entries whose parent is `p`, in walk order.
pub open spec fn children_of(es: Seq<EntryView>, p: Seq<char>) -> Seq<EntryView>
    decreases es.len(),
{
    if es.len() == 0 {
        Seq::empty()
    } else if es.last().1 == Some(p) {
        children_of(es.drop_last(), p).push(es.last())
    } else {
        children_of(es.drop_last(), p)
    }
}

/// Children ordered directories first, then by name, stably.
pub open spec fn sort_children(s: Seq<EntryView>) -> Seq<EntryView>
    decreases s.len(),
{
    if s.len() == 0 {
        Seq::empty()
    } else {
        insert_child(sort_children(s.drop_last()), s.last())
    }
}

/// The tree node at `path`, built at most `fuel` levels deep.
pub open spec fn tree_node(
    es: Seq<EntryView>,
    path: Seq<char>,
    name: Seq<char>,
    is_dir: bool,
    size: Option<u64>,
    fuel: nat,
) -> NodeView
    decreases fuel, 0nat,
{
    NodeView {
        name,
        is_dir,
        children: if is_dir {
            Some(
                if fuel == 0 {
                    Seq::empty()
                } else {
                    tree_nodes(es, sort_children(children_of(es, path)), (fuel - 1) as nat)
                },
            )
        } else {
            None
        },
        size,
    }
}

/// The tree nodes of a list of children.
pub open spec fn tree_nodes(es: Seq<EntryView>, cs: Seq<EntryView>, fuel: nat) -> Seq<NodeView>
    decreases fuel, cs.len(),
{
    if cs.len() == 0 {
        Seq::empty()
    } else {
        let c = cs.last();
        tree_nodes(es, cs.drop_last(), fuel).push(
            tree_node(
                es,
                c.0,
                match c.2 {
                    Some(n) => n,
                    None => Seq::empty(),
                },
                c.3,
                Some(c.4),
                fuel,
            ),
        )
    }
}

/// Exec form of an entry with its parent and name.
struct Facts {
    path: String,
    parent: Option<String>,
    name: Option<String>,
    is_dir: bool,
    size: u64,
}

spec fn opt_str(o: Option<String>) -> Option<Seq<char>> {
    match o {
        Some(s) => Some(s@),
        None => None,
    }
}

spec fn facts_view(f: Facts) -> EntryView {
    (f.path@, opt_str(f.parent), opt_str(f.name), f.is_dir, f.size)
}

spec fn facts_views(s: Seq<Facts>) -> Seq<EntryView> {
    s.map_values(|f: Facts| facts_view(f))
}

fn dup_facts(f: &Facts) -> (r: Facts)
    ensures
        facts_view(r) == facts_view(*f),
{
    Facts {
        path: f.path.clone(),
        parent: match &f.parent {
            Some(p) => Some(p.clone()),
            None => None,
        },
        name: match &f.name {
            Some(n) => Some(n.clone()),
            None => None,
        },
        is_dir: f.is_dir,
        size: f.size,
    }
}

fn opt_eq(a: &Option<String>, b: &String) -> (r: bool)
    ensures
        r == (opt_str(*a) == Some(b@)),
{
    match a {
        Some(x) => {
            let xc = chars_of(x.as_str());
            let bc = chars_of(b.as_str());
            chars_eq(&xc, &bc)
        },
        None => false,
    }
}

fn child_le_exec(a: &Facts, b: &Facts) -> (r: bool)
    ensures
        r == child_le(facts_view(*a), facts_view(*b)),
{
    if a.is_dir && !b.is_dir {
        return true;
    }
    if a.is_dir != b.is_dir {
        return false;
    }
    match (&a.name, &b.name) {
        (None, _) => true,
        (Some(_), None) => false,
        (Some(x), Some(y)) => {
            let xc = chars_of(x.as_str());
            let yc = chars_of(y.as_str());
            crate::listing::text_le_chars(&xc, &yc)
        },
    }
}

fn insert_child_exec(v: &mut Vec<Facts>, x: Facts)
    ensures
        facts_views(final(v)@) == insert_child(facts_views(old(v)@), facts_view(x)),
    decreases old(v)@.len(),
{
    let ghost s = facts_views(v@);
    let le = if v.len() == 0 {
        true
    } else {
        child_le_exec(&v[v.len() - 1], &x)
    };
    if v.len() == 0 || le {
        v.push(x);
        assert(facts_views(v@) =~= s.push(facts_view(x)));
    } else {
        let y = v.pop().unwrap();
        assert(facts_views(v@) =~= s.drop_last());
        insert_child_exec(v, x);
        let ghost mid = facts_views(v@);
        let ghost yv = facts_view(y);
        v.push(y);
        assert(facts_views(v@) =~= mid.push(yv));
    }
}

/// The children of `path`, ordered.
fn sorted_children(es: &Vec<Facts>, path: &String) -> (r: Vec<Facts>)
    ensures
        facts_views(r@) == sort_children(children_of(facts_views(es@), path@)),
{
    let ghost ev = facts_views(es@);
    let mut kids: Vec<Facts> = Vec::new();
    let mut i: usize = 0;
    while i < es.len()
        invariant
            i <= es@.len(),
            ev == facts_views(es@),
            facts_views(kids@) == children_of(ev.take(i as int), path@),
        decreases es.len() - i,
    {
        proof {
            assert(ev.take(i + 1).drop_last() =~= ev.take(i as int));
            assert(ev.take(i + 1).last() == facts_view(es@[i as int]));
        }
        if opt_eq(&es[i].parent, path) {
            let ghost prev = facts_views(kids@);
            let f = dup_facts(&es[i]);
            kids.push(f);
            assert(facts_views(kids@) =~= prev.push(facts_view(f)));
        }
        i += 1;
    }
    assert(ev.take(es@.len() as int) =~= ev);
    let ghost kv = facts_views(kids@);
    let mut sorted: Vec<Facts> = Vec::new();
    let mut j: usize = 0;
    while j < kids.len()
        invariant
            j <= kids@.len(),
            kv == facts_views(kids@),
            facts_views(sorted@) == sort_children(kv.take(j as int)),
        decreases kids.len() - j,
    {
        proof {
            assert(kv.take(j + 1).drop_last() =~= kv.take(j as int));
        }
        insert_child_exec(&mut sorted, dup_facts(&kids[j]));
        j += 1;
    }
    assert(kv.take(kids@.len() as int) =~= kv);
    sorted
}

/// Builds the tree node at `path`.
fn build_node(
    es: &Vec<Facts>,
    path: &String,
    name: String,
    is_dir: bool,
    size: Option<u64>,
    fuel: usize,
) -> (r: FileNode)
    ensures
        node_view(r) == tree_node(facts_views(es@), path@, name@, is_dir, size, fuel as nat),
    decreases fuel, 0usize,
{
    let children = if is_dir {
        if fuel == 0 {
            Some(Vec::new())
        } else {
            let kids = sorted_children(es, path);
            let ghost kv = facts_views(kids@);
            let mut nodes: Vec<FileNode> = Vec::new();
            let mut i: usize = 0;
            while i < kids.len()
                invariant
                    i <= kids@.len(),
                    kv == facts_views(kids@),
                    node_views(nodes@) == tree_nodes(facts_views(es@), kv.take(i as int), (fuel - 1) as nat),
                    fuel > 0,
                decreases kids.len() - i,
            {
                let k = &kids[i];
                let kname = match &k.name {
                    Some(n) => n.clone(),
                    None => String::new(),
                };
                let node = build_node(es, &k.path, kname, k.is_dir, Some(k.size), fuel - 1);
                proof {
                    assert(kv.take(i + 1).drop_last() =~= kv.take(i as int));
                    assert(kv.take(i + 1).last() == facts_view(kids@[i as int]));
                }
                let ghost before = nodes@;
                nodes.push(node);
                assert(nodes@.drop_last() =~= before);
                i += 1;
            }
            assert(kv.take(kids@.len() as int) =~= kv);
            Some(nodes)
        }
    } else {
        None
    };
    proof {
        if is_dir && fuel == 0 {
            let v: Seq<FileNode> = Seq::empty();
            assert(node_views(v) =~= Seq::<NodeView>::empty());
        }
    }
    FileNode { name, is_dir, children, size }
}

/// The analysis of a walked directory: the tree under `root` (directories
/// first, then by name), the numbers of files and of directories (the root
/// counted), the files' total size, and the files per extension.
pub open spec fn analysis_ok(r: DirAnalysis, root: Seq<char>, es: Seq<(Seq<char>, bool, u64)>) -> bool {
    let ev = es.map_values(|e: (Seq<char>, bool, u64)| entry_of(e));
    &&& r.path@ == root
    &&& r.file_count == es.len() - dir_total(es)
    &&& r.dir_count == dir_total(es) + 1
    &&& r.total_size_bytes == size_total(es)
    &&& tally_views(r.extensions@) == tally(file_ext_keys(es))
    &&& node_view(r.structure) == tree_node(
        ev,
        root,
        match path_file_name(root) {
            Some(n) => n,
            None => Seq::empty(),
        },
        true,
        Some(0u64),
        (es.len() + 1) as nat,
    )
}

impl Analyzer {
    /// Summarizes a walked directory from the entries the walk produced.
    pub fn analyze_dir(root: &str, entries: &Vec<WalkEntry>) -> (r: IvaldiResponse<DirAnalysis>)
        requires
            size_total(walk_views(entries@)) <= u64::MAX,
            entries@.len() < usize::MAX,
        ensures
            !r.is_error && r.error is None && r.advisory@.len() == 0,
            r.content matches Some(a) && analysis_ok(a, root@, walk_views(entries@)),
    {
        let ghost wv = walk_views(entries@);
        let mut facts: Vec<Facts> = Vec::new();
        let mut dirs: usize = 0;
        let mut total: u64 = 0;
        let mut exts: Vec<(String, usize)> = Vec::new();
        let mut i: usize = 0;
        assert(tally_views(exts@) =~= tally(Seq::<Seq<char>>::empty()));
        while i < entries.len()
            invariant
                i <= entries@.len(),
                entries@.len() < usize::MAX,
                wv == walk_views(entries@),
                size_total(wv) <= u64::MAX,
                facts_views(facts@) == wv.take(i as int).map_values(|e: (Seq<char>, bool, u64)| entry_of(e)),
                dirs == dir_total(wv.take(i as int)),
                total == size_total(wv.take(i as int)),
                tally_views(exts@) == tally(file_ext_keys(wv.take(i as int))),
            decreases entries.len() - i,
        {
            let e = &entries[i];
            let ghost t = wv.take(i + 1);
            proof {
                assert(t.drop_last() =~= wv.take(i as int));
                assert(t.last() == walk_view(*e));
                lemma_totals(wv.take(i as int));
                lemma_size_prefix(wv, i + 1);
            }
            let f = Facts {
                path: e.path.clone(),
                parent: parent_of(e.path.as_str()),
                name: file_name_of(e.path.as_str()),
                is_dir: e.is_dir,
                size: e.size,
            };
            let ghost prev = facts_views(facts@);
            facts.push(f);
            proof {
                assert(facts_views(facts@) =~= prev.push(facts_view(f)));
                assert(t.map_values(|e: (Seq<char>, bool, u64)| entry_of(e)) =~= wv.take(i as int).map_values(
                    |e: (Seq<char>, bool, u64)| entry_of(e),
                ).push(entry_of(walk_view(*e))));
            }
            if e.is_dir {
                dirs = dirs + 1;
            } else {
                total = total + e.size;
                let key = match extension_of(e.path.as_str()) {
                    Some(x) => to_lowercase(x.as_str()),
                    None => "no_ext".to_owned(),
                };
                proof {
                    lemma_totals(wv.take(i as int));
                }
                tally_add(&mut exts, key, Ghost(file_ext_keys(wv.take(i as int))));
            }
            i += 1;
        }
        proof {
            assert(wv.take(entries@.len() as int) =~= wv);
            lemma_totals(wv);
        }
        let root_s = root.to_owned();
        let root_name = match file_name_of(root) {
            Some(n) => n,
            None => String::new(),
        };
        let structure = build_node(&facts, &root_s, root_name, true, Some(0), entries.len() + 1);
        IvaldiResponse::success(DirAnalysis {
            path: root_s,
            file_count: entries.len() - dirs,
            dir_count: dirs + 1,
            total_size_bytes: total,
            extensions: exts,
            structure,
        })
    }
}


// ---------------------------------------------------------------------------
// Analysing a file
// ---------------------------------------------------------------------------

/// Public functions.
pub open spec fn fn_pattern() -> Seq<char> {
    "^\\s*pub\\s*fn\\s+([a-zA-Z0-9_]+)"@
}

/// Public types.
pub open spec fn type_pattern() -> Seq<char> {
    "^\\s*pub\\s*(struct|enum|trait|type)\\s+([a-zA-Z0-9_]+)"@
}

/// Imports.
pub open spec fn use_pattern() -> Seq<char> {
    "^\\s*use\\s+([^;]+)"@
}

/// Notes left in the code.
pub open spec fn todo_pattern() -> Seq<char> {
    "(TODO|FIXME|XXX):?\\s*(.*)"@
}

/// The groups of a pattern's first match in a line, when the pattern
/// compiles and matches.
pub open spec fn groups(p: Seq<char>, l: Seq<char>) -> Option<Seq<Option<Seq<char>>>> {
    if regex_compiles(p) {
        regex_captures(p, l)
    } else {
        None
    }
}

/// Number of spaces a line starts with.
pub open spec fn leading_spaces(l: Seq<char>) -> nat
    decreases l.len(),
{
    if l.len() > 0 && l[0] == ' ' {
        1 + leading_spaces(l.drop_first())
    } else {
        0
    }
}

/// What a line adds to the complexity score: a point per four spaces of
/// indentation, and one for a line longer than 80 bytes.
pub open spec fn line_complexity(l: Seq<char>) -> nat {
    leading_spaces(l) / 4 + if utf8_len(l) > 80 {
        1nat
    } else {
        0
    }
}

/// The complexity score of the lines.
pub open spec fn complexity(ls: Seq<Seq<char>>) -> nat
    decreases ls.len(),
{
    if ls.len() == 0 {
        0
    } else {
        complexity(ls.drop_last()) + line_complexity(ls.last())
    }
}

/// The symbols a line declares.
pub open spec fn line_symbols(l: Seq<char>) -> Seq<Seq<char>> {
    let f: Seq<Seq<char>> = match capture_group(groups(fn_pattern(), l), 1) {
        Some(n) => seq!["fn "@ + n],
        None => Seq::empty(),
    };
    let t: Seq<Seq<char>> = match (
        capture_group(groups(type_pattern(), l), 1),
        capture_group(groups(type_pattern(), l), 2),
    ) {
        (Some(k), Some(n)) => seq![k + " "@ + n],
        _ => Seq::empty(),
    };
    f + t
}

/// The symbols the lines declare, in order.
pub open spec fn symbols_of(ls: Seq<Seq<char>>) -> Seq<Seq<char>>
    decreases ls.len(),
{
    if ls.len() == 0 {
        Seq::empty()
    } else {
        symbols_of(ls.drop_last()) + line_symbols(ls.last())
    }
}

/// The imports the lines name, trimmed.
pub open spec fn deps_of(ls: Seq<Seq<char>>) -> Seq<Seq<char>>
    decreases ls.len(),
{
    if ls.len() == 0 {
        Seq::empty()
    } else {
        match capture_group(groups(use_pattern(), ls.last()), 1) {
            Some(d) => deps_of(ls.drop_last()).push(trim(d)),
            None => deps_of(ls.drop_last()),
        }
    }
}

/// The notes the lines hold, as `<marker>: <text>`.
pub open spec fn todos_of(ls: Seq<Seq<char>>) -> Seq<Seq<char>>
    decreases ls.len(),
{
    if ls.len() == 0 {
        Seq::empty()
    } else {
        let l = ls.last();
        match (
            capture_group(groups(todo_pattern(), l), 1),
            capture_group(groups(todo_pattern(), l), 2),
        ) {
            (Some(m), Some(t)) => todos_of(ls.drop_last()).push(m + ": "@ + t),
            _ => todos_of(ls.drop_last()),
        }
    }
}

/// The symbols reported: at most 50, then a marker when there were more.
pub open spec fn capped_symbols(s: Seq<Seq<char>>) -> Seq<Seq<char>> {
    if s.len() > 50 {
        s.take(50).push("... (truncated)"@)
    } else {
        s
    }
}

fn compile_opt(p: &str) -> (r: Option<crate::pattern::Pattern>)
    ensures
        r is Some <==> regex_compiles(p@),
        r matches Some(x) ==> x@ == p@,
{
    match compile(p) {
        Ok(x) => Some(x),
        Err(_) => None,
    }
}

fn groups_of(re: &Option<crate::pattern::Pattern>, l: &str) -> (r: Option<Vec<Option<String>>>)
    ensures
        match re {
            Some(x) => match r {
                Some(v) => regex_captures(x@, l@) == Some(opt_views(v@)),
                None => regex_captures(x@, l@) is None,
            },
            None => r is None,
        },
{
    match re {
        Some(x) => captures(x, l),
        None => None,
    }
}

spec fn opt_group_view(c: Option<Vec<Option<String>>>) -> Option<Seq<Option<Seq<char>>>> {
    match c {
        Some(v) => Some(opt_views(v@)),
        None => None,
    }
}

fn leading_spaces_exec(l: &Vec<char>) -> (n: usize)
    ensures
        n == leading_spaces(l@),
{
    let mut k: usize = 0;
    assert(l@.skip(0) =~= l@);
    while k < l.len() && l[k] == ' '
        invariant
            k <= l@.len(),
            leading_spaces(l@) == k + leading_spaces(l@.skip(k as int)),
        decreases l.len() - k,
    {
        proof {
            assert(l@.skip(k as int).drop_first() =~= l@.skip(k + 1));
        }
        k += 1;
    }
    proof {
        if k < l@.len() {
            assert(l@.skip(k as int)[0] == l@[k as int]);
        }
    }
    k
}

impl Analyzer {
    /// Refuses files that do not exist (`FileNotFound`) or exceed 10 MiB.
    pub fn check_file(path: &str, is_file: bool, size: u64) -> (r: Result<(), IvaldiError>)
        ensures
            !is_file ==> (r matches Err(IvaldiError::FileNotFound(p)) && p@ == path@),
            is_file && size > 10485760 ==> (r matches Err(IvaldiError::Internal(m)) && m@ == "File > 10MB"@),
            is_file && size <= 10485760 ==> r is Ok,
    {
        if !is_file {
            Err(IvaldiError::FileNotFound(path.to_owned()))
        } else if size > 10485760 {
            Err(IvaldiError::Internal("File > 10MB".to_owned()))
        } else {
            Ok(())
        }
    }

    /// The overview of a file's text: line count, complexity score, public
    /// symbols (at most 50, then a marker), imports and notes.
    pub fn analyze_text(path: &str, text: &str, size_bytes: u64) -> (r: FileAnalysis)
        requires
            complexity(lines_of(text@)) <= u32::MAX,
        ensures
            r.path@ == path@,
            r.lines == lines_of(text@).len(),
            r.size_bytes == size_bytes,
            r.complexity_score == complexity(lines_of(text@)),
            string_views(r.symbols@) == capped_symbols(symbols_of(lines_of(text@))),
            string_views(r.dependencies@) == deps_of(lines_of(text@)),
            string_views(r.todos@) == todos_of(lines_of(text@)),
    {
        let re_fn = compile_opt("^\\s*pub\\s*fn\\s+([a-zA-Z0-9_]+)");
        let re_type = compile_opt("^\\s*pub\\s*(struct|enum|trait|type)\\s+([a-zA-Z0-9_]+)");
        let re_use = compile_opt("^\\s*use\\s+([^;]+)");
        let re_todo = compile_opt("(TODO|FIXME|XXX):?\\s*(.*)");
        let tc = chars_of(text);
        let ls = split_lines(&tc);
        let ghost lv = views(ls@);
        let mut score: u32 = 0;
        let mut symbols: Vec<String> = Vec::new();
        let mut deps: Vec<String> = Vec::new();
        let mut todos: Vec<String> = Vec::new();
        let mut i: usize = 0;
        while i < ls.len()
            invariant
                i <= ls@.len(),
                lv == views(ls@),
                lv == lines_of(text@),
                complexity(lv) <= u32::MAX,
                re_fn is Some <==> regex_compiles(fn_pattern()),
                re_fn matches Some(x) ==> x@ == fn_pattern(),
                re_type is Some <==> regex_compiles(type_pattern()),
                re_type matches Some(x) ==> x@ == type_pattern(),
                re_use is Some <==> regex_compiles(use_pattern()),
                re_use matches Some(x) ==> x@ == use_pattern(),
                re_todo is Some <==> regex_compiles(todo_pattern()),
                re_todo matches Some(x) ==> x@ == todo_pattern(),
                score == complexity(lv.take(i as int)),
                string_views(symbols@) == symbols_of(lv.take(i as int)),
                string_views(deps@) == deps_of(lv.take(i as int)),
                string_views(todos@) == todos_of(lv.take(i as int)),
            decreases ls.len() - i,
        {
            let ghost t = lv.take(i + 1);
            proof {
                assert(t.drop_last() =~= lv.take(i as int));
                assert(t.last() == lv[i as int]);
                lemma_complexity_prefix(lv, i + 1);
            }
            let lc = &ls[i];
            let line = string_of(lc);
            let spaces = leading_spaces_exec(lc);
            let long = utf8_len_gt(lc, 80);
            let add: u32 = ((spaces / 4) as u32) + if long { 1 } else { 0 };
            score = score + add;
            let gf = groups_of(&re_fn, line.as_str());
            let gt = groups_of(&re_type, line.as_str());
            let gu = groups_of(&re_use, line.as_str());
            let gd = groups_of(&re_todo, line.as_str());
            proof {
                assert(opt_group_view(gf) == groups(fn_pattern(), lc@));
                assert(opt_group_view(gt) == groups(type_pattern(), lc@));
                assert(opt_group_view(gu) == groups(use_pattern(), lc@));
                assert(opt_group_view(gd) == groups(todo_pattern(), lc@));
            }
            let ghost sym_before = string_views(symbols@);
            match group_of(&gf, 1) {
                Some(n) => {
                    let mut v = chars_of("fn ");
                    append_str(&mut v, n.as_str());
                    let s = string_of(&v);
                    let ghost prev = string_views(symbols@);
                    symbols.push(s);
                    assert(string_views(symbols@) =~= prev.push(s@));
                },
                None => {},
            }
            match (group_of(&gt, 1), group_of(&gt, 2)) {
                (Some(k), Some(n)) => {
                    let mut v = chars_of(k.as_str());
                    append_str(&mut v, " ");
                    append_str(&mut v, n.as_str());
                    let s = string_of(&v);
                    let ghost prev = string_views(symbols@);
                    symbols.push(s);
                    assert(string_views(symbols@) =~= prev.push(s@));
                },
                _ => {},
            }
            assert(string_views(symbols@) =~= sym_before + line_symbols(lc@));
            match group_of(&gu, 1) {
                Some(d) => {
                    let dc = chars_of(d.as_str());
                    let s = string_of(&trim_chars(&dc));
                    let ghost prev = string_views(deps@);
                    deps.push(s);
                    assert(string_views(deps@) =~= prev.push(s@));
                },
                None => {},
            }
            match (group_of(&gd, 1), group_of(&gd, 2)) {
                (Some(m), Some(x)) => {
                    let mut v = chars_of(m.as_str());
                    append_str(&mut v, ": ");
                    append_str(&mut v, x.as_str());
                    let s = string_of(&v);
                    let ghost prev = string_views(todos@);
                    todos.push(s);
                    assert(string_views(todos@) =~= prev.push(s@));
                },
                _ => {},
            }
            i += 1;
        }
        assert(lv.take(ls@.len() as int) =~= lv);
        if symbols.len() > 50 {
            let ghost sv = string_views(symbols@);
            symbols.truncate(50);
            symbols.push("... (truncated)".to_owned());
            assert(string_views(symbols@) =~= sv.take(50).push("... (truncated)"@));
        }
        FileAnalysis {
            path: path.to_owned(),
            lines: ls.len(),
            size_bytes,
            complexity_score: score,
            symbols,
            dependencies: deps,
            todos,
        }
    }
}

proof fn lemma_complexity_prefix(ls: Seq<Seq<char>>, k: int)
    requires
        0 <= k <= ls.len(),
    ensures
        complexity(ls.take(k)) <= complexity(ls),
    decreases ls.len() - k,
{
    if k < ls.len() {
        lemma_complexity_prefix(ls, k + 1);
        assert(ls.take(k + 1).drop_last() =~= ls.take(k));
    } else {
        assert(ls.take(k) =~= ls);
    }
}

impl Analyzer {
    /// Whether a text's complexity score fits the score's type.
    pub fn complexity_fits(text: &str) -> (r: bool)
        ensures
            r == (complexity(lines_of(text@)) <= u32::MAX),
    {
        let tc = chars_of(text);
        let ls = split_lines(&tc);
        let ghost lv = views(ls@);
        let mut total: u64 = 0;
        let mut i: usize = 0;
        while i < ls.len()
            invariant
                i <= ls@.len(),
                lv == views(ls@),
                lv == lines_of(text@),
                total == complexity(lv.take(i as int)),
                total <= u32::MAX,
            decreases ls.len() - i,
        {
            proof {
                let t = lv.take(i + 1);
                assert(t.drop_last() =~= lv.take(i as int));
                assert(t.last() == lv[i as int]);
            }
            let lc = &ls[i];
            let spaces = leading_spaces_exec(lc);
            let long = utf8_len_gt(lc, 80);
            let add: u64 = ((spaces / 4) as u64) + if long { 1 } else { 0 };
            total = total + add;
            i += 1;
            if total > 0xffff_ffff {
                proof {
                    lemma_complexity_prefix(lv, i as int);
                }
                return false;
            }
        }
        assert(lv.take(ls@.len() as int) =~= lv);
        true
    }
}

} // verus!
