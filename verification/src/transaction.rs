//! The working state of a multi-file edit.  Every edit of a file applies to
//! the text the edits before it left, each file is written once with its
//! last text, in the order the files were first touched, and the diffs
//! compare each file's text on disk with its last text.
use vstd::prelude::*;
use crate::mutate::{diff_block, unified_diff_of, Mutator, WriteFileArgs};
use crate::response::IvaldiResponse;
use crate::text::{append_chars, append_str, chars_eq, chars_of, decimal, decimal_chars, string_of, string_views};

verus! {

/// One file of a transaction: its path, its text on disk, its text now.
#[derive(Debug, Clone)]
pub struct FileState {
    pub path: String,
    pub original: String,
    pub current: String,
}

/// The files a multi-file edit has touched so far.
#[derive(Debug)]
pub struct EditTransaction {
    files: Vec<FileState>,
}

/// A file's state as (path, text on disk, text now).
pub type StateView = (Seq<char>, Seq<char>, Seq<char>);

pub open spec fn state_view(f: FileState) -> StateView {
    (f.path@, f.original@, f.current@)
}

impl View for EditTransaction {
    type V = Seq<StateView>;

    closed spec fn view(&self) -> Seq<StateView> {
        self.files@.map_values(|f: FileState| state_view(f))
    }
}

/// No path occurs twice.
pub open spec fn distinct_paths(s: Seq<StateView>) -> bool {
    forall|i: int, j: int| 0 <= i < j < s.len() ==> #[trigger] s[i].0 != #[trigger] s[j].0
}

/// Whether a path has been touched.
pub open spec fn touched(s: Seq<StateView>, p: Seq<char>) -> bool {
    exists|i: int| 0 <= i < s.len() && #[trigger] s[i].0 == p
}

/// The text a path has now, if it has been touched.
pub open spec fn working_of(s: Seq<StateView>, p: Seq<char>) -> Option<Seq<char>>
    decreases s.len(),
{
    if s.len() == 0 {
        None
    } else if s.last().0 == p {
        Some(s.last().2)
    } else {
        working_of(s.drop_last(), p)
    }
}

/// The states after `p` was given the text `c`.
pub open spec fn with_current(s: Seq<StateView>, p: Seq<char>, c: Seq<char>) -> Seq<StateView> {
    Seq::new(s.len(), |i: int| if s[i].0 == p { (s[i].0, s[i].1, c) } else { s[i] })
}

/// The diff of one file, when it shows anything.
pub open spec fn file_diff(e: StateView) -> Seq<Seq<char>> {
    let d = unified_diff_of(e.1, e.2, 3, e.0);
    if d.len() > 0 {
        seq![diff_block(d)]
    } else {
        Seq::empty()
    }
}

/// The diffs of all files, in the order they were touched.
pub open spec fn diffs_of(s: Seq<StateView>) -> Seq<Seq<char>>
    decreases s.len(),
{
    if s.len() == 0 {
        Seq::empty()
    } else {
        diffs_of(s.drop_last()) + file_diff(s.last())
    }
}

/// What one write of a commit gave.
#[derive(Debug, Clone)]
pub enum WriteReport {
    /// The file was written; the path the write reported.
    Written(String),
    /// The write failed; its error as text.
    Failed(String),
    /// The write reported success but no path.
    NoPath,
}

/// Whether a commit goes on after a write.
#[derive(Debug, Clone)]
pub enum CommitStep {
    /// Write the next file.
    Next,
    /// Stop writing and roll back, for this cause.
    Stop(String),
}

/// The message of a transaction that was rolled back.
pub open spec fn abort_message(undone: nat, cause: Seq<char>) -> Seq<char> {
    "Transaction aborted. Rolled back "@ + decimal(undone) + " changes. Cause: "@ + cause
}

proof fn lemma_working_none(s: Seq<StateView>, p: Seq<char>)
    requires
        !touched(s, p),
    ensures
        working_of(s, p) is None,
    decreases s.len(),
{
    if s.len() > 0 {
        assert(s.drop_last().len() < s.len());
        if touched(s.drop_last(), p) {
            let i = choose|i: int| 0 <= i < s.drop_last().len() && #[trigger] s.drop_last()[i].0 == p;
            assert(s[i].0 == p);
        }
        assert(s[s.len() - 1].0 != p);
        lemma_working_none(s.drop_last(), p);
    }
}

proof fn lemma_working_at(s: Seq<StateView>, p: Seq<char>, i: int)
    requires
        distinct_paths(s),
        0 <= i < s.len(),
        s[i].0 == p,
    ensures
        working_of(s, p) == Some(s[i].2),
    decreases s.len(),
{
    if i < s.len() - 1 {
        assert(s[s.len() - 1].0 != p);
        assert(s.drop_last()[i] == s[i]);
        lemma_working_at(s.drop_last(), p, i);
    }
}

/// A file's text, once an edit gave it, is what the next edit of it
/// starts from, and the other files keep theirs.
pub proof fn law_edits_build_on_each_other(s: Seq<StateView>, p: Seq<char>, c: Seq<char>, q: Seq<char>)
    requires
        distinct_paths(s),
        touched(s, p),
    ensures
        working_of(with_current(s, p, c), p) == Some(c),
        q != p ==> working_of(with_current(s, p, c), q) == working_of(s, q),
{
    let t = with_current(s, p, c);
    assert(distinct_paths(t)) by {
        assert forall|i: int, j: int| 0 <= i < j < t.len() implies #[trigger] t[i].0 != #[trigger] t[j].0 by {
            assert(t[i].0 == s[i].0 && t[j].0 == s[j].0);
        }
    }
    let i = choose|i: int| 0 <= i < s.len() && #[trigger] s[i].0 == p;
    lemma_working_at(t, p, i);
    if q != p {
        if touched(s, q) {
            let k = choose|k: int| 0 <= k < s.len() && #[trigger] s[k].0 == q;
            lemma_working_at(t, q, k);
            lemma_working_at(s, q, k);
        } else {
            lemma_working_none(s, q);
            if touched(t, q) {
                let k = choose|k: int| 0 <= k < t.len() && #[trigger] t[k].0 == q;
                assert(s[k].0 == q);
            }
            lemma_working_none(t, q);
        }
    }
}

impl EditTransaction {
    /// A transaction that has touched no file.
    pub fn new() -> (r: Self)
        ensures
            r.wf(),
            r@ == Seq::<StateView>::empty(),
    {
        let r = EditTransaction { files: Vec::new() };
        assert(r@ =~= Seq::<StateView>::empty());
        r
    }

    /// No path occurs twice.
    pub closed spec fn wf(&self) -> bool {
        distinct_paths(self@)
    }

    fn find(&self, path: &str) -> (r: Option<usize>)
        ensures
            match r {
                Some(i) => i < self@.len() && self@[i as int].0 == path@,
                None => !touched(self@, path@),
            },
    {
        let pc = chars_of(path);
        let mut i: usize = 0;
        while i < self.files.len()
            invariant
                i <= self.files@.len(),
                pc@ == path@,
                self@ == self.files@.map_values(|f: FileState| state_view(f)),
                forall|k: int| 0 <= k < i ==> #[trigger] self@[k].0 != path@,
            decreases self.files.len() - i,
        {
            let fc = chars_of(self.files[i].path.as_str());
            if chars_eq(&fc, &pc) {
                return Some(i);
            }
            i += 1;
        }
        proof {
            if touched(self@, path@) {
                let k = choose|k: int| 0 <= k < self@.len() && #[trigger] self@[k].0 == path@;
                assert(self@[k].0 != path@);
            }
        }
        None
    }

    /// The text `path` has now, when the transaction has touched it.
    pub fn working_text(&self, path: &str) -> (r: Option<String>)
        requires
            self.wf(),
        ensures
            match r {
                Some(c) => working_of(self@, path@) == Some(c@),
                None => working_of(self@, path@) is None && !touched(self@, path@),
            },
    {
        match self.find(path) {
            Some(i) => {
                proof {
                    lemma_working_at(self@, path@, i as int);
                }
                Some(self.files[i].current.clone())
            },
            None => {
                proof {
                    lemma_working_none(self@, path@);
                }
                None
            },
        }
    }

    /// Starts tracking a file read from disk; its text now is its text on
    /// disk.
    pub fn begin(&mut self, path: &str, disk: &str)
        requires
            old(self).wf(),
            !touched(old(self)@, path@),
        ensures
            final(self).wf(),
            final(self)@ == old(self)@.push((path@, disk@, disk@)),
    {
        let ghost before = self@;
        self.files.push(FileState { path: path.to_owned(), original: disk.to_owned(), current: disk.to_owned() });
        assert(self@ =~= before.push((path@, disk@, disk@)));
        assert(distinct_paths(self@)) by {
            assert forall|i: int, j: int| 0 <= i < j < self@.len() implies #[trigger] self@[i].0 != #[trigger] self@[j].0 by {
                if j == before.len() {
                    assert(self@[i] == before[i]);
                    assert(before[i].0 != path@);
                } else {
                    assert(self@[i] == before[i] && self@[j] == before[j]);
                }
            }
        }
    }

    /// Gives a touched file the text an edit produced.
    pub fn record(&mut self, path: &str, content: &str)
        requires
            old(self).wf(),
            touched(old(self)@, path@),
        ensures
            final(self).wf(),
            final(self)@ == with_current(old(self)@, path@, content@),
    {
        let ghost before = self@;
        let i = match self.find(path) {
            Some(i) => i,
            None => {
                proof {
                    let k = choose|k: int| 0 <= k < before.len() && #[trigger] before[k].0 == path@;
                    assert(false);
                }
                return;
            },
        };
        let f = FileState {
            path: self.files[i].path.clone(),
            original: self.files[i].original.clone(),
            current: content.to_owned(),
        };
        self.files.set(i, f);
        assert forall|k: int| 0 <= k < before.len() implies #[trigger] self@[k] == with_current(before, path@, content@)[k] by {
            if k == i {
            } else {
                assert(before[k].0 != path@ || k == i);
            }
        }
        assert(self@ =~= with_current(before, path@, content@));
        assert(distinct_paths(self@)) by {
            assert forall|a: int, b: int| 0 <= a < b < self@.len() implies #[trigger] self@[a].0 != #[trigger] self@[b].0 by {
                assert(self@[a].0 == before[a].0 && self@[b].0 == before[b].0);
            }
        }
    }

    /// The writes that commit the transaction: each touched file once,
    /// overwritten with its text now, in the order it was first touched.
    pub fn prepared_writes(&self) -> (r: Vec<WriteFileArgs>)
        ensures
            r@.len() == self@.len(),
            forall|i: int|
                0 <= i < r@.len() ==> {
                    &&& (#[trigger] r@[i]).path@ == self@[i].0
                    &&& r@[i].content@ == self@[i].2
                    &&& r@[i].overwrite
                    &&& !r@[i].append
                },
    {
        let mut out: Vec<WriteFileArgs> = Vec::new();
        let mut i: usize = 0;
        while i < self.files.len()
            invariant
                i <= self.files@.len(),
                self@ == self.files@.map_values(|f: FileState| state_view(f)),
                out@.len() == i,
                forall|k: int|
                    0 <= k < i ==> {
                        &&& (#[trigger] out@[k]).path@ == self@[k].0
                        &&& out@[k].content@ == self@[k].2
                        &&& out@[k].overwrite
                        &&& !out@[k].append
                    },
            decreases self.files.len() - i,
        {
            let f = &self.files[i];
            out.push(WriteFileArgs {
                path: f.path.clone(),
                content: f.current.clone(),
                overwrite: true,
                append: false,
            });
            i += 1;
        }
        out
    }

    /// The diffs shown once the transaction is committed, in the order the
    /// files were first touched; a file whose diff shows nothing has none.
    pub fn diffs(&self) -> (r: Vec<String>)
        ensures
            string_views(r@) == diffs_of(self@),
    {
        let mut out: Vec<String> = Vec::new();
        let mut i: usize = 0;
        while i < self.files.len()
            invariant
                i <= self.files@.len(),
                self@ == self.files@.map_values(|f: FileState| state_view(f)),
                string_views(out@) == diffs_of(self@.take(i as int)),
            decreases self.files.len() - i,
        {
            proof {
                assert(self@.take(i + 1).drop_last() =~= self@.take(i as int));
                assert(self@.take(i + 1).last() == self@[i as int]);
            }
            let f = &self.files[i];
            let ghost before = string_views(out@);
            match Mutator::diff_for(f.original.as_str(), f.current.as_str(), f.path.as_str()) {
                Some(d) => {
                    out.push(d);
                    assert(string_views(out@) =~= before + file_diff(self@[i as int]));
                },
                None => {
                    assert(string_views(out@) =~= before + file_diff(self@[i as int]));
                },
            }
            i += 1;
        }
        assert(self@.take(self@.len() as int) =~= self@);
        out
    }

    /// The answer to a committed transaction: the paths written, with the
    /// diffs.
    pub fn committed(&self, written: Vec<String>) -> (r: IvaldiResponse<Vec<String>>)
        ensures
            !r.is_error,
            r.content == Some(written),
            string_views(r.ui_diffs@) == diffs_of(self@),
            r.advisory@.len() == 0,
            r.error is None,
    {
        let ds = self.diffs();
        let mut resp = IvaldiResponse::success(written);
        let mut i: usize = 0;
        while i < ds.len()
            invariant
                i <= ds@.len(),
                !resp.is_error,
                resp.content == Some(written),
                resp.ui_diffs@ == ds@.take(i as int),
                resp.advisory@.len() == 0,
                resp.error is None,
            decreases ds.len() - i,
        {
            resp = resp.with_ui_diff(ds[i].clone());
            assert(resp.ui_diffs@ =~= ds@.take(i + 1));
            i += 1;
        }
        assert(ds@.take(ds@.len() as int) =~= ds@);
        resp
    }

    /// One step of a commit, after a write: a written path is kept and the
    /// commit goes on; a failed write, or one that reports no path, stops
    /// it with its cause and keeps nothing.
    pub fn commit_step(written: &mut Vec<String>, report: WriteReport) -> (r: CommitStep)
        ensures
            match report {
                WriteReport::Written(p) => r is Next && final(written)@ == old(written)@.push(p),
                WriteReport::Failed(m) => (r matches CommitStep::Stop(c) && c@ == "Write failed: "@ + m@)
                    && final(written)@ == old(written)@,
                WriteReport::NoPath => (r matches CommitStep::Stop(c) && c@
                    == "Write succeeded but returned no path"@) && final(written)@ == old(written)@,
            },
    {
        match report {
            WriteReport::Written(p) => {
                written.push(p);
                CommitStep::Next
            },
            WriteReport::Failed(m) => {
                let mut v = chars_of("Write failed: ");
                append_str(&mut v, m.as_str());
                CommitStep::Stop(string_of(&v))
            },
            WriteReport::NoPath => CommitStep::Stop("Write succeeded but returned no path".to_owned()),
        }
    }

    /// How a commit ends, all or nothing: when a write stopped it, each of
    /// the writes made before is undone (as many undos as paths written)
    /// and the answer is `transaction_failed`; otherwise nothing is undone
    /// and the answer lists the paths written, in order, with the diffs.
    pub fn conclude(&self, written: Vec<String>, failure: Option<String>) -> (r: (
        usize,
        IvaldiResponse<Vec<String>>,
    ))
        ensures
            match failure {
                Some(c) => r.0 == written@.len() && r.1.is_error && r.1.content is None && (r.1.error matches Some(
                    e,
                ) && e.code@ == "transaction_failed"@ && e.message@ == abort_message(written@.len(), c@)),
                None => r.0 == 0 && !r.1.is_error && r.1.content == Some(written) && string_views(r.1.ui_diffs@)
                    == diffs_of(self@) && r.1.error is None,
            },
    {
        match failure {
            Some(c) => {
                let n = written.len();
                (n, EditTransaction::aborted(n, c.as_str()))
            },
            None => (0, self.committed(written)),
        }
    }

    /// The answer to a transaction rolled back after `undone` writes.
    pub fn aborted(undone: usize, cause: &str) -> (r: IvaldiResponse<Vec<String>>)
        ensures
            r.is_error,
            r.content is None,
            r.error matches Some(e) && e.code@ == "transaction_failed"@ && e.message@ == abort_message(
                undone as nat,
                cause@,
            ),
    {
        let mut v = chars_of("Transaction aborted. Rolled back ");
        append_chars(&mut v, &decimal_chars(undone));
        append_str(&mut v, " changes. Cause: ");
        append_str(&mut v, cause);
        IvaldiResponse::error("transaction_failed".to_owned(), string_of(&v))
    }

    /// The answer to an edit of the transaction that names no selector.
    pub fn missing_selector(path: &str) -> (r: IvaldiResponse<Vec<String>>)
        ensures
            r.is_error,
            r.content is None,
            r.error matches Some(e) && e.code@ == "invalid_args"@ && e.message@ == "Invalid args for "@
                + path@ + ": Selector required"@,
    {
        let mut v = chars_of("Invalid args for ");
        append_str(&mut v, path);
        append_str(&mut v, ": Selector required");
        IvaldiResponse::error("invalid_args".to_owned(), string_of(&v))
    }
}

} // verus!
