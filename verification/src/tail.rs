//! The last record of a journal, read without reading the whole file: the
//! bytes are scanned backwards, a chunk of at most 1024 bytes at a time,
//! until a non-empty line is complete.  Empty lines are passed over.
use vstd::prelude::*;

verus! {

/// The bytes after the last newline.
pub open spec fn tail_run(b: Seq<u8>) -> Seq<u8>
    decreases b.len(),
{
    if b.len() == 0 || b.last() == 10u8 {
        Seq::empty()
    } else {
        tail_run(b.drop_last()).push(b.last())
    }
}

/// The last non-empty line (empty when every line is).
pub open spec fn last_line(b: Seq<u8>) -> Seq<u8>
    decreases b.len(),
{
    if b.len() == 0 {
        Seq::empty()
    } else if b.last() == 10u8 {
        last_line(b.drop_last())
    } else {
        tail_run(b)
    }
}

/// A sequence backwards.
pub open spec fn rev(s: Seq<u8>) -> Seq<u8> {
    Seq::new(s.len(), |i: int| s[s.len() - 1 - i])
}

/// The state of a scan: the line so far, backwards, and whether it is
/// complete.
pub type ScanState = (Seq<u8>, bool);

/// One byte of the backward scan.
pub open spec fn scan_byte(st: ScanState, c: u8) -> ScanState {
    if st.1 {
        st
    } else if c == 10u8 {
        if st.0.len() > 0 {
            (st.0, true)
        } else {
            st
        }
    } else {
        (st.0.push(c), false)
    }
}

/// A chunk of the backward scan: its bytes from last to first.
pub open spec fn scan_chunk(st: ScanState, chunk: Seq<u8>) -> ScanState
    decreases chunk.len(),
{
    if chunk.len() == 0 {
        st
    } else {
        scan_chunk(scan_byte(st, chunk.last()), chunk.drop_last())
    }
}

/// The size of the next chunk before `pos`.
pub open spec fn chunk_len(pos: nat) -> nat {
    if pos < 1024 {
        pos
    } else {
        1024
    }
}

/// The scan of the bytes before `pos`, chunk by chunk, until a line is
/// complete or the start is reached.
pub open spec fn scan_from(b: Seq<u8>, pos: nat, st: ScanState) -> ScanState
    decreases pos,
{
    if pos == 0 || st.1 || pos > b.len() {
        st
    } else {
        let n = chunk_len(pos);
        scan_from(b, (pos - n) as nat, scan_chunk(st, b.subrange(pos - n, pos as int)))
    }
}

/// Where the scan starts: before a final newline.
pub open spec fn scan_end(b: Seq<u8>) -> nat {
    if b.len() > 0 && b.last() == 10u8 {
        (b.len() - 1) as nat
    } else {
        b.len()
    }
}

/// What the scan of a whole file finds.
pub open spec fn scanned_line(b: Seq<u8>) -> Option<Seq<u8>> {
    let st = scan_from(b, scan_end(b), (Seq::empty(), false));
    if st.0.len() > 0 {
        Some(rev(st.0))
    } else {
        None
    }
}

/// What the scan knows of the file once the bytes from `k` on are read.
spec fn scan_inv(b: Seq<u8>, e: nat, k: nat, st: ScanState) -> bool {
    &&& k <= e <= b.len()
    &&& st.1 ==> st.0.len() > 0 && rev(st.0) == last_line(b.take(e as int))
    &&& !st.1 ==> last_line(b.take(e as int)) == if st.0.len() > 0 {
        tail_run(b.take(k as int)) + rev(st.0)
    } else {
        last_line(b.take(k as int))
    }
}

proof fn lemma_scan_byte(b: Seq<u8>, e: nat, k: nat, st: ScanState)
    requires
        scan_inv(b, e, k, st),
        k > 0,
    ensures
        scan_inv(b, e, (k - 1) as nat, scan_byte(st, b[k - 1])),
{
    let p = b.take(k as int);
    let q = b.take(k - 1);
    let c = b[k - 1];
    assert(p.drop_last() =~= q);
    assert(p.last() == c);
    if !st.1 {
        if c == 10u8 {
            assert(tail_run(p) == Seq::<u8>::empty());
        } else {
            let st2 = scan_byte(st, c);
            assert(rev(st.0.push(c)) =~= seq![c] + rev(st.0));
            assert(tail_run(p) == tail_run(q).push(c));
            if st.0.len() > 0 {
                assert(tail_run(q).push(c) + rev(st.0) =~= tail_run(q) + rev(st2.0));
            } else {
                assert(rev(st.0) =~= Seq::<u8>::empty());
                assert(last_line(p) == tail_run(p));
                assert(tail_run(q).push(c) =~= tail_run(q) + rev(st2.0));
            }
        }
    }
}

proof fn lemma_scan_chunk(b: Seq<u8>, e: nat, j: nat, k: nat, st: ScanState)
    requires
        scan_inv(b, e, k, st),
        j <= k,
    ensures
        scan_inv(b, e, j, scan_chunk(st, b.subrange(j as int, k as int))),
    decreases k - j,
{
    let chunk = b.subrange(j as int, k as int);
    if j < k {
        assert(chunk.last() == b[k - 1]);
        assert(chunk.drop_last() =~= b.subrange(j as int, k - 1));
        lemma_scan_byte(b, e, k, st);
        lemma_scan_chunk(b, e, j, (k - 1) as nat, scan_byte(st, b[k - 1]));
    } else {
        assert(chunk.len() == 0);
    }
}

proof fn lemma_scan_from(b: Seq<u8>, e: nat, pos: nat, st: ScanState)
    requires
        scan_inv(b, e, pos, st),
    ensures
        scan_inv(b, e, 0, scan_from(b, pos, st)) || scan_from(b, pos, st).1,
        scan_from(b, pos, st).1 ==> scan_inv(b, e, pos, scan_from(b, pos, st)),
    decreases pos,
{
    if pos == 0 || st.1 || pos > b.len() {
    } else {
        let n = chunk_len(pos);
        let st2 = scan_chunk(st, b.subrange(pos - n, pos as int));
        lemma_scan_chunk(b, e, (pos - n) as nat, pos, st);
        lemma_scan_from(b, e, (pos - n) as nat, st2);
        if scan_from(b, pos, st).1 {
            let f = scan_from(b, pos, st);
            assert(f.0.len() > 0 && rev(f.0) == last_line(b.take(e as int)));
        }
    }
}

/// The scan finds the last non-empty line of the file, and nothing when
/// every line is empty.
pub proof fn law_scan_finds_last_line(b: Seq<u8>)
    ensures
        scanned_line(b) == if last_line(b).len() > 0 {
            Some(last_line(b))
        } else {
            None
        },
{
    let e = scan_end(b);
    let st0: ScanState = (Seq::empty(), false);
    lemma_scan_from(b, e, e, st0);
    let f = scan_from(b, e, st0);
    assert(b.take(0) =~= Seq::<u8>::empty());
    if b.len() > 0 && b.last() == 10u8 {
        assert(b.take(e as int) =~= b.drop_last());
    } else {
        assert(b.take(e as int) =~= b);
    }
    if f.1 {
        assert(scan_inv(b, e, e, f));
    } else {
        assert(scan_inv(b, e, 0, f));
        if f.0.len() > 0 {
            assert(Seq::<u8>::empty() + rev(f.0) =~= rev(f.0));
        }
    }
}

/// A backward scan of a file in progress.
#[derive(Debug)]
pub struct TailScan {
    pos: u64,
    line_rev: Vec<u8>,
    found: bool,
}

impl View for TailScan {
    type V = (nat, ScanState);

    closed spec fn view(&self) -> (nat, ScanState) {
        (self.pos as nat, (self.line_rev@, self.found))
    }
}

impl TailScan {
    /// A scan of a file of `size` bytes whose last byte is `last`; it
    /// starts before a final newline.
    pub fn start(size: u64, last: u8) -> (r: Self)
        requires
            size > 0,
        ensures
            r@ == (if last == 10u8 {
                (size - 1) as nat
            } else {
                size as nat
            }, (Seq::<u8>::empty(), false)),
    {
        let pos = if last == 10u8 { size - 1 } else { size };
        TailScan { pos, line_rev: Vec::new(), found: false }
    }

    /// The bytes to read next, as (offset, length), or nothing when the
    /// scan is over.
    pub fn next_range(&self) -> (r: Option<(u64, u64)>)
        ensures
            match r {
                Some((off, n)) => !self@.1.1 && self@.0 > 0 && n == chunk_len(self@.0) && off + n
                    == self@.0,
                None => self@.1.1 || self@.0 == 0,
            },
    {
        if self.found || self.pos == 0 {
            None
        } else {
            let n: u64 = if self.pos < 1024 { self.pos } else { 1024 };
            Some((self.pos - n, n))
        }
    }

    /// Scans the bytes `next_range` asked for, from last to first.
    pub fn feed(&mut self, chunk: &Vec<u8>)
        requires
            !old(self)@.1.1,
            old(self)@.0 > 0,
            chunk@.len() == chunk_len(old(self)@.0),
        ensures
            final(self)@ == ((old(self)@.0 - chunk@.len()) as nat, scan_chunk(old(self)@.1, chunk@)),
    {
        let ghost st0 = (self.line_rev@, self.found);
        let mut i: usize = chunk.len();
        assert(chunk@.take(i as int) =~= chunk@);
        while i > 0
            invariant
                i <= chunk@.len(),
                scan_chunk(st0, chunk@) == scan_chunk((self.line_rev@, self.found), chunk@.take(i as int)),
                self.pos == old(self).pos,
            decreases i,
        {
            proof {
                assert(chunk@.take(i as int).last() == chunk@[i - 1]);
                assert(chunk@.take(i as int).drop_last() =~= chunk@.take(i - 1));
            }
            if !self.found {
                let c = chunk[i - 1];
                if c == 10u8 {
                    if self.line_rev.len() > 0 {
                        self.found = true;
                    }
                } else {
                    self.line_rev.push(c);
                }
            }
            i -= 1;
        }
        assert(chunk@.take(0) =~= Seq::<u8>::empty());
        self.pos = self.pos - chunk.len() as u64;
    }

    /// The line found, in order, or nothing when the lines read so far are
    /// all empty.
    pub fn line(&self) -> (r: Option<Vec<u8>>)
        ensures
            match r {
                Some(l) => self@.1.0.len() > 0 && l@ == rev(self@.1.0),
                None => self@.1.0.len() == 0,
            },
    {
        if self.line_rev.len() == 0 {
            return None;
        }
        let mut out: Vec<u8> = Vec::new();
        let n = self.line_rev.len();
        let mut i: usize = n;
        while i > 0
            invariant
                i <= n,
                n == self.line_rev@.len(),
                out@ == rev(self.line_rev@).take(n - i),
            decreases i,
        {
            out.push(self.line_rev[i - 1]);
            assert(out@ =~= rev(self.line_rev@).take(n - i + 1));
            i -= 1;
        }
        assert(rev(self.line_rev@).take(n as int) =~= rev(self.line_rev@));
        Some(out)
    }
}

} // verus!
