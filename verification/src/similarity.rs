//! Edit distance and the "did you mean" suggestions built on it.
use vstd::prelude::*;
use crate::text::{chars_of, lowercase, to_lowercase};
use crate::edit_context::SimilarName;

verus! {

/// Levenshtein distance: the fewest single-character insertions, deletions
/// and substitutions that turn `a` into `b`.
pub open spec fn lev(a: Seq<char>, b: Seq<char>) -> nat
    decreases a.len() + b.len(),
{
    if a.len() == 0 {
        b.len()
    } else if b.len() == 0 {
        a.len()
    } else {
        let del = lev(a.drop_last(), b) + 1;
        let ins = lev(a, b.drop_last()) + 1;
        let sub = lev(a.drop_last(), b.drop_last()) + if a.last() == b.last() {
            0nat
        } else {
            1nat
        };
        min3(del, ins, sub)
    }
}

/// Smallest of three numbers.
pub open spec fn min3(x: nat, y: nat, z: nat) -> nat {
    if x <= y && x <= z {
        x
    } else if y <= z {
        y
    } else {
        z
    }
}

/// The distance never exceeds the longer length.
pub proof fn lemma_lev_bound(a: Seq<char>, b: Seq<char>)
    ensures
        lev(a, b) <= if a.len() >= b.len() { a.len() } else { b.len() },
    decreases a.len() + b.len(),
{
    if a.len() > 0 && b.len() > 0 {
        lemma_lev_bound(a.drop_last(), b.drop_last());
    }
}

/// A text is at distance zero from itself.
pub proof fn lemma_lev_self(a: Seq<char>)
    ensures
        lev(a, a) == 0,
    decreases a.len(),
{
    if a.len() > 0 {
        lemma_lev_self(a.drop_last());
    }
}

/// Distance zero means the texts are equal.
pub proof fn lemma_lev_zero(a: Seq<char>, b: Seq<char>)
    requires
        lev(a, b) == 0,
    ensures
        a == b,
    decreases a.len() + b.len(),
{
    if a.len() > 0 && b.len() > 0 {
        lemma_lev_bound(a.drop_last(), b);
        lemma_lev_bound(a, b.drop_last());
        lemma_lev_zero(a.drop_last(), b.drop_last());
        assert(a =~= a.drop_last().push(a.last()));
        assert(b =~= b.drop_last().push(b.last()));
    }
}

/// Adds one, saturating at the largest `usize`.
fn add1(x: usize) -> (r: usize)
    ensures
        x < usize::MAX ==> r == x + 1,
        x == usize::MAX ==> r == x,
{
    if x < usize::MAX {
        x + 1
    } else {
        x
    }
}

/// Levenshtein distance of two character sequences.
pub fn levenshtein_chars(a: &Vec<char>, b: &Vec<char>) -> (d: usize)
    ensures
        d == lev(a@, b@),
{
    let alen = a.len();
    let blen = b.len();
    if alen == 0 {
        return blen;
    }
    if blen == 0 {
        return alen;
    }
    // row[k] holds lev(a[..i], b[..k + 1]); column 0 is i itself.
    let mut row: Vec<usize> = Vec::new();
    let mut k: usize = 0;
    while k < blen
        invariant
            k <= blen == b@.len(),
            row@.len() == k,
            forall|j: int| 0 <= j < k ==> #[trigger] row@[j] == lev(Seq::<char>::empty(), b@.take(j + 1)),
        decreases blen - k,
    {
        row.push(k + 1);
        k += 1;
    }
    let mut i: usize = 0;
    while i < alen
        invariant
            i <= alen == a@.len(),
            blen == b@.len(),
            blen >= 1,
            row@.len() == blen,
            forall|j: int| 0 <= j < blen ==> #[trigger] row@[j] == lev(a@.take(i as int), b@.take(j + 1)),
        decreases alen - i,
    {
        let ghost ai = a@.take(i as int);
        let ghost ai1 = a@.take(i + 1);
        proof {
            assert(ai1.drop_last() =~= ai);
            assert(ai1.last() == a@[i as int]);
        }
        let mut diag: usize = i;  // lev(a[..i], b[..k])
        let mut left: usize = i + 1;  // lev(a[..i + 1], b[..k])
        proof {
            assert(b@.take(0) =~= Seq::<char>::empty());
        }
        let mut k: usize = 0;
        while k < blen
            invariant
                i < alen == a@.len(),
                blen == b@.len(),
                k <= blen,
                row@.len() == blen,
                ai == a@.take(i as int),
                ai1 == a@.take(i + 1),
                ai1.drop_last() == ai,
                ai1.last() == a@[i as int],
                diag == lev(ai, b@.take(k as int)),
                left == lev(ai1, b@.take(k as int)),
                forall|j: int| k <= j < blen ==> #[trigger] row@[j] == lev(ai, b@.take(j + 1)),
                forall|j: int| 0 <= j < k ==> #[trigger] row@[j] == lev(ai1, b@.take(j + 1)),
            decreases blen - k,
        {
            let ghost bk1 = b@.take(k + 1);
            proof {
                assert(bk1.drop_last() =~= b@.take(k as int));
                assert(bk1.last() == b@[k as int]);
                lemma_lev_bound(ai, b@.take(k as int));
                lemma_lev_bound(ai1, bk1);
            }
            let up = row[k];  // lev(ai, bk1)
            let cost: usize = if a[i] == b[k] { 0 } else { 1 };
            let del = add1(up);
            let ins = add1(left);
            let sub = diag + cost;
            let mut m = if del <= ins { del } else { ins };
            if sub < m {
                m = sub;
            }
            proof {
                assert(lev(ai1, bk1) == min3((up + 1) as nat, (left + 1) as nat, (diag + cost) as nat));
            }
            diag = up;
            left = m;
            row.set(k, m);
            k += 1;
        }
        i += 1;
    }
    proof {
        assert(a@.take(alen as int) =~= a@);
        assert(b@.take(blen as int) =~= b@);
    }
    row[blen - 1]
}

/// Levenshtein distance between two strings, counted in characters.
pub fn levenshtein_distance(a: &str, b: &str) -> (d: usize)
    ensures
        d == lev(a@, b@),
{
    let ac = chars_of(a);
    let bc = chars_of(b);
    levenshtein_chars(&ac, &bc)
}


/// A scored name: the name, its distance, and its category.
pub type Scored = (Seq<char>, nat, Seq<char>);

/// The abstract value of a suggestion.
pub open spec fn similar_view(s: SimilarName) -> Scored {
    (s.name@, s.distance as nat, s.category@)
}

/// Abstract values of a list of suggestions.
pub open spec fn similar_views(s: Seq<SimilarName>) -> Seq<Scored> {
    s.map_values(|x: SimilarName| similar_view(x))
}

/// Candidate `(name, category)` pairs as character sequences.
pub open spec fn candidate_views(c: Seq<(&str, &str)>) -> Seq<(Seq<char>, Seq<char>)> {
    c.map_values(|p: (&str, &str)| (p.0@, p.1@))
}

/// Candidates scored against `target` (compared in lowercase) and kept when
/// their distance is positive and at most `max`, in input order.
pub open spec fn scored_candidates(
    target: Seq<char>,
    cands: Seq<(Seq<char>, Seq<char>)>,
    max: nat,
) -> Seq<Scored>
    decreases cands.len(),
{
    if cands.len() == 0 {
        Seq::empty()
    } else {
        let prev = scored_candidates(target, cands.drop_last(), max);
        let c = cands.last();
        let d = lev(lowercase(target), lowercase(c.0));
        if 0 < d <= max {
            prev.push((c.0, d, c.1))
        } else {
            prev
        }
    }
}

/// Inserts `x` into a list ordered by distance, after every element whose
/// distance is not larger (so equal distances keep their order).
pub open spec fn insert_by_distance(s: Seq<Scored>, x: Scored) -> Seq<Scored>
    decreases s.len(),
{
    if s.len() == 0 {
        seq![x]
    } else if s.last().1 <= x.1 {
        s.push(x)
    } else {
        insert_by_distance(s.drop_last(), x).push(s.last())
    }
}

/// Stable sort by distance.
pub open spec fn sort_by_distance(s: Seq<Scored>) -> Seq<Scored>
    decreases s.len(),
{
    if s.len() == 0 {
        Seq::empty()
    } else {
        insert_by_distance(sort_by_distance(s.drop_last()), s.last())
    }
}

/// The suggestions `find_similar_names` returns: the five closest
/// candidates (ties in input order).
pub open spec fn similar_names_spec(
    target: Seq<char>,
    cands: Seq<(Seq<char>, Seq<char>)>,
    max: nat,
) -> Seq<Scored> {
    let sorted = sort_by_distance(scored_candidates(target, cands, max));
    if sorted.len() <= 5 {
        sorted
    } else {
        sorted.take(5)
    }
}

fn insert_sorted(v: &mut Vec<SimilarName>, x: SimilarName)
    ensures
        similar_views(final(v)@) == insert_by_distance(similar_views(old(v)@), similar_view(x)),
    decreases old(v)@.len(),
{
    let ghost s = similar_views(v@);
    if v.len() == 0 || v[v.len() - 1].distance <= x.distance {
        v.push(x);
        assert(similar_views(v@) =~= s.push(similar_view(x)));
    } else {
        let y = v.pop().unwrap();
        assert(similar_views(v@) =~= s.drop_last());
        insert_sorted(v, x);
        let ghost mid = similar_views(v@);
        v.push(y);
        assert(similar_views(v@) =~= mid.push(similar_view(y)));
    }
}

/// Candidates whose names are close to `target` (ignoring case): at most
/// five, closest first, excluding exact matches and those farther than
/// `max_distance`.
pub fn find_similar_names(target: &str, candidates: &[(&str, &str)], max_distance: usize) -> (r: Vec<
    SimilarName,
>)
    ensures
        similar_views(r@) == similar_names_spec(
            target@,
            candidate_views(candidates@),
            max_distance as nat,
        ),
{
    let target_lower = to_lowercase(target);
    let tl = chars_of(target_lower.as_str());
    let ghost cv = candidate_views(candidates@);
    let mut filtered: Vec<SimilarName> = Vec::new();
    let mut i: usize = 0;
    while i < candidates.len()
        invariant
            i <= candidates@.len(),
            cv == candidate_views(candidates@),
            tl@ == lowercase(target@),
            similar_views(filtered@) == scored_candidates(target@, cv.take(i as int), max_distance as nat),
        decreases candidates.len() - i,
    {
        let (name, category) = candidates[i];
        let lname = to_lowercase(name);
        let nl = chars_of(lname.as_str());
        let distance = levenshtein_chars(&tl, &nl);
        proof {
            assert(cv.take(i + 1).drop_last() =~= cv.take(i as int));
            assert(cv.take(i + 1).last() == (name@, category@));
        }
        if distance <= max_distance && distance > 0 {
            let ghost prev = similar_views(filtered@);
            let item = SimilarName { name: name.to_owned(), distance, category: category.to_owned() };
            filtered.push(item);
            assert(similar_views(filtered@) =~= prev.push(similar_view(item)));
        }
        i += 1;
    }
    proof {
        assert(cv.take(candidates@.len() as int) =~= cv);
    }
    let mut sorted: Vec<SimilarName> = Vec::new();
    let mut j: usize = 0;
    while j < filtered.len()
        invariant
            j <= filtered@.len(),
            similar_views(sorted@) == sort_by_distance(similar_views(filtered@).take(j as int)),
        decreases filtered.len() - j,
    {
        proof {
            let f = similar_views(filtered@);
            assert(f.take(j + 1).drop_last() =~= f.take(j as int));
        }
        insert_sorted(&mut sorted, filtered[j].duplicate());
        j += 1;
    }
    proof {
        assert(similar_views(filtered@).take(filtered@.len() as int) =~= similar_views(filtered@));
    }
    if sorted.len() > 5 {
        let ghost sv = similar_views(sorted@);
        sorted.truncate(5);
        assert(similar_views(sorted@) =~= sv.take(5));
    }
    sorted
}

} // verus!
