//! SHA-256 checksums of file contents, written as lowercase hexadecimal.
use vstd::prelude::*;
use sha2::Digest;

verus! {

/// The SHA-256 digest of a byte sequence.
pub uninterp spec fn sha256_of(data: Seq<u8>) -> Seq<u8>;

/// `sha2::Sha256` over the bytes: `update` with them, then `finalize`.  The
/// digest is named (it depends on the bytes alone) and has the algorithm's
/// 32 bytes.
#[verifier::external_body]
fn sha256(data: &[u8]) -> (r: Vec<u8>)
    ensures
        r@ == sha256_of(data@),
        r@.len() == 32,
{
    let mut hasher = sha2::Sha256::new();
    hasher.update(data);
    hasher.finalize().to_vec()
}

/// The lowercase hexadecimal digit for a value below 16.
pub open spec fn hex_digit(d: nat) -> char {
    if d < 10 {
        ((48 + d) as u32) as char
    } else {
        ((87 + d) as u32) as char
    }
}

/// Each byte as two lowercase hexadecimal digits, high digit first.
pub open spec fn hex_of(bs: Seq<u8>) -> Seq<char>
    decreases bs.len(),
{
    if bs.len() == 0 {
        Seq::empty()
    } else {
        hex_of(bs.drop_last()) + seq![hex_digit((bs.last() / 16) as nat), hex_digit((bs.last() % 16) as nat)]
    }
}

fn hex_char(d: u8) -> (c: char)
    requires
        d < 16,
    ensures
        c == hex_digit(d as nat),
{
    if d == 0 { '0' }
    else if d == 1 { '1' }
    else if d == 2 { '2' }
    else if d == 3 { '3' }
    else if d == 4 { '4' }
    else if d == 5 { '5' }
    else if d == 6 { '6' }
    else if d == 7 { '7' }
    else if d == 8 { '8' }
    else if d == 9 { '9' }
    else if d == 10 { 'a' }
    else if d == 11 { 'b' }
    else if d == 12 { 'c' }
    else if d == 13 { 'd' }
    else if d == 14 { 'e' }
    else { 'f' }
}

/// Bytes as lowercase hexadecimal, two digits each (what `{:x}` writes for
/// a digest).
pub fn to_hex(bs: &[u8]) -> (r: String)
    ensures
        r@ == hex_of(bs@),
{
    let mut v: Vec<char> = Vec::new();
    let mut i: usize = 0;
    while i < bs.len()
        invariant
            i <= bs@.len(),
            v@ == hex_of(bs@.take(i as int)),
        decreases bs.len() - i,
    {
        let b = bs[i];
        v.push(hex_char(b / 16));
        v.push(hex_char(b % 16));
        proof {
            assert(bs@.take(i + 1).drop_last() =~= bs@.take(i as int));
        }
        i += 1;
        assert(v@ =~= hex_of(bs@.take(i as int)));
    }
    assert(bs@.take(bs@.len() as int) =~= bs@);
    crate::text::string_of(&v)
}

/// The SHA-256 checksum of the bytes, in lowercase hexadecimal.
pub fn sha256_digest(data: &[u8]) -> (r: String)
    ensures
        r@ == hex_of(sha256_of(data@)),
        r@.len() == 64,
{
    let d = sha256(data);
    proof {
        lemma_hex_len(d@);
    }
    to_hex(d.as_slice())
}

/// Hexadecimal text has two digits per byte.
pub proof fn lemma_hex_len(bs: Seq<u8>)
    ensures
        hex_of(bs).len() == 2 * bs.len(),
    decreases bs.len(),
{
    if bs.len() > 0 {
        lemma_hex_len(bs.drop_last());
    }
}

} // verus!
