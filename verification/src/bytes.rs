//! Searching and comparing byte strings.

use vstd::prelude::*;

verus! {

/// `needle` occurs in `h` at position `p`.
pub open spec fn occurs_at(h: Seq<u8>, needle: Seq<u8>, p: int) -> bool {
    0 <= p && p + needle.len() <= h.len() && h.subrange(p, p + needle.len()) == needle
}

/// `p` is the first position at which `needle` occurs in `h`.
pub open spec fn is_first_occurrence(h: Seq<u8>, needle: Seq<u8>, p: int) -> bool {
    occurs_at(h, needle, p) && forall|q: int| 0 <= q < p ==> !#[trigger] occurs_at(h, needle, q)
}

/// The first position at which `needle` occurs in `h`, if it occurs at all.
pub open spec fn first_occurrence(h: Seq<u8>, needle: Seq<u8>) -> Option<int> {
    if exists|p: int| is_first_occurrence(h, needle, p) {
        Some(choose|p: int| is_first_occurrence(h, needle, p))
    } else {
        None
    }
}

pub proof fn lemma_first_occurrence_is(h: Seq<u8>, needle: Seq<u8>, p: int)
    requires
        is_first_occurrence(h, needle, p),
    ensures
        first_occurrence(h, needle) == Some(p),
{
    let c = choose|p: int| is_first_occurrence(h, needle, p);
    assert(is_first_occurrence(h, needle, c));
    if c < p {
        assert(!occurs_at(h, needle, c));
    } else if p < c {
        assert(!occurs_at(h, needle, p));
    }
}

pub proof fn lemma_first_occurrence_found(h: Seq<u8>, needle: Seq<u8>)
    ensures
        first_occurrence(h, needle) matches Some(p) ==> is_first_occurrence(h, needle, p),
{
}

pub proof fn lemma_first_occurrence_none(h: Seq<u8>, needle: Seq<u8>)
    requires
        forall|q: int| !#[trigger] occurs_at(h, needle, q),
    ensures
        first_occurrence(h, needle) is None,
{
}

fn occurs_at_exec(h: &[u8], needle: &[u8], p: usize) -> (b: bool)
    requires
        p + needle@.len() <= h@.len(),
    ensures
        b == occurs_at(h@, needle@, p as int),
{
    let n = needle.len();
    let hl = h.len();
    let mut j: usize = 0;
    while j < n
        invariant
            n == needle@.len(),
            hl == h@.len(),
            p + n <= h@.len(),
            j <= n,
            forall|k: int| 0 <= k < j ==> h@[p + k] == needle@[k],
        decreases n - j,
    {
        if h[p + j] != needle[j] {
            assert(h@.subrange(p as int, p + n)[j as int] != needle@[j as int]);
            return false;
        }
        j = j + 1;
    }
    assert(h@.subrange(p as int, p + n) =~= needle@);
    true
}

/// The first position at which `needle` occurs in `haystack` (the start of the first
/// window of `haystack` equal to `needle`).
pub fn find_subsequence(haystack: &[u8], needle: &[u8]) -> (r: Option<usize>)
    requires
        needle@.len() > 0,
    ensures
        match r {
            Some(p) => first_occurrence(haystack@, needle@) == Some(p as int),
            None => first_occurrence(haystack@, needle@) is None,
        },
{
    let n = needle.len();
    let len = haystack.len();
    if n > len {
        proof {
            lemma_first_occurrence_none(haystack@, needle@);
        }
        return None;
    }
    let mut p: usize = 0;
    while p <= len - n
        invariant
            n == needle@.len(),
            len == haystack@.len(),
            0 < n <= len,
            p <= len - n + 1,
            forall|q: int| 0 <= q < p ==> !#[trigger] occurs_at(haystack@, needle@, q),
        decreases len - n + 1 - p,
    {
        if occurs_at_exec(haystack, needle, p) {
            proof {
                lemma_first_occurrence_is(haystack@, needle@, p as int);
            }
            return Some(p);
        }
        p = p + 1;
    }
    proof {
        lemma_first_occurrence_none(haystack@, needle@);
    }
    None
}

/// The first position of the byte `b` in `bytes`.
pub fn position_of(bytes: &[u8], b: u8) -> (r: Option<usize>)
    ensures
        match r {
            Some(p) => first_occurrence(bytes@, seq![b]) == Some(p as int),
            None => first_occurrence(bytes@, seq![b]) is None,
        },
{
    let len = bytes.len();
    let mut p: usize = 0;
    while p < len
        invariant
            len == bytes@.len(),
            p <= len,
            forall|q: int| 0 <= q < p ==> !#[trigger] occurs_at(bytes@, seq![b], q),
        decreases len - p,
    {
        proof {
            assert(bytes@.subrange(p as int, p + 1) =~= seq![bytes@[p as int]]);
        }
        if bytes[p] == b {
            proof {
                lemma_first_occurrence_is(bytes@, seq![b], p as int);
            }
            return Some(p);
        }
        assert(!occurs_at(bytes@, seq![b], p as int)) by {
            if occurs_at(bytes@, seq![b], p as int) {
                assert(bytes@.subrange(p as int, p + 1)[0] == seq![b][0]);
            }
        }
        p = p + 1;
    }
    proof {
        assert forall|q: int| !#[trigger] occurs_at(bytes@, seq![b], q) by {
            if 0 <= q < len {
                assert(bytes@.subrange(q, q + 1) =~= seq![bytes@[q]]);
            }
        }
        lemma_first_occurrence_none(bytes@, seq![b]);
    }
    None
}

/// Byte-wise equality of two byte strings.
pub fn bytes_eq(a: &[u8], b: &[u8]) -> (r: bool)
    ensures
        r == (a@ == b@),
{
    if a.len() != b.len() {
        return false;
    }
    let n = a.len();
    let mut i: usize = 0;
    while i < n
        invariant
            n == a@.len(),
            n == b@.len(),
            i <= n,
            forall|k: int| 0 <= k < i ==> a@[k] == b@[k],
        decreases n - i,
    {
        if a[i] != b[i] {
            return false;
        }
        i = i + 1;
    }
    assert(a@ =~= b@);
    true
}


/// Appends the bytes of `s` to `v`.
pub fn extend_bytes(v: &mut Vec<u8>, s: &[u8])
    ensures
        final(v)@ == old(v)@ + s@,
{
    v.extend_from_slice(s);
    assert(v@ =~= old(v)@ + s@);
}


/// `dst` with the bytes from `off` on overwritten by `src`.
pub open spec fn splice(dst: Seq<u8>, off: int, src: Seq<u8>) -> Seq<u8> {
    dst.take(off) + src + dst.skip(off + src.len())
}

/// Overwrites `dst[off..off + src.len()]` with `src` (a `copy_from_slice` into a
/// sub-slice).
pub fn copy_into(dst: &mut Vec<u8>, off: usize, src: &[u8])
    requires
        off + src@.len() <= old(dst)@.len(),
    ensures
        final(dst)@ == splice(old(dst)@, off as int, src@),
        final(dst)@.len() == old(dst)@.len(),
{
    let n = src.len();
    let dl = dst.len();
    let mut i: usize = 0;
    while i < n
        invariant
            n == src@.len(),
            dl == dst@.len(),
            off + n <= dst@.len(),
            i <= n,
            dst@ == splice(old(dst)@, off as int, src@.take(i as int)),
            dst@.len() == old(dst)@.len(),
        decreases n - i,
    {
        dst.set(off + i, src[i]);
        assert(dst@ =~= splice(old(dst)@, off as int, src@.take(i + 1)));
        i = i + 1;
    }
    assert(src@.take(n as int) =~= src@);
}

/// The little-endian `u64` at `off..off + 8` of `s`.
pub open spec fn u64_le_at(s: Seq<u8>, off: int) -> u64 {
    vstd::bytes::spec_u64_from_le_bytes(s.subrange(off, off + 8))
}

/// Reads the little-endian `u64` at `off..off + 8` of `s`.
pub fn read_u64_le(s: &[u8], off: usize) -> (r: u64)
    requires
        off + 8 <= s@.len(),
    ensures
        r == u64_le_at(s@, off as int),
{
    let _len = s.len();
    let b = vstd::slice::slice_subrange(s, off, off + 8);
    vstd::bytes::u64_from_le_bytes(b)
}


/// Reads the 32 bytes at `off..off + 32` of `s`.
pub fn read_array32(s: &[u8], off: usize) -> (r: [u8; 32])
    requires
        off + 32 <= s@.len(),
    ensures
        r@ == s@.subrange(off as int, off + 32),
{
    let len = s.len();
    let mut r = [0u8; 32];
    let mut i: usize = 0;
    while i < 32
        invariant
            len == s@.len(),
            off + 32 <= s@.len(),
            i <= 32,
            r@.len() == 32,
            forall|k: int| 0 <= k < i ==> r@[k] == s@[off + k],
        decreases 32 - i,
    {
        r[i] = s[off + i];
        i = i + 1;
    }
    assert(r@ =~= s@.subrange(off as int, off + 32));
    r
}

} // verus!
