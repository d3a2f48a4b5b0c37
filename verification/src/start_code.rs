//! Locating Annex-B start codes (`00 00 01`, widened to `00 00 00 01` when a
//! zero byte immediately precedes a three-byte match) in byte sequences.

use vstd::prelude::*;

verus! {

/// The three-byte pattern `00 00 01` begins at index `i` of `s`.
pub open spec fn is_code3_at(s: Seq<u8>, i: int) -> bool {
    &&& 0 <= i
    &&& i + 3 <= s.len()
    &&& s[i] == 0u8
    &&& s[i + 1] == 0u8
    &&& s[i + 2] == 1u8
}

/// Index of the first three-byte start code within `s[lo..hi]`, if any.
pub open spec fn find_code3(s: Seq<u8>, lo: int, hi: int) -> Option<int>
    decreases hi - lo,
{
    if !(0 <= lo && lo + 3 <= hi && hi <= s.len()) {
        None
    } else if is_code3_at(s, lo) {
        Some(lo)
    } else {
        find_code3(s, lo + 1, hi)
    }
}

/// A three-byte match at `i` is widened one byte to the left when the byte
/// before it is zero, but never past the start `lo` of the scanned range.
pub open spec fn widen_code(s: Seq<u8>, lo: int, i: int) -> int {
    if i > lo && s[i - 1] == 0u8 {
        i - 1
    } else {
        i
    }
}

/// Offset of the first start code in `s[lo..hi]`, after widening.
pub open spec fn find_start_code(s: Seq<u8>, lo: int, hi: int) -> Option<int> {
    match find_code3(s, lo, hi) {
        Some(i) => Some(widen_code(s, lo, i)),
        None => None,
    }
}

/// What a `Some` answer of `find_code3` means: a first match at `i`.
pub proof fn lemma_find_code3_some(s: Seq<u8>, lo: int, hi: int, i: int)
    requires
        find_code3(s, lo, hi) == Some(i),
    ensures
        lo <= i,
        i + 3 <= hi,
        hi <= s.len(),
        is_code3_at(s, i),
        forall|j: int| lo <= j < i ==> !is_code3_at(s, j),
    decreases hi - lo,
{
    if 0 <= lo && lo + 3 <= hi && hi <= s.len() && !is_code3_at(s, lo) {
        lemma_find_code3_some(s, lo + 1, hi, i);
    }
}

/// What a `None` answer of `find_code3` means: no match in the range.
pub proof fn lemma_find_code3_none(s: Seq<u8>, lo: int, hi: int)
    requires
        find_code3(s, lo, hi) == None::<int>,
        0 <= lo,
        hi <= s.len(),
    ensures
        forall|j: int| lo <= j && j + 3 <= hi ==> !is_code3_at(s, j),
    decreases hi - lo,
{
    if lo + 3 <= hi {
        lemma_find_code3_none(s, lo + 1, hi);
    }
}

/// The converse direction: a match at `i` with none earlier pins the answer.
pub proof fn lemma_find_code3_first(s: Seq<u8>, lo: int, hi: int, i: int)
    requires
        0 <= lo <= i,
        i + 3 <= hi <= s.len(),
        is_code3_at(s, i),
        forall|j: int| lo <= j < i ==> !is_code3_at(s, j),
    ensures
        find_code3(s, lo, hi) == Some(i),
    decreases i - lo,
{
    if lo < i {
        lemma_find_code3_first(s, lo + 1, hi, i);
    }
}

/// `find_code3` only looks at `s[lo..hi]`, so sequences that agree there
/// agree on the answer.
pub proof fn lemma_find_code3_agree(s1: Seq<u8>, s2: Seq<u8>, lo: int, hi: int)
    requires
        hi <= s1.len(),
        hi <= s2.len(),
        forall|j: int| 0 <= j < hi ==> s1[j] == s2[j],
    ensures
        find_code3(s1, lo, hi) == find_code3(s2, lo, hi),
    decreases hi - lo,
{
    if 0 <= lo && lo + 3 <= hi {
        lemma_find_code3_agree(s1, s2, lo + 1, hi);
    }
}

/// Growing the scanned range keeps an already found first match.
pub proof fn lemma_find_code3_extend(s: Seq<u8>, lo: int, h1: int, h2: int, i: int)
    requires
        find_code3(s, lo, h1) == Some(i),
        h1 <= h2 <= s.len(),
    ensures
        find_code3(s, lo, h2) == Some(i),
{
    lemma_find_code3_some(s, lo, h1, i);
    lemma_find_code3_first(s, lo, h2, i);
}

/// If a scan over a shorter range finds nothing, a match in the longer
/// range can only end beyond the shorter range.
pub proof fn lemma_find_code3_none_then_late(s: Seq<u8>, lo: int, h1: int, h2: int, i: int)
    requires
        find_code3(s, lo, h1) == None::<int>,
        find_code3(s, lo, h2) == Some(i),
        0 <= lo,
        h1 <= h2 <= s.len(),
    ensures
        i + 3 > h1,
{
    lemma_find_code3_none(s, lo, h1);
    lemma_find_code3_some(s, lo, h2, i);
}

/// Locate the first Annex-B start code in `buffer`.
///
/// Returns the offset of the first `00 00 01`, widened one byte to the left
/// (to the four-byte form `00 00 00 01`) when the preceding byte is zero.
pub fn find_next_start_code(buffer: &[u8]) -> (r: Option<usize>)
    ensures
        match r {
            Some(k) => find_start_code(buffer@, 0, buffer@.len() as int) == Some(k as int),
            None => find_start_code(buffer@, 0, buffer@.len() as int) == None::<int>,
        },
{
    let len = buffer.len();
    if len < 3 {
        return None;
    }
    let mut i: usize = 0;
    while i <= len - 3
        invariant
            len == buffer@.len(),
            len >= 3,
            i <= len,
            forall|j: int| 0 <= j < i ==> !is_code3_at(buffer@, j),
        decreases len - i,
    {
        if buffer[i] == 0 && buffer[i + 1] == 0 && buffer[i + 2] == 1 {
            proof {
                lemma_find_code3_first(buffer@, 0, len as int, i as int);
            }
            if i > 0 && buffer[i - 1] == 0 {
                return Some(i - 1);
            } else {
                return Some(i);
            }
        }
        i = i + 1;
    }
    proof {
        match find_code3(buffer@, 0, len as int) {
            Some(w) => lemma_find_code3_some(buffer@, 0, len as int, w),
            None => (),
        }
    }
    None
}

} // verus!
