//! Byte-level scanning of protocol text: whitespace trimming and substring search.
use vstd::prelude::*;

verus! {

/// ASCII whitespace: space, tab, line feed, vertical tab, form feed, carriage return.
pub open spec fn is_space(b: u8) -> bool {
    b == 32u8 || (9u8 <= b && b <= 13u8)
}

pub open spec fn trim_start(s: Seq<u8>) -> Seq<u8>
    decreases s.len(),
{
    if s.len() > 0 && is_space(s[0]) {
        trim_start(s.drop_first())
    } else {
        s
    }
}

pub open spec fn trim_end(s: Seq<u8>) -> Seq<u8>
    decreases s.len(),
{
    if s.len() > 0 && is_space(s.last()) {
        trim_end(s.drop_last())
    } else {
        s
    }
}

/// `s` without the whitespace at either end.
pub open spec fn trim(s: Seq<u8>) -> Seq<u8> {
    trim_end(trim_start(s))
}

/// `p` stands in `h` at position `i`.
pub open spec fn occurs_at(h: Seq<u8>, p: Seq<u8>, i: int) -> bool {
    0 <= i && i + p.len() <= h.len() && h.subrange(i, i + p.len()) == p
}

pub open spec fn is_first_occurrence(h: Seq<u8>, p: Seq<u8>, i: int) -> bool {
    occurs_at(h, p, i) && forall|j: int| 0 <= j < i ==> !occurs_at(h, p, j)
}

/// The position of the leftmost occurrence of `p` in `h`.
pub open spec fn find(h: Seq<u8>, p: Seq<u8>) -> Option<int> {
    if exists|i: int| occurs_at(h, p, i) {
        Some(choose|i: int| is_first_occurrence(h, p, i))
    } else {
        None
    }
}

pub open spec fn starts_with(h: Seq<u8>, p: Seq<u8>) -> bool {
    occurs_at(h, p, 0)
}

pub open spec fn ends_with(h: Seq<u8>, p: Seq<u8>) -> bool {
    p.len() <= h.len() && h.subrange(h.len() - p.len(), h.len() as int) == p
}

pub fn is_space_byte(b: u8) -> (r: bool)
    ensures
        r == is_space(b),
{
    b == 32u8 || (9u8 <= b && b <= 13u8)
}

/// Bounds `(lo, hi)` of `s` with its leading and trailing whitespace left out.
pub fn trim_bounds(s: &[u8]) -> (r: (usize, usize))
    ensures
        r.0 <= r.1 <= s@.len(),
        s@.subrange(r.0 as int, r.1 as int) == trim(s@),
{
    let n = s.len();
    let mut lo: usize = 0;
    assert(s@.subrange(0, n as int) =~= s@);
    while lo < n && is_space_byte(s[lo])
        invariant
            lo <= n == s@.len(),
            trim_start(s@) == trim_start(s@.subrange(lo as int, n as int)),
        decreases n - lo,
    {
        assert(s@.subrange(lo as int, n as int).drop_first() =~= s@.subrange(lo + 1, n as int));
        lo = lo + 1;
    }
    assert(trim_start(s@.subrange(lo as int, n as int)) == s@.subrange(lo as int, n as int));
    let mut hi: usize = n;
    while hi > lo && is_space_byte(s[hi - 1])
        invariant
            lo <= hi <= n == s@.len(),
            trim(s@) == trim_end(s@.subrange(lo as int, hi as int)),
        decreases hi,
    {
        assert(s@.subrange(lo as int, hi as int).drop_last() =~= s@.subrange(lo as int, hi - 1));
        hi = hi - 1;
    }
    (lo, hi)
}

/// Whether `p` stands in `h` at position `i`.
pub fn matches_at(h: &[u8], p: &[u8], i: usize) -> (r: bool)
    ensures
        r == occurs_at(h@, p@, i as int),
{
    if i > h.len() || p.len() > h.len() - i {
        return false;
    }
    let hn = h.len();
    let mut k: usize = 0;
    while k < p.len()
        invariant
            hn == h@.len(),
            i + p@.len() <= h@.len(),
            i <= h@.len(),
            k <= p@.len(),
            forall|j: int| 0 <= j < k ==> h@[i + j] == p@[j],
        decreases p@.len() - k,
    {
        if h[i + k] != p[k] {
            assert(h@.subrange(i as int, i + p@.len())[k as int] != p@[k as int]);
            return false;
        }
        k = k + 1;
    }
    assert(h@.subrange(i as int, i + p@.len()) =~= p@);
    true
}

/// The position of the leftmost occurrence of `p` in `h`, searching from `from` on.
pub fn find_from(h: &[u8], p: &[u8], from: usize) -> (r: Option<usize>)
    requires
        forall|j: int| 0 <= j < from ==> !occurs_at(h@, p@, j),
    ensures
        match r {
            Some(i) => find(h@, p@) == Some(i as int) && is_first_occurrence(h@, p@, i as int),
            None => find(h@, p@) is None && forall|j: int| !occurs_at(h@, p@, j),
        },
{
    if from > h.len() {
        assert(forall|j: int| #![trigger occurs_at(h@, p@, j)] 0 <= j ==> !occurs_at(h@, p@, j));
        assert(!exists|i: int| occurs_at(h@, p@, i));
        return None;
    }
    let mut i: usize = from;
    loop
        invariant
            i <= h@.len(),
            forall|j: int| 0 <= j < i ==> !occurs_at(h@, p@, j),
        ensures
            forall|j: int| 0 <= j <= h@.len() ==> !occurs_at(h@, p@, j),
        decreases h@.len() - i,
    {
        if matches_at(h, p, i) {
            proof {
                assert(is_first_occurrence(h@, p@, i as int));
                let k = choose|k: int| is_first_occurrence(h@, p@, k);
                assert(k == i);
            }
            return Some(i);
        }
        if i == h.len() {
            break;
        }
        i = i + 1;
    }
    assert(!exists|i: int| occurs_at(h@, p@, i));
    None
}

/// The position of the leftmost occurrence of `p` in `h`.
pub fn find_bytes(h: &[u8], p: &[u8]) -> (r: Option<usize>)
    ensures
        match r {
            Some(i) => find(h@, p@) == Some(i as int) && is_first_occurrence(h@, p@, i as int),
            None => find(h@, p@) is None && forall|j: int| !occurs_at(h@, p@, j),
        },
{
    find_from(h, p, 0)
}

pub fn has_prefix(h: &[u8], p: &[u8]) -> (r: bool)
    ensures
        r == starts_with(h@, p@),
{
    matches_at(h, p, 0)
}

pub fn has_suffix(h: &[u8], p: &[u8]) -> (r: bool)
    ensures
        r == ends_with(h@, p@),
{
    if p.len() > h.len() {
        return false;
    }
    matches_at(h, p, h.len() - p.len())
}

/// The first position in `[lo, hi)` holding `c`, or `hi`.
pub open spec fn next_index(b: Seq<u8>, lo: int, hi: int, c: u8) -> int
    decreases hi - lo,
{
    if lo >= hi {
        hi
    } else if b[lo] == c {
        lo
    } else {
        next_index(b, lo + 1, hi, c)
    }
}

} // verus!
