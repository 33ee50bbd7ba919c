//! Scanning of single IMAP response lines by direct substring search, as the raw
//! fallback engine reads them: no general grammar, so that servers which bend the
//! protocol are still understood.
use vstd::prelude::*;
use vstd::string::StringSliceAdditionalSpecFns;
use vstd::utf8::{encode_utf8, encode_utf8_valid_utf8};
use crate::decimal::{decimal_value, is_digit, parse_decimal};
use crate::date::{imap_date, parse_date_bytes};
use crate::scan::{
    ends_with, find, find_bytes, has_prefix, has_suffix, is_space_byte, starts_with, trim,
    trim_bounds, trim_end,
};
use crate::utf8cut::{lemma_boundary_after_ascii, lemma_boundary_at_ascii, text_between};

verus! {

/// A decimal `u32`, as `str::parse::<u32>` reads it.
pub open spec fn decimal_u32(s: Seq<u8>) -> Option<u32> {
    match decimal_value(s, 0xffff_ffff) {
        Some(v) => Some(v as u32),
        None => None,
    }
}

/// `* ` (asterisk, space): the start of an untagged response.
pub open spec fn untagged_mark() -> Seq<u8> {
    seq![42u8, 32u8]
}

/// The number of `* <n> <keyword>`, whitespace around the line and the number aside.
pub open spec fn untagged_number(line: Seq<u8>, kw: Seq<u8>) -> Option<u32> {
    let t = trim(line);
    if t.len() >= 2 + kw.len() && starts_with(t, untagged_mark()) && ends_with(t, kw) {
        decimal_u32(trim(t.subrange(2, t.len() - kw.len())))
    } else {
        None
    }
}

/// `[<keyword> `: the start of a response code with an argument.
pub open spec fn bracket_key(kw: Seq<u8>) -> Seq<u8> {
    seq![91u8] + kw + seq![32u8]
}

/// The number in the first `[<keyword> <n>]` of the line.
pub open spec fn bracket_number(line: Seq<u8>, kw: Seq<u8>) -> Option<u32> {
    let pat = bracket_key(kw);
    match find(line, pat) {
        Some(i) => {
            let after = line.subrange(i + pat.len(), line.len() as int);
            match find(after, seq![93u8]) {
                Some(e) => decimal_u32(trim(after.subrange(0, e))),
                None => None,
            }
        },
        None => None,
    }
}

/// `UID `
pub open spec fn uid_key() -> Seq<u8> {
    seq![85u8, 73u8, 68u8, 32u8]
}

/// How many digits `s` starts with.
pub open spec fn leading_digits(s: Seq<u8>) -> int
    decreases s.len(),
{
    if s.len() > 0 && is_digit(s[0]) {
        1 + leading_digits(s.drop_first())
    } else {
        0
    }
}

/// The digits right after the first `UID ` of the line, read as a `u32`.
pub open spec fn fetch_uid(line: Seq<u8>) -> Option<u32> {
    match find(line, uid_key()) {
        Some(i) => {
            let after = line.subrange(i + 4, line.len() as int);
            decimal_u32(after.subrange(0, leading_digits(after)))
        },
        None => None,
    }
}

/// `FLAGS (`
pub open spec fn flags_key() -> Seq<u8> {
    seq![70u8, 76u8, 65u8, 71u8, 83u8, 32u8, 40u8]
}

/// Where the flag list of the line starts and ends, if it has one that is closed.
pub open spec fn flags_span(line: Seq<u8>) -> Option<(int, int)> {
    match find(line, flags_key()) {
        Some(i) => {
            let after = line.subrange(i + 7, line.len() as int);
            match find(after, seq![41u8]) {
                Some(e) => Some((i + 7, i + 7 + e)),
                None => None,
            }
        },
        None => None,
    }
}

/// The bytes between the first `FLAGS (` and the next `)`; empty when there are none.
pub open spec fn fetch_flags(line: Seq<u8>) -> Seq<u8> {
    match flags_span(line) {
        Some((a, b)) => line.subrange(a, b),
        None => Seq::empty(),
    }
}

/// `INTERNALDATE "`
pub open spec fn internal_date_key() -> Seq<u8> {
    seq![73u8, 78u8, 84u8, 69u8, 82u8, 78u8, 65u8, 76u8, 68u8, 65u8, 84u8, 69u8, 32u8, 34u8]
}

/// The timestamp of the quoted date after the first `INTERNALDATE "` of the line.
pub open spec fn internal_date(line: Seq<u8>) -> Option<int> {
    match find(line, internal_date_key()) {
        Some(i) => {
            let after = line.subrange(i + 14, line.len() as int);
            match find(after, seq![34u8]) {
                Some(e) => imap_date(after.subrange(0, e)),
                None => None,
            }
        },
        None => None,
    }
}

/// The position of the last byte `c` of `s`.
pub open spec fn last_index(s: Seq<u8>, c: u8) -> Option<int>
    decreases s.len(),
{
    if s.len() == 0 {
        None
    } else if s.last() == c {
        Some(s.len() - 1)
    } else {
        last_index(s.drop_last(), c)
    }
}

/// The size `n` of a line that ends in `{n}` (trailing whitespace aside).
pub open spec fn literal_size(line: Seq<u8>, max: u64) -> Option<u64> {
    let t = trim_end(line);
    if t.len() > 0 && t.last() == 125u8 {
        match last_index(t, 123u8) {
            Some(b) => decimal_value(t.subrange(b + 1, t.len() - 1), max),
            None => None,
        }
    } else {
        None
    }
}

fn decimal_u32_of(s: &[u8]) -> (r: Option<u32>)
    ensures
        r == decimal_u32(s@),
{
    match parse_decimal(s, 0xffff_ffff) {
        Some(v) => Some(v as u32),
        None => None,
    }
}

/// Reads an untagged numeric response such as `* 3 EXISTS` for the given keyword.
pub fn parse_untagged_number(line: &str, keyword: &str) -> (r: Option<u32>)
    ensures
        r == untagged_number(line.spec_bytes(), keyword.spec_bytes()),
{
    untagged_number_in(line.as_bytes(), keyword.as_bytes())
}

pub fn untagged_number_in(b: &[u8], kw: &[u8]) -> (r: Option<u32>)
    ensures
        r == untagged_number(b@, kw@),
{
    let (lo, hi) = trim_bounds(b);
    let t = &b[lo..hi];
    let n = t.len();
    let star: [u8; 2] = [42u8, 32u8];
    assert(star@ == untagged_mark());
    if n < 2 || n - 2 < kw.len() || !has_prefix(t, star.as_slice()) || !has_suffix(t, kw) {
        return None;
    }
    let mid = &t[2..n - kw.len()];
    let (a, z) = trim_bounds(mid);
    decimal_u32_of(&mid[a..z])
}

/// Reads the number of a response code such as `[UIDVALIDITY 12345]`.
pub fn extract_bracket_number(line: &str, keyword: &str) -> (r: Option<u32>)
    ensures
        r == bracket_number(line.spec_bytes(), keyword.spec_bytes()),
{
    bracket_number_in(line.as_bytes(), keyword.as_bytes())
}

pub fn bracket_number_in(b: &[u8], kw: &[u8]) -> (r: Option<u32>)
    ensures
        r == bracket_number(b@, kw@),
{
    let bn = b.len();
    let mut pat: Vec<u8> = Vec::new();
    pat.push(91u8);
    let mut k: usize = 0;
    while k < kw.len()
        invariant
            k <= kw@.len(),
            pat@ == seq![91u8] + kw@.subrange(0, k as int),
        decreases kw@.len() - k,
    {
        pat.push(kw[k]);
        k = k + 1;
        assert(pat@ =~= seq![91u8] + kw@.subrange(0, k as int));
    }
    pat.push(32u8);
    assert(pat@ =~= bracket_key(kw@));
    match find_bytes(b, pat.as_slice()) {
        Some(i) => {
            let after = &b[i + pat.len()..bn];
            assert(after@ =~= b@.subrange(i + pat@.len(), b@.len() as int));
            let close: [u8; 1] = [93u8];
            assert(close@ == seq![93u8]);
            match find_bytes(after, close.as_slice()) {
                Some(e) => {
                    let inner = &after[0..e];
                    let (x, y) = trim_bounds(inner);
                    decimal_u32_of(&inner[x..y])
                },
                None => None,
            }
        },
        None => None,
    }
}

fn leading_digit_count(s: &[u8]) -> (r: usize)
    ensures
        r == leading_digits(s@),
        r <= s@.len(),
{
    let n = s.len();
    let mut i: usize = 0;
    assert(s@.subrange(0, n as int) =~= s@);
    while i < n && 48u8 <= s[i] && s[i] <= 57u8
        invariant
            i <= n == s@.len(),
            leading_digits(s@) == i + leading_digits(s@.subrange(i as int, n as int)),
        decreases n - i,
    {
        assert(s@.subrange(i as int, n as int).drop_first() =~= s@.subrange(i + 1, n as int));
        i = i + 1;
    }
    i
}

/// Reads the UID of a FETCH response line: the digits right after its first `UID `.
pub fn extract_fetch_uid(line: &str) -> (r: Option<u32>)
    ensures
        r == fetch_uid(line.spec_bytes()),
{
    let b = line.as_bytes();
    let bn = b.len();
    let key: [u8; 4] = [85u8, 73u8, 68u8, 32u8];
    assert(key@ == uid_key());
    match find_bytes(b, key.as_slice()) {
        Some(i) => {
            let after = &b[i + 4..bn];
            assert(after@ =~= b@.subrange(i + 4, b@.len() as int));
            proof {
                assert(after@.subrange(0, after@.len() as int) =~= after@);
            }
            let e = leading_digit_count(after);
            decimal_u32_of(&after[0..e])
        },
        None => None,
    }
}

fn flags_bounds(b: &[u8]) -> (r: Option<(usize, usize)>)
    ensures
        match r {
            Some((x, y)) => {
                &&& flags_span(b@) == Some((x as int, y as int))
                &&& 7 <= x <= y < b@.len()
                &&& b@[x - 1] == 40u8
                &&& b@[y as int] == 41u8
            },
            None => flags_span(b@) is None,
        },
{
    let bn = b.len();
    let key: [u8; 7] = [70u8, 76u8, 65u8, 71u8, 83u8, 32u8, 40u8];
    assert(key@ == flags_key());
    match find_bytes(b, key.as_slice()) {
        Some(i) => {
            let after = &b[i + 7..bn];
            assert(after@ =~= b@.subrange(i + 7, b@.len() as int));
            let close: [u8; 1] = [41u8];
            assert(close@ == seq![41u8]);
            match find_bytes(after, close.as_slice()) {
                Some(e) => {
                    assert(b@.subrange(i as int, i + 7)[6] == 40u8);
                    assert(after@.subrange(e as int, e + 1)[0] == 41u8);
                    Some((i + 7, i + 7 + e))
                },
                None => None,
            }
        },
        None => None,
    }
}

/// The text between `FLAGS (` and the next `)` of a FETCH response line, or the
/// empty string.
pub fn extract_flags_from_fetch(line: &str) -> (r: String)
    ensures
        encode_utf8(r@) == fetch_flags(line.spec_bytes()),
{
    let b = line.as_bytes();
    let bn = b.len();
    match flags_bounds(b) {
        Some((x, y)) => {
            proof {
                encode_utf8_valid_utf8(line@);
                let s = line.spec_bytes();
                lemma_boundary_after_ascii(s, x as int);
                lemma_boundary_at_ascii(s, y as int);
            }
            text_between(line, x, y)
        },
        None => {
            let r = String::new();
            proof {
                assert(encode_utf8(r@) =~= Seq::<u8>::empty()) by {
                    assert(r@ == Seq::<char>::empty());
                    reveal_with_fuel(encode_utf8, 1);
                }
            }
            r
        },
    }
}

/// Reads the `INTERNALDATE "..."` of a FETCH response line as a Unix timestamp.
pub fn extract_internal_date(line: &str) -> (r: Option<i64>)
    ensures
        r is Some <==> internal_date(line.spec_bytes()) is Some,
        r is Some ==> r.unwrap() as int == internal_date(line.spec_bytes()).unwrap(),
{
    let b = line.as_bytes();
    let bn = b.len();
    let key: [u8; 14] = [73u8, 78u8, 84u8, 69u8, 82u8, 78u8, 65u8, 76u8, 68u8, 65u8, 84u8, 69u8, 32u8, 34u8];
    assert(key@ == internal_date_key());
    match find_bytes(b, key.as_slice()) {
        Some(i) => {
            let after = &b[i + 14..bn];
            assert(after@ =~= b@.subrange(i + 14, b@.len() as int));
            let quote: [u8; 1] = [34u8];
            assert(quote@ == seq![34u8]);
            match find_bytes(after, quote.as_slice()) {
                Some(e) => parse_date_bytes(&after[0..e]),
                None => None,
            }
        },
        None => None,
    }
}

fn last_index_of(s: &[u8], c: u8) -> (r: Option<usize>)
    ensures
        match r {
            Some(i) => last_index(s@, c) == Some(i as int) && i < s@.len() && s@[i as int] == c,
            None => last_index(s@, c) is None,
        },
{
    let mut k: usize = s.len();
    assert(s@.subrange(0, k as int) =~= s@);
    while k > 0
        invariant
            k <= s@.len(),
            last_index(s@, c) == last_index(s@.subrange(0, k as int), c),
        decreases k,
    {
        if s[k - 1] == c {
            return Some(k - 1);
        }
        assert(s@.subrange(0, k as int).drop_last() =~= s@.subrange(0, k - 1));
        k = k - 1;
    }
    None
}

fn trim_end_len(s: &[u8]) -> (r: usize)
    ensures
        r <= s@.len(),
        s@.subrange(0, r as int) == trim_end(s@),
{
    let mut k: usize = s.len();
    assert(s@.subrange(0, k as int) =~= s@);
    while k > 0 && is_space_byte(s[k - 1])
        invariant
            k <= s@.len(),
            trim_end(s@) == trim_end(s@.subrange(0, k as int)),
        decreases k,
    {
        assert(s@.subrange(0, k as int).drop_last() =~= s@.subrange(0, k - 1));
        k = k - 1;
    }
    k
}

/// Reads the size of a literal announced at the end of a line (`... {1234}`).
pub fn extract_literal_size(line: &str) -> (r: Option<usize>)
    ensures
        match r {
            Some(n) => literal_size(line.spec_bytes(), usize::MAX as u64) == Some(n as u64),
            None => literal_size(line.spec_bytes(), usize::MAX as u64) is None,
        },
{
    let b = line.as_bytes();
    let bn = b.len();
    let n = trim_end_len(b);
    let t = &b[0..n];
    if n == 0 || t[n - 1] != 125u8 {
        return None;
    }
    match last_index_of(t, 123u8) {
        Some(open) => {
            match parse_decimal(&t[open + 1..n - 1], usize::MAX as u64) {
                Some(v) => Some(v as usize),
                None => None,
            }
        },
        None => None,
    }
}

} // verus!
