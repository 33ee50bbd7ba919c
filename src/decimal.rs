//! Decimal numbers written in ASCII, as they appear on the IMAP wire.
use vstd::prelude::*;

verus! {

pub open spec fn is_digit(b: u8) -> bool {
    48 <= b <= 57
}

pub open spec fn all_digits(s: Seq<u8>) -> bool {
    forall|i: int| 0 <= i < s.len() ==> is_digit(#[trigger] s[i])
}

/// The value of a string of decimal digits (most significant first).
pub open spec fn digits_value(s: Seq<u8>) -> nat
    decreases s.len(),
{
    if s.len() == 0 {
        0
    } else {
        digits_value(s.drop_last()) * 10 + (s.last() - 48) as nat
    }
}

/// The digits after an optional leading `+`, as the standard integer parsers read them.
pub open spec fn unsigned_body(s: Seq<u8>) -> Seq<u8> {
    if s.len() > 0 && s[0] == 43u8 {
        s.drop_first()
    } else {
        s
    }
}

/// An optional `+` followed by one or more digits whose value is at most `max`.
pub open spec fn decimal_value(s: Seq<u8>, max: u64) -> Option<u64> {
    let d = unsigned_body(s);
    if d.len() > 0 && all_digits(d) && digits_value(d) <= max {
        Some(digits_value(d) as u64)
    } else {
        None
    }
}

proof fn lemma_digits_value_grows(s: Seq<u8>, i: int, j: int)
    requires
        0 <= i <= j <= s.len(),
        all_digits(s),
    ensures
        digits_value(s.subrange(0, i)) <= digits_value(s.subrange(0, j)),
    decreases j - i,
{
    if i < j {
        lemma_digits_value_grows(s, i, j - 1);
        assert(s.subrange(0, j).drop_last() =~= s.subrange(0, j - 1));
    }
}

/// Reads `s` as an optional `+` and decimal digits, refusing values above `max`.
pub fn parse_decimal(s: &[u8], max: u64) -> (r: Option<u64>)
    ensures
        r == decimal_value(s@, max),
{
    let n = s.len();
    let mut i: usize = 0;
    if n > 0 && s[0] == 43u8 {
        i = 1;
    }
    let start = i;
    let ghost d = unsigned_body(s@);
    assert(d =~= s@.subrange(start as int, n as int));
    if start == n {
        return None;
    }
    let mut acc: u64 = 0;
    let mut over = false;
    while i < n
        invariant
            start <= i <= n,
            n == s@.len(),
            d == s@.subrange(start as int, n as int),
            d == unsigned_body(s@),
            all_digits(s@.subrange(start as int, i as int)),
            !over ==> acc as nat == digits_value(s@.subrange(start as int, i as int)),
            !over ==> acc <= max,
            over ==> digits_value(s@.subrange(start as int, i as int)) > max,
        decreases n - i,
    {
        let b = s[i];
        if !(48u8 <= b && b <= 57u8) {
            assert(d[i - start] == b);
            assert(!is_digit(d[i - start]));
            return None;
        }
        let ghost prev = s@.subrange(start as int, i as int);
        let ghost next = s@.subrange(start as int, i + 1);
        assert(next.drop_last() =~= prev);
        assert(all_digits(next));
        if !over {
            let v: u64 = (b - 48u8) as u64;
            if v > max || acc > (max - v) / 10 {
                over = true;
                assert(acc * 10 + v > max) by (nonlinear_arith)
                    requires v > max || acc > (max - v) / 10, v <= 9;
            } else {
                assert(acc * 10 + v <= max) by (nonlinear_arith)
                    requires acc <= (max - v) / 10, v <= 9;
                acc = acc * 10 + v;
            }
        } else {
            assert(digits_value(next) >= digits_value(prev)) by {
                assert(digits_value(next) == digits_value(prev) * 10 + (b - 48) as nat);
            }
        }
        i = i + 1;
    }
    assert(s@.subrange(start as int, n as int) =~= d);
    if over {
        None
    } else {
        Some(acc)
    }
}

} // verus!
