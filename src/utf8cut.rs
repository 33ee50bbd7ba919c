//! Cutting UTF-8 text next to ASCII bytes.
use vstd::prelude::*;
use vstd::utf8::*;
use vstd::string::StringSliceAdditionalSpecFns;

verus! {

broadcast use vstd::utf8::group_utf8_lib;

/// In valid UTF-8 a continuation byte never follows an ASCII byte.
proof fn lemma_continuation_follows_high_byte(b: Seq<u8>, i: int)
    requires
        valid_utf8(b),
        0 < i < b.len(),
        is_continuation_byte(b[i]),
    ensures
        b[i - 1] >= 128,
    decreases b.len(),
{
    let l = length_of_first_scalar(b);
    let rest = pop_first_scalar(b);
    assert(valid_first_scalar(b));
    assert(valid_utf8(rest));
    if i >= l {
        assert(rest =~= b.subrange(l, b.len() as int));
        if i == l {
            assert(rest[0] == b[i]);
            assert(valid_first_scalar(rest));
        } else {
            lemma_continuation_follows_high_byte(rest, i - l);
            assert(rest[i - l - 1] == b[i - 1]);
        }
    }
}

/// Right after an ASCII byte of valid UTF-8 a character begins.
pub proof fn lemma_boundary_after_ascii(b: Seq<u8>, i: int)
    requires
        valid_utf8(b),
        0 < i <= b.len(),
        b[i - 1] < 128,
    ensures
        is_char_boundary(b, i),
{
    if i < b.len() {
        if is_continuation_byte(b[i]) {
            lemma_continuation_follows_high_byte(b, i);
        }
        is_char_boundary_iff_not_is_continuation_byte(b, i);
    } else {
        is_char_boundary_start_end_of_seq(b);
    }
}

/// The end of valid UTF-8 is a character boundary.
pub proof fn lemma_boundary_at_end(b: Seq<u8>)
    requires
        valid_utf8(b),
    ensures
        is_char_boundary(b, b.len() as int),
{
    is_char_boundary_start_end_of_seq(b);
}

/// At an ASCII byte of valid UTF-8 a character begins.
pub proof fn lemma_boundary_at_ascii(b: Seq<u8>, i: int)
    requires
        valid_utf8(b),
        0 <= i < b.len(),
        b[i] < 128,
    ensures
        is_char_boundary(b, i),
{
    is_char_boundary_iff_not_is_continuation_byte(b, i);
}

/// The text of `s` between byte positions `lo` and `hi`, which are character boundaries.
pub fn text_between(s: &str, lo: usize, hi: usize) -> (r: String)
    requires
        lo <= hi <= s.spec_bytes().len(),
        is_char_boundary(s.spec_bytes(), lo as int),
        is_char_boundary(s.spec_bytes(), hi as int),
    ensures
        encode_utf8(r@) == s.spec_bytes().subrange(lo as int, hi as int),
{
    proof {
        encode_utf8_valid_utf8(s@);
    }
    let (head, _) = s.split_at(hi);
    proof {
        valid_utf8_split(s.spec_bytes(), hi as int);
        assert(head.spec_bytes() =~= s.spec_bytes().subrange(0, hi as int));
        assert(is_char_boundary(head.spec_bytes(), lo as int)) by {
            if lo < hi {
                is_char_boundary_iff_not_is_continuation_byte(s.spec_bytes(), lo as int);
                encode_utf8_valid_utf8(head@);
                is_char_boundary_iff_not_is_continuation_byte(head.spec_bytes(), lo as int);
            } else {
                encode_utf8_valid_utf8(head@);
                is_char_boundary_start_end_of_seq(head.spec_bytes());
            }
        }
        encode_utf8_valid_utf8(head@);
    }
    let (_, mid) = head.split_at(lo);
    assert(mid.spec_bytes() =~= s.spec_bytes().subrange(lo as int, hi as int));
    let r = mid.to_owned();
    proof {
        assert(r@ == mid@);
    }
    r
}

} // verus!
