//! Reading the OAuth2 redirect that the browser sends to the local callback listener:
//! the request line's path, its query parameters and their percent-decoding.
use vstd::prelude::*;
use crate::types::opt_view;
use vstd::string::StringSliceAdditionalSpecFns;
use vstd::utf8::{decode_utf8, encode_utf8, encode_utf8_valid_utf8, valid_utf8};
use crate::scan::{find, find_bytes, is_space, is_space_byte, next_index};
use crate::utf8cut::{
    lemma_boundary_after_ascii, lemma_boundary_at_ascii, lemma_boundary_at_end, text_between,
};
use crate::command::same_text;
use crate::codec::text_from_utf8;

verus! {

pub open spec fn hex_value(b: u8) -> Option<int> {
    if 48 <= b <= 57 {
        Some(b - 48)
    } else if 97 <= b <= 102 {
        Some(b - 87)
    } else if 65 <= b <= 70 {
        Some(b - 55)
    } else {
        None
    }
}

/// Two characters read as a hexadecimal byte, as `u8::from_str_radix(_, 16)` reads
/// them: two hex digits, or a plus sign and one.
pub open spec fn hex_pair(a: u8, b: u8) -> Option<u8> {
    match (hex_value(a), hex_value(b)) {
        (Some(x), Some(y)) => Some((x * 16 + y) as u8),
        _ => if a == 43 && hex_value(b) is Some {
            Some(hex_value(b).unwrap() as u8)
        } else {
            None
        },
    }
}

/// Percent-decoding of query text: `%XY` becomes that byte, `+` a space.
pub open spec fn url_decoded(b: Seq<u8>) -> Seq<u8>
    decreases b.len(),
{
    if b.len() == 0 {
        Seq::empty()
    } else if b[0] == 37 && b.len() >= 3 && hex_pair(b[1], b[2]) is Some {
        seq![hex_pair(b[1], b[2]).unwrap()] + url_decoded(b.subrange(3, b.len() as int))
    } else {
        seq![if b[0] == 43 { 32u8 } else { b[0] }] + url_decoded(b.drop_first())
    }
}

/// The decoded text, or the text unchanged where decoding does not give UTF-8.
pub open spec fn url_text(s: Seq<char>) -> Seq<char> {
    let d = url_decoded(encode_utf8(s));
    if valid_utf8(d) {
        decode_utf8(d)
    } else {
        s
    }
}

fn hex_digit(b: u8) -> (r: Option<u8>)
    ensures
        match r {
            Some(v) => hex_value(b) == Some(v as int),
            None => hex_value(b) is None,
        },
{
    if 48u8 <= b && b <= 57u8 {
        Some(b - 48)
    } else if 97u8 <= b && b <= 102u8 {
        Some(b - 87)
    } else if 65u8 <= b && b <= 70u8 {
        Some(b - 55)
    } else {
        None
    }
}

fn hex_pair_of(a: u8, b: u8) -> (r: Option<u8>)
    ensures
        r == hex_pair(a, b),
{
    match (hex_digit(a), hex_digit(b)) {
        (Some(x), Some(y)) => Some(x * 16 + y),
        (_, Some(y)) => if a == 43u8 {
            Some(y)
        } else {
            None
        },
        _ => None,
    }
}

/// Decodes `%XY` escapes and `+` of a query value; text whose decoding is not UTF-8
/// comes back unchanged.
pub fn urlencoding_decode(s: &str) -> (r: String)
    ensures
        r@ == url_text(s@),
{
    let b = s.as_bytes();
    let n = b.len();
    let mut out: Vec<u8> = Vec::new();
    let mut i: usize = 0;
    assert(b@.subrange(0, n as int) =~= b@);
    while i < n
        invariant
            i <= n == b@.len(),
            b@ == encode_utf8(s@),
            out@ + url_decoded(b@.subrange(i as int, n as int)) == url_decoded(b@),
        decreases n - i,
    {
        let ghost rest = b@.subrange(i as int, n as int);
        if b[i] == 37u8 && n - i >= 3 {
            if let Some(v) = hex_pair_of(b[i + 1], b[i + 2]) {
                assert(rest.subrange(3, rest.len() as int) =~= b@.subrange(i + 3, n as int));
                out.push(v);
                assert(out@ + url_decoded(b@.subrange(i + 3, n as int)) =~= url_decoded(b@));
                i = i + 3;
                continue;
            }
        }
        let c = if b[i] == 43u8 {
            32u8
        } else {
            b[i]
        };
        assert(rest.drop_first() =~= b@.subrange(i + 1, n as int));
        out.push(c);
        assert(out@ + url_decoded(b@.subrange(i + 1, n as int)) =~= url_decoded(b@));
        i = i + 1;
    }
    assert(out@ =~= url_decoded(b@)) by {
        assert(b@.subrange(n as int, n as int) =~= Seq::<u8>::empty());
    }
    match text_from_utf8(out) {
        Some(t) => t,
        None => s.to_owned(),
    }
}

/// The `key=value` pairs of the query text `b[pos..qe]`, split at `&` and then at the
/// first `=`; pieces without `=` are passed over.
pub open spec fn query_pairs(b: Seq<u8>, pos: int, qe: int) -> Seq<(Seq<u8>, Seq<u8>)>
    decreases qe - pos,
{
    let end = next_index(b, pos, qe, 38u8);
    let eq = next_index(b, pos, end, 61u8);
    let head = if eq < end {
        seq![(b.subrange(pos, eq), b.subrange(eq + 1, end))]
    } else {
        Seq::empty()
    };
    if pos <= end && end < qe {
        head + query_pairs(b, end + 1, qe)
    } else {
        head
    }
}

/// The raw pairs of the query of a request path, the text between its first `?` and
/// the next `?` or the end; none without a `?`.
pub open spec fn path_pairs(p: Seq<u8>) -> Seq<(Seq<u8>, Seq<u8>)> {
    let qs = next_index(p, 0, p.len() as int, 63u8);
    if qs >= p.len() {
        Seq::empty()
    } else {
        query_pairs(p, qs + 1, next_index(p, qs + 1, p.len() as int, 63u8))
    }
}

/// A parameter as handed out: the key's text, and the value percent-decoded.
pub open spec fn param_ok(x: (String, String), raw: (Seq<u8>, Seq<u8>)) -> bool {
    &&& encode_utf8(x.0@) == raw.0
    &&& x.1@ == url_text(decode_utf8(raw.1))
}

fn find_in(b: &[u8], lo: usize, hi: usize, c: u8) -> (r: usize)
    requires
        lo <= hi <= b@.len(),
    ensures
        r == next_index(b@, lo as int, hi as int, c),
        lo <= r <= hi,
        r < hi ==> b@[r as int] == c,
{
    let mut k: usize = lo;
    while k < hi && b[k] != c
        invariant
            lo <= k <= hi <= b@.len(),
            next_index(b@, lo as int, hi as int, c) == next_index(b@, k as int, hi as int, c),
        decreases hi - k,
    {
        k = k + 1;
    }
    k
}

/// The parameters of the query of a request path, in order; a later parameter of the
/// same key stands after an earlier one, and `query_param` takes the last.
pub fn parse_query_string(path: &str) -> (r: Vec<(String, String)>)
    ensures
        r@.len() == path_pairs(path.spec_bytes()).len(),
        forall|i: int|
            0 <= i < r@.len() ==> param_ok(#[trigger] r@[i], path_pairs(path.spec_bytes())[i]),
{
    let b = path.as_bytes();
    let n = b.len();
    let mut out: Vec<(String, String)> = Vec::new();
    let qs = find_in(b, 0, n, 63u8);
    if qs == n {
        return out;
    }
    let qe = find_in(b, qs + 1, n, 63u8);
    proof {
        encode_utf8_valid_utf8(path@);
    }
    let ghost all = query_pairs(b@, qs + 1, qe as int);
    let mut pos: usize = qs + 1;
    loop
        invariant_except_break
            qs < pos <= qe,
            b@[pos - 1] == 63u8 || b@[pos - 1] == 38u8,
            out@.len() + query_pairs(b@, pos as int, qe as int).len() == all.len(),
            all.subrange(out@.len() as int, all.len() as int) == query_pairs(
                b@,
                pos as int,
                qe as int,
            ),
        invariant
            qe <= n == b@.len(),
            b@ == path.spec_bytes(),
            valid_utf8(b@),
            qe == n || b@[qe as int] == 63u8,
            all == path_pairs(b@),
            all == query_pairs(b@, qs + 1, qe as int),
            out@.len() <= all.len(),
            forall|i: int| 0 <= i < out@.len() ==> param_ok(#[trigger] out@[i], all[i]),
        ensures
            out@.len() == all.len(),
        decreases qe - pos,
    {
        let end = find_in(b, pos, qe, 38u8);
        let eq = find_in(b, pos, end, 61u8);
        let ghost head = if eq < end {
            seq![(b@.subrange(pos as int, eq as int), b@.subrange(eq + 1, end as int))]
        } else {
            Seq::empty()
        };
        let ghost rest = if end < qe {
            query_pairs(b@, end + 1, qe as int)
        } else {
            Seq::empty()
        };
        assert(query_pairs(b@, pos as int, qe as int) == head + rest);
        let ghost k = out@.len();
        if eq < end {
            proof {
                lemma_boundary_after_ascii(b@, pos as int);
                lemma_boundary_at_ascii(b@, eq as int);
                lemma_boundary_after_ascii(b@, eq + 1);
                if end < n {
                    lemma_boundary_at_ascii(b@, end as int);
                } else {
                    lemma_boundary_at_end(b@);
                }
            }
            let key = text_between(path, pos, eq);
            let raw_value = text_between(path, eq + 1, end);
            proof {
                vstd::utf8::encode_utf8_decode_utf8(raw_value@);
            }
            let value = urlencoding_decode(raw_value.as_str());
            proof {
                assert(all[k as int] == (head + rest)[0]);
            }
            out.push((key, value));
        }
        proof {
            let tail = all.subrange(k as int, all.len() as int);
            assert(tail == head + rest);
            assert(all.subrange(out@.len() as int, all.len() as int) =~= tail.subrange(
                head.len() as int,
                tail.len() as int,
            ));
            assert(tail.subrange(head.len() as int, tail.len() as int) =~= rest);
        }
        if end >= qe {
            assert(rest.len() == 0);
            break;
        }
        pos = end + 1;
    }
    out
}

/// The value of the last parameter whose key is `key`, among pairs as handed out.
pub open spec fn param_value(params: Seq<(String, String)>, key: Seq<char>) -> Option<Seq<char>>
    decreases params.len(),
{
    if params.len() == 0 {
        None
    } else if params.last().0@ == key {
        Some(params.last().1@)
    } else {
        param_value(params.drop_last(), key)
    }
}

/// The decoded value of the last raw pair whose key bytes are `key`.
pub open spec fn raw_param(pairs: Seq<(Seq<u8>, Seq<u8>)>, key: Seq<u8>) -> Option<Seq<char>>
    decreases pairs.len(),
{
    if pairs.len() == 0 {
        None
    } else if pairs.last().0 == key {
        Some(url_text(decode_utf8(pairs.last().1)))
    } else {
        raw_param(pairs.drop_last(), key)
    }
}

proof fn lemma_param_value_raw(params: Seq<(String, String)>, pairs: Seq<(Seq<u8>, Seq<u8>)>, key: Seq<char>)
    requires
        params.len() == pairs.len(),
        forall|i: int| 0 <= i < params.len() ==> param_ok(#[trigger] params[i], pairs[i]),
    ensures
        param_value(params, key) == raw_param(pairs, encode_utf8(key)),
    decreases params.len(),
{
    if params.len() > 0 {
        let n = params.len() - 1;
        assert(param_ok(params[n as int], pairs[n as int]));
        vstd::utf8::encode_utf8_decode_utf8(key);
        vstd::utf8::encode_utf8_decode_utf8(params.last().0@);
        assert(params.last().0@ == key <==> pairs.last().0 == encode_utf8(key));
        assert forall|i: int| 0 <= i < params.drop_last().len() implies param_ok(
            #[trigger] params.drop_last()[i],
            pairs.drop_last()[i],
        ) by {
            assert(param_ok(params[i], pairs[i]));
        }
        lemma_param_value_raw(params.drop_last(), pairs.drop_last(), key);
    }
}

/// The value of the last parameter named `key`, as a map keyed by name would keep it.
pub fn query_param(params: &Vec<(String, String)>, key: &str) -> (r: Option<String>)
    ensures
        opt_view(r) == param_value(params@, key@),
{
    let mut k: usize = params.len();
    assert(params@.subrange(0, k as int) =~= params@);
    while k > 0
        invariant
            k <= params@.len(),
            param_value(params@, key@) == param_value(params@.subrange(0, k as int), key@),
        decreases k,
    {
        let ghost pre = params@.subrange(0, k as int);
        assert(pre.drop_last() =~= params@.subrange(0, k - 1));
        if same_text(params[k - 1].0.as_str(), key) {
            return Some(params[k - 1].1.clone());
        }
        k = k - 1;
    }
    None
}

/// The end of the first line of a request: before its first line feed, and before a
/// carriage return that stands right before it.
pub open spec fn first_line_end(b: Seq<u8>) -> int {
    let e = next_index(b, 0, b.len() as int, 10u8);
    if e < b.len() && e > 0 && b[e - 1] == 13 {
        e - 1
    } else {
        e
    }
}

/// The first position in `[i, hi)` that is not whitespace, or `hi`.
pub open spec fn skip_space(b: Seq<u8>, i: int, hi: int) -> int
    decreases hi - i,
{
    if i >= hi {
        hi
    } else if is_space(b[i]) {
        skip_space(b, i + 1, hi)
    } else {
        i
    }
}

/// The first position in `[i, hi)` that is whitespace, or `hi`.
pub open spec fn skip_word(b: Seq<u8>, i: int, hi: int) -> int
    decreases hi - i,
{
    if i >= hi {
        hi
    } else if is_space(b[i]) {
        i
    } else {
        skip_word(b, i + 1, hi)
    }
}

/// Where the second whitespace-separated word of the first line stands: the path of
/// an HTTP request line.
pub open spec fn request_path(b: Seq<u8>) -> Option<(int, int)> {
    let hi = first_line_end(b);
    let a = skip_space(b, 0, hi);
    let c = skip_space(b, skip_word(b, a, hi), hi);
    if c < hi {
        Some((c, skip_word(b, c, hi)))
    } else {
        None
    }
}

/// `error=`
pub open spec fn error_key() -> Seq<u8> {
    seq![101u8, 114u8, 114u8, 111u8, 114u8, 61u8]
}

fn skip_space_from(b: &[u8], i: usize, hi: usize) -> (r: usize)
    requires
        i <= hi <= b@.len(),
    ensures
        r == skip_space(b@, i as int, hi as int),
        i <= r <= hi,
        r < hi ==> !is_space(b@[r as int]),
        forall|j: int| i <= j < r ==> is_space(b@[j]),
{
    let mut k = i;
    while k < hi && is_space_byte(b[k])
        invariant
            i <= k <= hi <= b@.len(),
            forall|j: int| i <= j < k ==> is_space(b@[j]),
            skip_space(b@, i as int, hi as int) == skip_space(b@, k as int, hi as int),
        decreases hi - k,
    {
        k = k + 1;
    }
    k
}

fn skip_word_from(b: &[u8], i: usize, hi: usize) -> (r: usize)
    requires
        i <= hi <= b@.len(),
    ensures
        r == skip_word(b@, i as int, hi as int),
        i <= r <= hi,
        r < hi ==> is_space(b@[r as int]),
{
    let mut k = i;
    while k < hi && !is_space_byte(b[k])
        invariant
            i <= k <= hi <= b@.len(),
            skip_word(b@, i as int, hi as int) == skip_word(b@, k as int, hi as int),
        decreases hi - k,
    {
        k = k + 1;
    }
    k
}

/// Reads the authorization code and state from the OAuth2 redirect request that the
/// browser sent to the callback listener. Words are separated by ASCII whitespace.
pub fn parse_auth_code_and_state(request: &str) -> (r: Result<(String, String), String>)
    ensures
        request@.len() == 0 ==> r is Err && r->Err_0@ == "Empty request"@,
        request@.len() > 0 && request_path(request.spec_bytes()) is None ==> r is Err
            && r->Err_0@ == "No path in request"@,
        request@.len() > 0 && request_path(request.spec_bytes()) is Some ==> {
            let (c, d) = request_path(request.spec_bytes()).unwrap();
            let p = request.spec_bytes().subrange(c, d);
            let pairs = path_pairs(p);
            let code = raw_param(pairs, encode_utf8("code"@));
            let state = raw_param(pairs, encode_utf8("state"@));
            if find(p, error_key()) is Some {
                r is Err && r->Err_0@ == "OAuth error: "@ + match raw_param(pairs, encode_utf8("error"@)) {
                    Some(e) => e,
                    None => Seq::empty(),
                }
            } else if code is None {
                r is Err && r->Err_0@ == "No auth code in redirect"@
            } else if state is None {
                r is Err && r->Err_0@ == "No state in redirect"@
            } else {
                r is Ok && r->Ok_0.0@ == code.unwrap() && r->Ok_0.1@ == state.unwrap()
            }
        },
{
    let b = request.as_bytes();
    let n = b.len();
    if n == 0 {
        proof {
            vstd::utf8::encode_utf8_decode_utf8(request@);
            assert(request@ =~= vstd::utf8::decode_utf8(b@));
        }
        return Err("Empty request".to_owned());
    }
    proof {
        encode_utf8_valid_utf8(request@);
        if request@.len() == 0 {
            assert(b@ =~= Seq::<u8>::empty());
        }
    }
    let e = find_in(b, 0, n, 10u8);
    let hi = if e < n && e > 0 && b[e - 1] == 13u8 {
        e - 1
    } else {
        e
    };
    let a = skip_space_from(b, 0, hi);
    let w = skip_word_from(b, a, hi);
    let c = skip_space_from(b, w, hi);
    if c >= hi {
        return Err("No path in request".to_owned());
    }
    let d = skip_word_from(b, c, hi);
    proof {
        if c > 0 {
            assert(c > w);
            assert(is_space(b@[c - 1]));
            lemma_boundary_after_ascii(b@, c as int);
        }
        if d < n {
            lemma_boundary_at_ascii(b@, d as int);
        } else {
            lemma_boundary_at_end(b@);
        }
        if c == 0 {
            vstd::utf8::is_char_boundary_start_end_of_seq(b@);
        }
    }
    let path = text_between(request, c, d);
    let pb = path.as_str().as_bytes();
    let params = parse_query_string(path.as_str());
    proof {
        lemma_param_value_raw(params@, path_pairs(pb@), "code"@);
        lemma_param_value_raw(params@, path_pairs(pb@), "state"@);
        lemma_param_value_raw(params@, path_pairs(pb@), "error"@);
    }
    let ek: [u8; 6] = [101u8, 114u8, 114u8, 111u8, 114u8, 61u8];
    assert(ek@ == error_key());
    if find_bytes(pb, ek.as_slice()).is_some() {
        let mut msg = "OAuth error: ".to_owned();
        if let Some(v) = query_param(&params, "error") {
            msg.append(v.as_str());
        }
        return Err(msg);
    }
    let code = match query_param(&params, "code") {
        Some(v) => v,
        None => return Err("No auth code in redirect".to_owned()),
    };
    let state = match query_param(&params, "state") {
        Some(v) => v,
        None => return Err("No state in redirect".to_owned()),
    };
    Ok((code, state))
}

} // verus!
