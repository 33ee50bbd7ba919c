//! What this engine takes from outside crates and from std without a specification:
//! base64, Unicode lower case, and character-wise access to text.
use vstd::prelude::*;
use vstd::utf8::{decode_utf8, valid_utf8};

verus! {

/// The standard base64 alphabet (RFC 4648 section 4).
pub open spec fn standard_alphabet() -> Seq<char> {
    "ABCDEFGHIJKLMNOPQRSTUVWXYZabcdefghijklmnopqrstuvwxyz0123456789+/"@
}

/// The URL-safe base64 alphabet (RFC 4648 section 5).
pub open spec fn url_alphabet() -> Seq<char> {
    "ABCDEFGHIJKLMNOPQRSTUVWXYZabcdefghijklmnopqrstuvwxyz0123456789-_"@
}

/// Base64 of some bytes in alphabet `a`: four characters for each group of three
/// bytes; a last group of one or two bytes gives two or three characters, followed by
/// `=` up to four when `pad` holds. Unused low bits of the last character are zero.
pub open spec fn base64_text(b: Seq<u8>, a: Seq<char>, pad: bool) -> Seq<char>
    decreases b.len(),
{
    if b.len() == 0 {
        Seq::empty()
    } else if b.len() == 1 {
        let x = b[0] as int;
        seq![a[x / 4], a[(x % 4) * 16]] + if pad {
            "=="@
        } else {
            Seq::empty()
        }
    } else if b.len() == 2 {
        let (x, y) = (b[0] as int, b[1] as int);
        seq![a[x / 4], a[(x % 4) * 16 + y / 16], a[(y % 16) * 4]] + if pad {
            "="@
        } else {
            Seq::empty()
        }
    } else {
        let (x, y, z) = (b[0] as int, b[1] as int, b[2] as int);
        seq![a[x / 4], a[(x % 4) * 16 + y / 16], a[(y % 16) * 4 + z / 64], a[z % 64]]
            + base64_text(b.subrange(3, b.len() as int), a, pad)
    }
}

/// Padded base64 in the standard alphabet of some bytes.
pub open spec fn base64_standard(b: Seq<u8>) -> Seq<char> {
    base64_text(b, standard_alphabet(), true)
}

/// The bytes whose unpadded base64url encoding is `s`; `None` when `s` is no such
/// encoding. No two byte strings share an encoding.
pub open spec fn base64url_bytes(s: Seq<char>) -> Option<Seq<u8>> {
    if exists|b: Seq<u8>| base64_text(b, url_alphabet(), false) == s {
        Some(choose|b: Seq<u8>| base64_text(b, url_alphabet(), false) == s)
    } else {
        None
    }
}

/// The Unicode lower case of some text.
pub uninterp spec fn lower_of(s: Seq<char>) -> Seq<char>;

/// A character with `A`-`Z` made `a`-`z`.
pub open spec fn ascii_lower(c: char) -> char {
    if 'A' <= c <= 'Z' {
        ((c as u32) + 32) as char
    } else {
        c
    }
}

pub open spec fn is_ascii_text(s: Seq<char>) -> bool {
    forall|i: int| 0 <= i < s.len() ==> (#[trigger] s[i] as u32) < 128
}

/// Relies on base64's `general_purpose::STANDARD.encode`: padded standard base64.
/// Its one panic, an output length past `usize::MAX`, needs more than `isize::MAX`
/// input bytes, more than a slice can hold.
#[verifier::external_body]
pub(crate) fn encode_base64_standard(b: &[u8]) -> (r: String)
    ensures
        r@ == base64_standard(b@),
        b@.len() == 0 ==> r@.len() == 0,
{
    base64::Engine::encode(&base64::engine::general_purpose::STANDARD, b)
}

/// Relies on base64's `general_purpose::URL_SAFE_NO_PAD.decode`, which accepts exactly
/// the canonical unpadded base64url encodings (no padding, no stray trailing bits) and
/// returns their bytes, or describes why the text is not one.
#[verifier::external_body]
pub(crate) fn decode_base64url_no_pad(s: &str) -> (r: Result<Vec<u8>, String>)
    ensures
        r is Ok <==> base64url_bytes(s@) is Some,
        r is Ok ==> r->Ok_0@ == base64url_bytes(s@).unwrap(),
        r is Ok ==> base64_text(r->Ok_0@, url_alphabet(), false) == s@,
{
    base64::Engine::decode(&base64::engine::general_purpose::URL_SAFE_NO_PAD, s).map_err(
        |e| e.to_string(),
    )
}

/// Relies on `str::to_lowercase`: the lower case of each character in turn, which for
/// ASCII text is the ASCII lower case.
#[verifier::external_body]
pub(crate) fn lowercase(s: &str) -> (r: String)
    ensures
        r@ == lower_of(s@),
        s@.len() == 0 ==> r@.len() == 0,
        is_ascii_text(s@) ==> r@ == s@.map_values(|c: char| ascii_lower(c)),
{
    s.to_lowercase()
}

/// Relies on `str::chars`: the characters of `s`, in order.
#[verifier::external_body]
pub(crate) fn chars_vec(s: &str) -> (r: Vec<char>)
    ensures
        r@ == s@,
{
    s.chars().collect()
}

/// Relies on `String::push`: one character appended.
#[verifier::external_body]
pub(crate) fn push_char(s: &mut String, c: char)
    ensures
        final(s)@ == old(s)@.push(c),
{
    s.push(c)
}

/// Relies on `String::from_utf8`: `Some` exactly for valid UTF-8, holding its text.
#[verifier::external_body]
pub(crate) fn text_from_utf8(v: Vec<u8>) -> (r: Option<String>)
    ensures
        r is Some <==> valid_utf8(v@),
        r is Some ==> r.unwrap()@ == decode_utf8(v@),
{
    String::from_utf8(v).ok()
}

} // verus!
