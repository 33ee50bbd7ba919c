//! The text of the commands the engine sends: flag lists for STORE, LOGIN, the
//! XOAUTH2 initial response, SELECT and the raw engine's FETCH.
use vstd::prelude::*;
use vstd::string::StringSliceAdditionalSpecFns;
use vstd::utf8::encode_utf8;
use crate::codec::{base64_standard, encode_base64_standard};
use crate::types::ImapConfig;

verus! {

/// Whether two texts are equal.
pub fn same_text(a: &str, b: &str) -> (r: bool)
    ensures
        r == (a@ == b@),
{
    let x = a.to_owned();
    let y = b.to_owned();
    x == y
}

/// A flag as written on the wire: with a leading backslash, added when missing.
pub open spec fn flag_wire(f: Seq<char>) -> Seq<char> {
    if f.len() > 0 && f[0] == '\\' {
        f
    } else {
        seq!['\\'] + f
    }
}

/// The wire forms of some flags, separated by spaces.
pub open spec fn flags_joined(fs: Seq<Seq<char>>) -> Seq<char>
    decreases fs.len(),
{
    if fs.len() == 0 {
        Seq::empty()
    } else if fs.len() == 1 {
        flag_wire(fs[0])
    } else {
        flags_joined(fs.drop_last()) + seq![' '] + flag_wire(fs.last())
    }
}

pub open spec fn texts(v: Seq<String>) -> Seq<Seq<char>> {
    v.map_values(|s: String| s@)
}

/// `(\Flag1 \Flag2)`
pub open spec fn flag_list_text(fs: Seq<Seq<char>>) -> Seq<char> {
    seq!['('] + flags_joined(fs) + seq![')']
}

/// A flag named with or without its backslash has one wire form.
pub proof fn lemma_flag_wire_backslash_optional(f: Seq<char>)
    requires
        !(f.len() > 0 && f[0] == '\\'),
    ensures
        flag_wire(f) == flag_wire(seq!['\\'] + f),
{
    assert((seq!['\\'] + f)[0] == '\\');
}

fn push_flag(s: &mut String, f: &String)
    ensures
        final(s)@ == old(s)@ + flag_wire(f@),
{
    let t = f.as_str();
    if t.is_empty() || t.get_char(0) != '\\' {
        s.append("\\");
        proof {
            reveal_strlit("\\");
        }
    }
    s.append(t);
    assert(final(s)@ =~= old(s)@ + flag_wire(f@));
}

/// The parenthesised flag list of a STORE: `(\Seen \Flagged)`.
pub fn flag_list(flags: &Vec<String>) -> (r: String)
    ensures
        r@ == flag_list_text(texts(flags@)),
{
    let mut s = String::new();
    s.append("(");
    proof {
        reveal_strlit("(");
    }
    let mut i: usize = 0;
    while i < flags.len()
        invariant
            i <= flags@.len(),
            s@ == seq!['('] + flags_joined(texts(flags@).subrange(0, i as int)),
        decreases flags@.len() - i,
    {
        assert(texts(flags@).subrange(0, i + 1).drop_last() =~= texts(flags@).subrange(0, i as int));
        if i > 0 {
            s.append(" ");
            proof {
                reveal_strlit(" ");
            }
        }
        push_flag(&mut s, &flags[i]);
        assert(s@ =~= seq!['('] + flags_joined(texts(flags@).subrange(0, i + 1)));
        i = i + 1;
    }
    assert(texts(flags@).subrange(0, flags@.len() as int) =~= texts(flags@));
    s.append(")");
    proof {
        reveal_strlit(")");
    }
    assert(s@ =~= flag_list_text(texts(flags@)));
    s
}

/// The STORE argument that adds (`+FLAGS`) or removes (`-FLAGS`) some flags.
pub fn store_query(add: bool, flags: &Vec<String>) -> (r: String)
    ensures
        r@ == (if add { "+FLAGS "@ } else { "-FLAGS "@ }) + flag_list_text(texts(flags@)),
{
    let mut s = if add {
        "+FLAGS ".to_owned()
    } else {
        "-FLAGS ".to_owned()
    };
    let l = flag_list(flags);
    s.append(l.as_str());
    s
}

/// `user=<user>\x01auth=Bearer <token>\x01\x01`: the XOAUTH2 initial client response.
pub open spec fn xoauth2_text(user: Seq<char>, token: Seq<char>) -> Seq<char> {
    "user="@ + user + "\x01auth=Bearer "@ + token + "\x01\x01"@
}

pub fn xoauth2_string(user: &str, token: &str) -> (r: String)
    ensures
        r@ == xoauth2_text(user@, token@),
{
    let mut s = "user=".to_owned();
    s.append(user);
    s.append("\x01auth=Bearer ");
    s.append(token);
    s.append("\x01\x01");
    s
}

/// The XOAUTH2 SASL client: it answers the first challenge with the initial response
/// and any later one, which means refusal, with an empty response, so that the
/// server reports its own failure.
#[derive(Clone, Debug)]
pub struct XOAuth2 {
    pub response: Vec<u8>,
}

impl XOAuth2 {
    pub fn new(user: &str, access_token: &str) -> (r: XOAuth2)
        ensures
            r.response@ == encode_utf8(xoauth2_text(user@, access_token@)),
    {
        let s = xoauth2_string(user, access_token);
        XOAuth2 { response: s.as_str().as_bytes_vec() }
    }

    /// The reply to a server challenge.
    pub fn process(&mut self, challenge: &[u8]) -> (r: Vec<u8>)
        ensures
            r@ == old(self).response@,
            final(self).response@.len() == 0,
    {
        let mut out: Vec<u8> = Vec::new();
        std::mem::swap(&mut out, &mut self.response);
        out
    }
}

/// `<tag> LOGIN "<user>" "<password>"` and its line end.
pub open spec fn login_text(tag: Seq<char>, user: Seq<char>, pass: Seq<char>) -> Seq<char> {
    tag + " LOGIN \""@ + user + "\" \""@ + pass + "\"\r\n"@
}

/// `<tag> AUTHENTICATE XOAUTH2 <base64 of the initial response>` and its line end.
pub open spec fn authenticate_text(tag: Seq<char>, user: Seq<char>, token: Seq<char>) -> Seq<char> {
    tag + " AUTHENTICATE XOAUTH2 "@ + base64_standard(encode_utf8(xoauth2_text(user, token)))
        + "\r\n"@
}

/// The login command of the raw engine: XOAUTH2 when the account uses OAuth2, LOGIN
/// otherwise.
pub fn login_command(config: &ImapConfig, tag: &str) -> (r: String)
    ensures
        config.auth_method@ == "oauth2"@ ==> r@ == authenticate_text(
            tag@,
            config.username@,
            config.password@,
        ),
        config.auth_method@ != "oauth2"@ ==> r@ == login_text(
            tag@,
            config.username@,
            config.password@,
        ),
{
    let mut s = tag.to_owned();
    if same_text(config.auth_method.as_str(), "oauth2") {
        let x = xoauth2_string(config.username.as_str(), config.password.as_str());
        let b = x.as_str().as_bytes();
        let enc = encode_base64_standard(b);
        s.append(" AUTHENTICATE XOAUTH2 ");
        s.append(enc.as_str());
        s.append("\r\n");
    } else {
        s.append(" LOGIN \"");
        s.append(config.username.as_str());
        s.append("\" \"");
        s.append(config.password.as_str());
        s.append("\"\r\n");
    }
    s
}

/// `<tag> SELECT "<folder>"` and its line end.
pub open spec fn select_text(tag: Seq<char>, folder: Seq<char>) -> Seq<char> {
    tag + " SELECT \""@ + folder + "\"\r\n"@
}

pub fn select_command(tag: &str, folder: &str) -> (r: String)
    ensures
        r@ == select_text(tag@, folder@),
{
    let mut s = tag.to_owned();
    s.append(" SELECT \"");
    s.append(folder);
    s.append("\"\r\n");
    s
}

/// `<tag> UID FETCH <uids> (UID FLAGS INTERNALDATE BODY.PEEK[])` and its line end.
pub open spec fn fetch_text(tag: Seq<char>, uids: Seq<char>) -> Seq<char> {
    tag + " UID FETCH "@ + uids + " (UID FLAGS INTERNALDATE BODY.PEEK[])\r\n"@
}

pub fn fetch_command(tag: &str, uid_range: &str) -> (r: String)
    ensures
        r@ == fetch_text(tag@, uid_range@),
{
    let mut s = tag.to_owned();
    s.append(" UID FETCH ");
    s.append(uid_range);
    s.append(" (UID FLAGS INTERNALDATE BODY.PEEK[])\r\n");
    s
}

} // verus!
