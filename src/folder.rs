//! Folders as listed by the server: display name and special use.
use vstd::prelude::*;
use crate::types::opt_view;
use crate::codec::{ascii_lower, is_ascii_text, lower_of, lowercase};
use crate::command::same_text;
use crate::types::ImapFolder;

verus! {

/// The mailbox attributes of a LIST reply that this engine tells apart (RFC 6154 and
/// RFC 3501); all others are `Other`.
#[derive(Clone, Copy, Debug, PartialEq, Eq, Structural)]
pub enum NameAttribute {
    Sent,
    Trash,
    Drafts,
    Junk,
    Archive,
    All,
    Flagged,
    Other,
}

pub open spec fn attribute_use(a: NameAttribute) -> Option<Seq<char>> {
    match a {
        NameAttribute::Sent => Some("\\Sent"@),
        NameAttribute::Trash => Some("\\Trash"@),
        NameAttribute::Drafts => Some("\\Drafts"@),
        NameAttribute::Junk => Some("\\Junk"@),
        NameAttribute::Archive => Some("\\Archive"@),
        NameAttribute::All => Some("\\All"@),
        NameAttribute::Flagged => Some("\\Flagged"@),
        NameAttribute::Other => None,
    }
}

/// The special use of the first attribute that has one.
pub open spec fn attributes_use(attrs: Seq<NameAttribute>) -> Option<Seq<char>>
    decreases attrs.len(),
{
    if attrs.len() == 0 {
        None
    } else if attribute_use(attrs[0]) is Some {
        attribute_use(attrs[0])
    } else {
        attributes_use(attrs.drop_first())
    }
}

/// The special use that a lower-case folder name suggests, in the common spellings of
/// several servers and languages.
pub open spec fn name_use(n: Seq<char>) -> Option<Seq<char>> {
    if n == "inbox"@ {
        Some("\\Inbox"@)
    } else if n == "sent"@ || n == "sent messages"@ || n == "sent items"@ || n
        == "[gmail]/sent mail"@ {
        Some("\\Sent"@)
    } else if n == "trash"@ || n == "deleted"@ || n == "deleted items"@ || n
        == "deleted messages"@ || n == "bin"@ || n == "corbeille"@ || n == "unsolbox"@ || n
        == "[gmail]/trash"@ {
        Some("\\Trash"@)
    } else if n == "drafts"@ || n == "draft"@ || n == "draftbox"@ || n == "brouillons"@ || n
        == "[gmail]/drafts"@ {
        Some("\\Drafts"@)
    } else if n == "junk"@ || n == "spam"@ || n == "junk e-mail"@ || n == "[gmail]/spam"@ {
        Some("\\Junk"@)
    } else if n == "archive"@ || n == "archives"@ || n == "[gmail]/all mail"@ {
        Some("\\Archive"@)
    } else {
        None
    }
}

/// Server attributes first, then the name.
pub open spec fn special_use_of(attrs: Seq<NameAttribute>, lower_name: Seq<char>) -> Option<
    Seq<char>,
> {
    match attributes_use(attrs) {
        Some(u) => Some(u),
        None => name_use(lower_name),
    }
}

fn attribute_use_of(a: NameAttribute) -> (r: Option<String>)
    ensures
        opt_view(r) == attribute_use(a),
{
    match a {
        NameAttribute::Sent => Some("\\Sent".to_owned()),
        NameAttribute::Trash => Some("\\Trash".to_owned()),
        NameAttribute::Drafts => Some("\\Drafts".to_owned()),
        NameAttribute::Junk => Some("\\Junk".to_owned()),
        NameAttribute::Archive => Some("\\Archive".to_owned()),
        NameAttribute::All => Some("\\All".to_owned()),
        NameAttribute::Flagged => Some("\\Flagged".to_owned()),
        NameAttribute::Other => None,
    }
}

/// The special use that a folder name, already in lower case, suggests.
pub fn special_use_by_name(n: &str) -> (r: Option<String>)
    ensures
        opt_view(r) == name_use(n@),
{
    if same_text(n, "inbox") {
        Some("\\Inbox".to_owned())
    } else if same_text(n, "sent") || same_text(n, "sent messages") || same_text(n, "sent items")
        || same_text(n, "[gmail]/sent mail") {
        Some("\\Sent".to_owned())
    } else if same_text(n, "trash") || same_text(n, "deleted") || same_text(n, "deleted items")
        || same_text(n, "deleted messages") || same_text(n, "bin") || same_text(n, "corbeille")
        || same_text(n, "unsolbox") || same_text(n, "[gmail]/trash") {
        Some("\\Trash".to_owned())
    } else if same_text(n, "drafts") || same_text(n, "draft") || same_text(n, "draftbox")
        || same_text(n, "brouillons") || same_text(n, "[gmail]/drafts") {
        Some("\\Drafts".to_owned())
    } else if same_text(n, "junk") || same_text(n, "spam") || same_text(n, "junk e-mail")
        || same_text(n, "[gmail]/spam") {
        Some("\\Junk".to_owned())
    } else if same_text(n, "archive") || same_text(n, "archives") || same_text(
        n,
        "[gmail]/all mail",
    ) {
        Some("\\Archive".to_owned())
    } else {
        None
    }
}

/// The special use of a folder from its attributes and its name already in lower case.
pub fn special_use_from(attributes: &Vec<NameAttribute>, lower_name: &str) -> (r: Option<String>)
    ensures
        opt_view(r) == special_use_of(attributes@, lower_name@),
{
    let mut i: usize = 0;
    assert(attributes@.subrange(0, attributes@.len() as int) =~= attributes@);
    while i < attributes.len()
        invariant
            i <= attributes@.len(),
            attributes_use(attributes@) == attributes_use(attributes@.subrange(i as int, attributes@.len() as int)),
        decreases attributes@.len() - i,
    {
        let u = attribute_use_of(attributes[i]);
        let ghost rest = attributes@.subrange(i as int, attributes@.len() as int);
        assert(rest[0] == attributes@[i as int]);
        if u.is_some() {
            return u;
        }
        assert(rest.drop_first() =~= attributes@.subrange(i + 1, attributes@.len() as int));
        i = i + 1;
    }
    special_use_by_name(lower_name)
}

/// The special use of a folder: the first advertised attribute that has one, else
/// what the lower case of its name suggests.
pub fn detect_special_use(attributes: &Vec<NameAttribute>, name: &str) -> (r: Option<String>)
    ensures
        opt_view(r) == special_use_of(attributes@, lower_of(name@)),
        is_ascii_text(name@) ==> opt_view(r) == special_use_of(
            attributes@,
            name@.map_values(|c: char| ascii_lower(c)),
        ),
{
    let lower = lowercase(name);
    special_use_from(attributes, lower.as_str())
}

/// An advertised special-use attribute decides, whatever the folder is called.
pub proof fn lemma_attribute_decides(attrs: Seq<NameAttribute>, n1: Seq<char>, n2: Seq<char>)
    requires
        attributes_use(attrs) is Some,
    ensures
        special_use_of(attrs, n1) == special_use_of(attrs, n2),
        special_use_of(attrs, n1) == attributes_use(attrs),
{
}

pub open spec fn occurs_at_chars(h: Seq<char>, p: Seq<char>, i: int) -> bool {
    0 <= i && i + p.len() <= h.len() && h.subrange(i, i + p.len()) == p
}

pub open spec fn is_last_occurrence(h: Seq<char>, p: Seq<char>, i: int) -> bool {
    occurs_at_chars(h, p, i) && forall|j: int| i < j ==> !occurs_at_chars(h, p, j)
}

/// The last segment of a path: what follows the last delimiter, or the whole path.
pub open spec fn last_segment(path: Seq<char>, delim: Seq<char>) -> Seq<char> {
    if exists|i: int| occurs_at_chars(path, delim, i) {
        let i = choose|i: int| is_last_occurrence(path, delim, i);
        path.subrange(i + delim.len(), path.len() as int)
    } else {
        path
    }
}

/// The characters of a folder path or delimiter, both short, one by one.
fn chars_of(s: &str) -> (r: Vec<char>)
    ensures
        r@ == s@,
{
    let n = s.unicode_len();
    let mut v: Vec<char> = Vec::new();
    let mut i: usize = 0;
    while i < n
        invariant
            i <= n == s@.len(),
            v@ == s@.subrange(0, i as int),
        decreases n - i,
    {
        v.push(s.get_char(i));
        i = i + 1;
        assert(v@ =~= s@.subrange(0, i as int));
    }
    assert(s@.subrange(0, n as int) =~= s@);
    v
}

fn chars_match_at(h: &Vec<char>, p: &Vec<char>, i: usize) -> (r: bool)
    requires
        i + p@.len() <= h@.len(),
    ensures
        r == occurs_at_chars(h@, p@, i as int),
{
    let hn = h.len();
    let mut k: usize = 0;
    while k < p.len()
        invariant
            hn == h@.len(),
            i + p@.len() <= h@.len(),
            k <= p@.len(),
            forall|j: int| 0 <= j < k ==> h@[i + j] == p@[j],
        decreases p@.len() - k,
    {
        if h[i + k] != p[k] {
            assert(h@.subrange(i as int, i + p@.len())[k as int] != p@[k as int]);
            return false;
        }
        k = k + 1;
    }
    assert(h@.subrange(i as int, i + p@.len()) =~= p@);
    true
}

/// The display name of a folder: the last segment of its path by its delimiter.
pub fn display_name(path: &str, delimiter: &str) -> (r: String)
    ensures
        r@ == last_segment(path@, delimiter@),
{
    let h = chars_of(path);
    let p = chars_of(delimiter);
    if p.len() > h.len() {
        assert(!exists|i: int| occurs_at_chars(path@, delimiter@, i));
        return path.to_owned();
    }
    let hn = h.len();
    let mut k: usize = hn - p.len();
    loop
        invariant
            h@ == path@,
            p@ == delimiter@,
            hn == h@.len(),
            k + p@.len() <= h@.len(),
            forall|j: int| k < j ==> !occurs_at_chars(h@, p@, j),
        ensures
            forall|j: int| 0 <= j ==> !occurs_at_chars(h@, p@, j),
        decreases k,
    {
        if chars_match_at(&h, &p, k) {
            proof {
                assert(is_last_occurrence(path@, delimiter@, k as int));
                let c = choose|i: int| is_last_occurrence(path@, delimiter@, i);
                assert(c == k);
            }
            let s = path.substring_char(k + p.len(), hn);
            return s.to_owned();
        }
        if k == 0 {
            break;
        }
        k = k - 1;
    }
    assert(!exists|i: int| occurs_at_chars(path@, delimiter@, i));
    path.to_owned()
}

/// A folder of a LIST reply, from its path as the server spells it, that path decoded
/// from modified UTF-7, its delimiter (`/` when the server gives none), its attributes,
/// and the message and unseen counts of a STATUS on it, zero when STATUS failed.
pub fn folder_from_listing(
    raw_path: &str,
    decoded_path: &str,
    delimiter: Option<&str>,
    attributes: &Vec<NameAttribute>,
    counts: Option<(u32, Option<u32>)>,
) -> (r: ImapFolder)
    ensures
        r.raw_path@ == raw_path@,
        r.path@ == decoded_path@,
        r.delimiter@ == (match delimiter {
            Some(d) => d@,
            None => "/"@,
        }),
        r.name@ == last_segment(decoded_path@, r.delimiter@),
        opt_view(r.special_use) == special_use_of(attributes@, lower_of(raw_path@)),
        r.exists == (match counts {
            Some((e, _)) => e,
            None => 0,
        }),
        r.unseen == (match counts {
            Some((_, Some(u))) => u,
            _ => 0,
        }),
{
    let delim = match delimiter {
        Some(d) => d.to_owned(),
        None => "/".to_owned(),
    };
    let name = display_name(decoded_path, delim.as_str());
    let special_use = detect_special_use(attributes, raw_path);
    let (exists, unseen) = match counts {
        Some((e, u)) => (e, match u {
            Some(n) => n,
            None => 0,
        }),
        None => (0, 0),
    };
    ImapFolder {
        path: decoded_path.to_owned(),
        raw_path: raw_path.to_owned(),
        name,
        delimiter: delim,
        special_use,
        exists,
        unseen,
    }
}

} // verus!
