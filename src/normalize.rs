//! The message normaliser: raw RFC 5322 bytes and the protocol's UID, flags and
//! internal date become one `ImapMessage`. Both fetch paths end here.
use vstd::prelude::*;
use crate::codec::{chars_vec, push_char};
use crate::command::texts;
use crate::mime::{
    attachment, attachment_count, body_html, body_text, header, mime_attachment,
    mime_attachment_count, mime_body_html, mime_body_text, mime_header, mime_parses,
    parses, HeaderField, HeaderFieldView, MailAddr, MailAddrView, MimeAttachment,
    MimeAttachmentView,
};
use crate::types::{opt_view, ImapAttachment, ImapMessage};
use crate::uids::{decimal_text, push_decimal};

verus! {

/// The pieces joined by `sep`.
pub open spec fn join(parts: Seq<Seq<char>>, sep: Seq<char>) -> Seq<char>
    decreases parts.len(),
{
    if parts.len() == 0 {
        Seq::empty()
    } else if parts.len() == 1 {
        parts[0]
    } else {
        join(parts.drop_last(), sep) + sep + parts.last()
    }
}

pub fn join_strings(parts: &Vec<String>, sep: &str) -> (r: String)
    ensures
        r@ == join(texts(parts@), sep@),
{
    let mut s = String::new();
    let mut i: usize = 0;
    while i < parts.len()
        invariant
            i <= parts@.len(),
            s@ == join(texts(parts@).subrange(0, i as int), sep@),
        decreases parts@.len() - i,
    {
        assert(texts(parts@).subrange(0, i + 1).drop_last() =~= texts(parts@).subrange(0, i as int));
        if i > 0 {
            s.append(sep);
        } else {
            assert(s@ =~= Seq::<char>::empty());
        }
        s.append(parts[i].as_str());
        assert(s@ =~= join(texts(parts@).subrange(0, i + 1), sep@));
        i = i + 1;
    }
    assert(texts(parts@).subrange(0, parts@.len() as int) =~= texts(parts@));
    s
}

/// `Name <email>` with a display name, the bare email without one (an empty name
/// counts as none; a missing email reads as empty).
pub open spec fn address_text(a: MailAddrView) -> Seq<char> {
    let email = match a.address {
        Some(e) => e,
        None => Seq::empty(),
    };
    match a.name {
        Some(n) if n.len() > 0 => n + " <"@ + email + ">"@,
        _ => email,
    }
}

pub open spec fn addresses_text(list: Seq<MailAddrView>) -> Option<Seq<char>> {
    if list.len() == 0 {
        None
    } else {
        Some(join(list.map_values(|a: MailAddrView| address_text(a)), ", "@))
    }
}

pub open spec fn addr_views(list: Seq<MailAddr>) -> Seq<MailAddrView> {
    list.map_values(|a: MailAddr| a@)
}

fn address_string(a: &MailAddr) -> (r: String)
    ensures
        r@ == address_text(a@),
{
    let email = match &a.address {
        Some(e) => e.clone(),
        None => String::new(),
    };
    match &a.name {
        Some(n) => {
            if n.as_str().unicode_len() > 0 {
                let mut s = n.clone();
                s.append(" <");
                s.append(email.as_str());
                s.append(">");
                s
            } else {
                email
            }
        },
        None => email,
    }
}


/// The address list of a header as one line: entries joined by `, `; `None` when the
/// header is absent or lists nobody.
pub fn format_address_list(addr: Option<&Vec<MailAddr>>) -> (r: Option<String>)
    ensures
        opt_view(r) == (match addr {
            Some(list) => addresses_text(addr_views(list@)),
            None => None,
        }),
{
    let list = match addr {
        Some(l) => l,
        None => return None,
    };
    if list.len() == 0 {
        return None;
    }
    let mut parts: Vec<String> = Vec::new();
    let mut i: usize = 0;
    while i < list.len()
        invariant
            i <= list@.len(),
            parts@.len() == i,
            texts(parts@) == addr_views(list@).subrange(0, i as int).map_values(
                |a: MailAddrView| address_text(a),
            ),
        decreases list@.len() - i,
    {
        let t = address_string(&list[i]);
        let ghost before = parts@;
        parts.push(t);
        assert(addr_views(list@)[i as int] == list@[i as int]@);
        assert forall|j: int| 0 <= j < i + 1 implies #[trigger] texts(parts@)[j]
            == addr_views(list@).subrange(0, i + 1).map_values(|a: MailAddrView| address_text(a))[j] by {
            if j < i {
                assert(parts@[j] == before[j]);
                assert(texts(before)[j] == addr_views(list@).subrange(0, i as int).map_values(
                    |a: MailAddrView| address_text(a),
                )[j]);
            }
        }
        assert(texts(parts@) =~= addr_views(list@).subrange(0, i + 1).map_values(
            |a: MailAddrView| address_text(a),
        ));
        i = i + 1;
    }
    assert(addr_views(list@).subrange(0, list@.len() as int) =~= addr_views(list@));
    Some(join_strings(&parts, ", "))
}

/// The addresses of a header that holds an address list.
pub open spec fn field_addresses(f: HeaderFieldView) -> Option<Seq<MailAddrView>> {
    match f {
        HeaderFieldView::Addresses(l) => Some(l),
        _ => None,
    }
}

pub fn addresses_of(f: &HeaderField) -> (r: Option<&Vec<MailAddr>>)
    ensures
        match r {
            Some(l) => field_addresses(f@) == Some(addr_views(l@)),
            None => field_addresses(f@) is None,
        },
{
    match f {
        HeaderField::Addresses(l) => Some(l),
        _ => None,
    }
}

/// Email and display name of the first address of a list.
pub open spec fn first_address(list: Option<Seq<MailAddrView>>) -> (Option<Seq<char>>, Option<Seq<char>>) {
    match list {
        Some(l) if l.len() > 0 => (l[0].address, l[0].name),
        _ => (None, None),
    }
}

pub fn extract_first_address(addr: Option<&Vec<MailAddr>>) -> (r: (Option<String>, Option<String>))
    ensures
        (opt_view(r.0), opt_view(r.1)) == first_address(match addr {
            Some(l) => Some(addr_views(l@)),
            None => None,
        }),
{
    match addr {
        Some(l) => {
            if l.len() > 0 {
                (l[0].address.clone(), l[0].name.clone())
            } else {
                (None, None)
            }
        },
        None => (None, None),
    }
}

/// A header as text: a text list joined by `, `.
pub open spec fn header_text(f: HeaderFieldView) -> Option<Seq<char>> {
    match f {
        HeaderFieldView::Text(t) => Some(t),
        HeaderFieldView::TextList(l) => Some(join(l, ", "@)),
        _ => None,
    }
}

pub fn extract_header_text(hv: &HeaderField) -> (r: Option<String>)
    ensures
        opt_view(r) == header_text(hv@),
{
    match hv {
        HeaderField::Text(t) => Some(t.clone()),
        HeaderField::TextList(l) => Some(join_strings(l, ", ")),
        _ => None,
    }
}

/// A header read as a single text: a text list gives its last entry.
pub open spec fn single_text(f: HeaderFieldView) -> Option<Seq<char>> {
    match f {
        HeaderFieldView::Text(t) => Some(t),
        HeaderFieldView::TextList(l) => if l.len() > 0 {
            Some(l.last())
        } else {
            None
        },
        _ => None,
    }
}

fn single_text_of(hv: &HeaderField) -> (r: Option<String>)
    ensures
        opt_view(r) == single_text(hv@),
{
    match hv {
        HeaderField::Text(t) => Some(t.clone()),
        HeaderField::TextList(l) => {
            if l.len() > 0 {
                Some(l[l.len() - 1].clone())
            } else {
                None
            }
        },
        _ => None,
    }
}

/// A message-id header (In-Reply-To, References) as one line: a single id as it
/// stands, a list of ids joined by spaces; `None` for an empty list.
pub open spec fn message_ids_text(f: HeaderFieldView) -> Option<Seq<char>> {
    match f {
        HeaderFieldView::Text(t) => Some(t),
        HeaderFieldView::TextList(l) => if l.len() > 0 {
            Some(join(l, " "@))
        } else {
            None
        },
        _ => None,
    }
}

fn message_ids_of(hv: &HeaderField) -> (r: Option<String>)
    ensures
        opt_view(r) == message_ids_text(hv@),
{
    match hv {
        HeaderField::Text(t) => Some(t.clone()),
        HeaderField::TextList(l) => {
            if l.len() > 0 {
                Some(join_strings(l, " "))
            } else {
                None
            }
        },
        _ => None,
    }
}

/// Unicode White_Space, as `char::is_whitespace` has it.
pub open spec fn is_white(c: char) -> bool {
    let u = c as u32;
    (9 <= u <= 13) || u == 32 || u == 0x85 || u == 0xA0 || u == 0x1680 || (0x2000 <= u <= 0x200A)
        || u == 0x2028 || u == 0x2029 || u == 0x202F || u == 0x205F || u == 0x3000
}

fn is_white_char(c: char) -> (r: bool)
    ensures
        r == is_white(c),
{
    let u = c as u32;
    (9 <= u && u <= 13) || u == 32 || u == 0x85 || u == 0xA0 || u == 0x1680 || (0x2000 <= u && u
        <= 0x200A) || u == 0x2028 || u == 0x2029 || u == 0x202F || u == 0x205F || u == 0x3000
}

/// Every run of whitespace made a single plain space.
pub open spec fn collapse_white(t: Seq<char>) -> Seq<char>
    decreases t.len(),
{
    if t.len() == 0 {
        Seq::empty()
    } else {
        let rest = collapse_white(t.drop_last());
        if is_white(t.last()) {
            if rest.len() > 0 && rest.last() == ' ' {
                rest
            } else {
                rest.push(' ')
            }
        } else {
            rest.push(t.last())
        }
    }
}

pub open spec fn trim_white_start(t: Seq<char>) -> Seq<char>
    decreases t.len(),
{
    if t.len() > 0 && is_white(t[0]) {
        trim_white_start(t.drop_first())
    } else {
        t
    }
}

pub open spec fn trim_white_end(t: Seq<char>) -> Seq<char>
    decreases t.len(),
{
    if t.len() > 0 && is_white(t.last()) {
        trim_white_end(t.drop_last())
    } else {
        t
    }
}

/// Longest a snippet runs before it is cut, in characters.
pub const SNIPPET_CHARS: usize = 200;

/// The preview of a text body: runs of whitespace made single spaces, the ends
/// trimmed, and cut to 200 characters followed by `...` when longer.
pub open spec fn snippet_of(t: Seq<char>) -> Seq<char> {
    let s = trim_white_end(trim_white_start(collapse_white(t)));
    if s.len() > 200 {
        s.subrange(0, 200) + "..."@
    } else {
        s
    }
}

/// Text whose only whitespace is single spaces between other characters.
pub open spec fn single_spaced(t: Seq<char>) -> bool {
    &&& forall|i: int| 0 <= i < t.len() && is_white(#[trigger] t[i]) ==> t[i] == ' '
    &&& forall|i: int| 0 <= i < t.len() - 1 && is_white(#[trigger] t[i]) ==> !is_white(t[i + 1])
    &&& t.len() > 0 ==> !is_white(t[0]) && !is_white(t.last())
}

proof fn lemma_collapse_single_spaced(t: Seq<char>)
    requires
        forall|i: int| 0 <= i < t.len() && is_white(#[trigger] t[i]) ==> t[i] == ' ',
        forall|i: int| 0 <= i < t.len() - 1 && is_white(#[trigger] t[i]) ==> !is_white(t[i + 1]),
    ensures
        collapse_white(t) == t,
    decreases t.len(),
{
    if t.len() > 0 {
        let d = t.drop_last();
        assert forall|i: int| 0 <= i < d.len() && is_white(#[trigger] d[i]) implies d[i] == ' ' by {
            assert(d[i] == t[i]);
        }
        assert forall|i: int| 0 <= i < d.len() - 1 && is_white(#[trigger] d[i]) implies !is_white(
            d[i + 1],
        ) by {
            assert(d[i] == t[i] && d[i + 1] == t[i + 1]);
        }
        lemma_collapse_single_spaced(d);
        if is_white(t.last()) && d.len() > 0 {
            assert(t[t.len() - 2] == d.last());
            assert(!is_white(d.last()));
        }
        assert(d.push(t.last()) =~= t);
    }
}

/// A text whose only whitespace is single spaces between other characters is its own
/// snippet up to 200 characters; a longer one keeps its first 200 characters and gains
/// `...`.
pub proof fn lemma_snippet_of_single_spaced(t: Seq<char>)
    requires
        single_spaced(t),
    ensures
        t.len() <= 200 ==> snippet_of(t) == t,
        t.len() > 200 ==> snippet_of(t) == t.subrange(0, 200) + "..."@,
{
    lemma_collapse_single_spaced(t);
    assert(trim_white_start(t) == t);
    assert(trim_white_end(t) == t);
}

/// The snippet of a text body.
pub fn make_snippet(text: &str) -> (r: String)
    ensures
        r@ == snippet_of(text@),
{
    let src = chars_vec(text);
    let mut v: Vec<char> = Vec::new();
    let mut i: usize = 0;
    while i < src.len()
        invariant
            i <= src@.len(),
            src@ == text@,
            v@ == collapse_white(src@.subrange(0, i as int)),
        decreases src@.len() - i,
    {
        let c = src[i];
        assert(src@.subrange(0, i + 1).drop_last() =~= src@.subrange(0, i as int));
        if is_white_char(c) {
            if v.len() == 0 || v[v.len() - 1] != ' ' {
                v.push(' ');
            }
        } else {
            v.push(c);
        }
        i = i + 1;
    }
    assert(src@.subrange(0, src@.len() as int) =~= text@);
    let n = v.len();
    assert(v@.subrange(0, n as int) =~= v@);
    let mut lo: usize = 0;
    while lo < n && is_white_char(v[lo])
        invariant
            lo <= n == v@.len(),
            trim_white_start(v@) == trim_white_start(v@.subrange(lo as int, n as int)),
        decreases n - lo,
    {
        assert(v@.subrange(lo as int, n as int).drop_first() =~= v@.subrange(lo + 1, n as int));
        lo = lo + 1;
    }
    assert(v@.subrange(0, n as int) =~= v@);
    let mut hi: usize = n;
    while hi > lo && is_white_char(v[hi - 1])
        invariant
            lo <= hi <= n == v@.len(),
            trim_white_end(trim_white_start(v@)) == trim_white_end(v@.subrange(lo as int, hi as int)),
        decreases hi,
    {
        assert(v@.subrange(lo as int, hi as int).drop_last() =~= v@.subrange(lo as int, hi - 1));
        hi = hi - 1;
    }
    let ghost s = v@.subrange(lo as int, hi as int);
    let cut = hi - lo > SNIPPET_CHARS;
    let end = if cut { lo + SNIPPET_CHARS } else { hi };
    let mut out = String::new();
    let mut k: usize = lo;
    while k < end
        invariant
            lo <= k <= end <= hi <= n == v@.len(),
            s == v@.subrange(lo as int, hi as int),
            out@ == v@.subrange(lo as int, k as int),
        decreases end - k,
    {
        push_char(&mut out, v[k]);
        k = k + 1;
        assert(out@ =~= v@.subrange(lo as int, k as int));
    }
    if cut {
        out.append("...");
        assert(v@.subrange(lo as int, end as int) =~= s.subrange(0, 200));
    } else {
        assert(v@.subrange(lo as int, hi as int) =~= s);
    }
    out
}

/// The MIME type of an attachment: `type/subtype`, `octet-stream` standing in for a
/// missing subtype and `application/octet-stream` for a missing type.
pub open spec fn mime_type_text(a: MimeAttachmentView) -> Seq<char> {
    match a.content_type {
        Some(t) => t + "/"@ + match a.content_subtype {
            Some(s) => s,
            None => "octet-stream"@,
        },
        None => "application/octet-stream"@,
    }
}

/// The entry of the attachment at 0-based position `i`.
pub open spec fn attachment_entry_ok(x: ImapAttachment, a: MimeAttachmentView, i: nat) -> bool {
    &&& x.part_id@ == decimal_text(i + 1)
    &&& x.filename@ == (match a.name {
        Some(n) => n,
        None => "attachment"@,
    })
    &&& x.mime_type@ == mime_type_text(a)
    &&& x.size == a.size as u32
    &&& opt_view(x.content_id) == a.content_id
    &&& x.is_inline == (a.disposition_inline == Some(true))
}

/// The attachments the parser yields in order from position `i` on, up to the first
/// position without one.
pub open spec fn attachments_from(raw: Seq<u8>, i: nat) -> Seq<MimeAttachmentView>
    decreases mime_attachment_count(raw) - i,
{
    if i >= mime_attachment_count(raw) {
        Seq::empty()
    } else {
        match mime_attachment(raw, i) {
            Some(a) => seq![a] + attachments_from(raw, i + 1),
            None => Seq::empty(),
        }
    }
}

fn attachment_entry(a: &MimeAttachment, i: usize) -> (r: ImapAttachment)
    requires
        i < u64::MAX,
    ensures
        attachment_entry_ok(r, a@, i as nat),
{
    let mut part_id = String::new();
    push_decimal(&mut part_id, (i as u64) + 1);
    let filename = match &a.name {
        Some(n) => n.clone(),
        None => "attachment".to_owned(),
    };
    let mime_type = match &a.content_type {
        Some(t) => {
            let mut m = t.clone();
            m.append("/");
            match &a.content_subtype {
                Some(s) => m.append(s.as_str()),
                None => m.append("octet-stream"),
            }
            m
        },
        None => "application/octet-stream".to_owned(),
    };
    let is_inline = match a.disposition_inline {
        Some(b) => b,
        None => false,
    };
    ImapAttachment {
        part_id,
        filename,
        mime_type,
        size: a.size as u32,
        content_id: a.content_id.clone(),
        is_inline,
    }
}

/// The attachments of a message, numbered from 1 in the order the parser yields them.
pub fn collect_attachments(raw: &[u8]) -> (r: Vec<ImapAttachment>)
    ensures
        r@.len() == attachments_from(raw@, 0).len(),
        forall|i: int|
            0 <= i < r@.len() ==> attachment_entry_ok(
                #[trigger] r@[i],
                attachments_from(raw@, 0)[i],
                i as nat,
            ),
{
    let count = attachment_count(raw);
    let mut out: Vec<ImapAttachment> = Vec::new();
    let mut i: usize = 0;
    while i < count
        invariant
            i <= count,
            count as nat == mime_attachment_count(raw@),
            out@.len() == i,
            attachments_from(raw@, 0) == attachments_from(raw@, 0).subrange(0, i as int)
                + attachments_from(raw@, i as nat),
            attachments_from(raw@, 0).len() >= i,
            forall|j: int|
                0 <= j < i ==> attachment_entry_ok(
                    #[trigger] out@[j],
                    attachments_from(raw@, 0)[j],
                    j as nat,
                ),
        decreases count - i,
    {
        match attachment(raw, i) {
            Some(a) => {
                let ghost all = attachments_from(raw@, 0);
                assert(attachments_from(raw@, i as nat) == seq![a@] + attachments_from(
                    raw@,
                    (i + 1) as nat,
                ));
                assert(all[i as int] == a@);
                let e = attachment_entry(&a, i);
                out.push(e);
                assert(all.subrange(0, i + 1) =~= all.subrange(0, i as int).push(a@));
                assert(all =~= all.subrange(0, i + 1) + attachments_from(raw@, (i + 1) as nat));
                i = i + 1;
            },
            None => {
                assert(attachments_from(raw@, i as nat) =~= Seq::<MimeAttachmentView>::empty());
                assert(attachments_from(raw@, 0) =~= attachments_from(raw@, 0).subrange(0, i as int));
                return out;
            },
        }
    }
    assert(attachments_from(raw@, i as nat) =~= Seq::<MimeAttachmentView>::empty());
    assert(attachments_from(raw@, 0) =~= attachments_from(raw@, 0).subrange(0, i as int));
    out
}


/// The one-line address list of an address header; `None` for any other header.
pub open spec fn address_line(f: HeaderFieldView) -> Option<Seq<char>> {
    match field_addresses(f) {
        Some(l) => addresses_text(l),
        None => None,
    }
}

/// The message date: the Date header, else the server's internal date, else zero.
pub open spec fn message_date(raw: Seq<u8>, internal_date: Option<i64>) -> i64 {
    match mime_header(raw, "Date"@) {
        HeaderFieldView::Timestamp(t) => t,
        _ => match internal_date {
            Some(t) => t,
            None => 0,
        },
    }
}

/// `m` is the normal form of the message `raw` with the given protocol metadata.
pub open spec fn normalized(
    m: ImapMessage,
    raw: Seq<u8>,
    uid: u32,
    folder: Seq<char>,
    raw_size: u32,
    is_read: bool,
    is_starred: bool,
    is_draft: bool,
    internal_date: Option<i64>,
) -> bool {
    let from = first_address(field_addresses(mime_header(raw, "From"@)));
    &&& m.uid == uid && m.folder@ == folder && m.raw_size == raw_size
    &&& m.is_read == is_read && m.is_starred == is_starred && m.is_draft == is_draft
    &&& opt_view(m.message_id) == single_text(mime_header(raw, "Message-ID"@))
    &&& opt_view(m.subject) == single_text(mime_header(raw, "Subject"@))
    &&& m.date == message_date(raw, internal_date)
    &&& opt_view(m.in_reply_to) == message_ids_text(mime_header(raw, "In-Reply-To"@))
    &&& opt_view(m.references) == message_ids_text(mime_header(raw, "References"@))
    &&& opt_view(m.from_address) == from.0 && opt_view(m.from_name) == from.1
    &&& opt_view(m.to_addresses) == address_line(mime_header(raw, "To"@))
    &&& opt_view(m.cc_addresses) == address_line(mime_header(raw, "Cc"@))
    &&& opt_view(m.bcc_addresses) == address_line(mime_header(raw, "Bcc"@))
    &&& opt_view(m.reply_to) == address_line(mime_header(raw, "Reply-To"@))
    &&& opt_view(m.body_text) == mime_body_text(raw)
    &&& opt_view(m.body_html) == mime_body_html(raw)
    &&& opt_view(m.snippet) == (match mime_body_text(raw) {
        Some(t) => Some(snippet_of(t)),
        None => None,
    })
    &&& opt_view(m.list_unsubscribe) == header_text(mime_header(raw, "List-Unsubscribe"@))
    &&& opt_view(m.list_unsubscribe_post) == header_text(
        mime_header(raw, "List-Unsubscribe-Post"@),
    )
    &&& opt_view(m.auth_results) == header_text(mime_header(raw, "Authentication-Results"@))
    &&& m.attachments@.len() == attachments_from(raw, 0).len()
    &&& forall|i: int|
        0 <= i < m.attachments@.len() ==> attachment_entry_ok(
            #[trigger] m.attachments@[i],
            attachments_from(raw, 0)[i],
            i as nat,
        )
}

fn address_line_of(raw: &[u8], name: &str) -> (r: Option<String>)
    ensures
        opt_view(r) == address_line(mime_header(raw@, name@)),
{
    let f = header(raw, name);
    format_address_list(addresses_of(&f))
}

/// Normalises one fetched message. Fails only when the MIME parser cannot read the
/// bytes as a message at all.
pub fn parse_message(
    raw: &[u8],
    uid: u32,
    folder: &str,
    raw_size: u32,
    is_read: bool,
    is_starred: bool,
    is_draft: bool,
    internal_date: Option<i64>,
) -> (r: Result<ImapMessage, String>)
    ensures
        r is Ok <==> mime_parses(raw@),
        r is Err ==> r->Err_0@ == "Failed to parse MIME message"@,
        r is Ok ==> normalized(
            r->Ok_0,
            raw@,
            uid,
            folder@,
            raw_size,
            is_read,
            is_starred,
            is_draft,
            internal_date,
        ),
{
    if !parses(raw) {
        return Err("Failed to parse MIME message".to_owned());
    }
    let message_id = single_text_of(&header(raw, "Message-ID"));
    let subject = single_text_of(&header(raw, "Subject"));
    let date = match header(raw, "Date") {
        HeaderField::Timestamp(t) => t,
        _ => match internal_date {
            Some(t) => t,
            None => 0,
        },
    };
    let in_reply_to = message_ids_of(&header(raw, "In-Reply-To"));
    let references = message_ids_of(&header(raw, "References"));
    let from = header(raw, "From");
    let (from_address, from_name) = extract_first_address(addresses_of(&from));
    let to_addresses = address_line_of(raw, "To");
    let cc_addresses = address_line_of(raw, "Cc");
    let bcc_addresses = address_line_of(raw, "Bcc");
    let reply_to = address_line_of(raw, "Reply-To");
    let body_text = body_text(raw);
    let body_html = body_html(raw);
    let snippet = match &body_text {
        Some(t) => Some(make_snippet(t.as_str())),
        None => None,
    };
    let list_unsubscribe = extract_header_text(&header(raw, "List-Unsubscribe"));
    let list_unsubscribe_post = extract_header_text(&header(raw, "List-Unsubscribe-Post"));
    let auth_results = extract_header_text(&header(raw, "Authentication-Results"));
    let attachments = collect_attachments(raw);
    Ok(
        ImapMessage {
            uid,
            folder: folder.to_owned(),
            message_id,
            in_reply_to,
            references,
            from_address,
            from_name,
            to_addresses,
            cc_addresses,
            bcc_addresses,
            reply_to,
            subject,
            date,
            is_read,
            is_starred,
            is_draft,
            body_html,
            body_text,
            snippet,
            raw_size,
            list_unsubscribe,
            list_unsubscribe_post,
            auth_results,
            attachments,
        },
    )
}

} // verus!
