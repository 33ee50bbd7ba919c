//! Where the two fetch paths meet: the standard path's items and the raw engine's
//! messages become `FetchedItem`s, and one normaliser turns them into messages.
use vstd::prelude::*;
use vstd::utf8::{decode_utf8, valid_utf8};
use crate::codec::{base64_standard, encode_base64_standard};
use crate::fetch::{
    fetch_line_of, kept, lemma_single_message_transcript, read_fetch_transcript, run,
    single_line, tagged_status_of, FetchHead, FetchLine, Phase, RawFetchedMessage, TaggedStatus,
};
use vstd::utf8::encode_utf8;
use crate::mime::mime_parses;
use crate::normalize::{normalized, parse_message};
use crate::types::{ImapFetchResult, ImapFolderStatus, ImapMessage};
use crate::uids::{decimal_text, push_decimal};

verus! {

/// One message item of a FETCH response, from either path, as far as it was read.
#[derive(Clone, Debug)]
pub struct FetchedItem {
    pub uid: Option<u32>,
    pub is_read: bool,
    pub is_starred: bool,
    pub is_draft: bool,
    pub internal_date: Option<i64>,
    pub body: Option<Vec<u8>>,
}

/// The raw engine's message as an item.
pub fn item_from_raw(m: RawFetchedMessage) -> (r: FetchedItem)
    ensures
        r.uid == Some(m.uid),
        r.is_read == m.is_read && r.is_starred == m.is_starred && r.is_draft == m.is_draft,
        r.internal_date == m.internal_date,
        r.body == Some(m.body),
{
    FetchedItem {
        uid: Some(m.uid),
        is_read: m.is_read,
        is_starred: m.is_starred,
        is_draft: m.is_draft,
        internal_date: m.internal_date,
        body: Some(m.body),
    }
}

/// An item is kept when it has a UID and a body that the MIME parser reads.
pub open spec fn item_kept(it: FetchedItem) -> bool {
    it.uid is Some && it.body is Some && mime_parses(it.body.unwrap()@)
}

/// The kept items, in order.
pub open spec fn kept_items(items: Seq<FetchedItem>) -> Seq<FetchedItem>
    decreases items.len(),
{
    if items.len() == 0 {
        Seq::empty()
    } else if item_kept(items.last()) {
        kept_items(items.drop_last()).push(items.last())
    } else {
        kept_items(items.drop_last())
    }
}

/// `m` is the normal form of item `it` of folder `folder`.
pub open spec fn item_normalized(m: ImapMessage, it: FetchedItem, folder: Seq<char>) -> bool {
    let body = it.body.unwrap();
    normalized(
        m,
        body@,
        it.uid.unwrap(),
        folder,
        body@.len() as u32,
        it.is_read,
        it.is_starred,
        it.is_draft,
        it.internal_date,
    )
}

/// Normalises every item that has a UID and a readable body; an item without either,
/// or whose body the MIME parser cannot read, is left out and the others go on.
pub fn normalize_items(items: &Vec<FetchedItem>, folder: &str) -> (r: Vec<ImapMessage>)
    ensures
        r@.len() == kept_items(items@).len(),
        forall|i: int|
            0 <= i < r@.len() ==> item_normalized(#[trigger] r@[i], kept_items(items@)[i], folder@),
{
    let mut out: Vec<ImapMessage> = Vec::new();
    let mut i: usize = 0;
    while i < items.len()
        invariant
            i <= items@.len(),
            out@.len() == kept_items(items@.subrange(0, i as int)).len(),
            forall|j: int|
                0 <= j < out@.len() ==> item_normalized(
                    #[trigger] out@[j],
                    kept_items(items@.subrange(0, i as int))[j],
                    folder@,
                ),
        decreases items@.len() - i,
    {
        let ghost pre = items@.subrange(0, i as int);
        let ghost post = items@.subrange(0, i + 1);
        assert(post.drop_last() =~= pre);
        assert(post.last() == items@[i as int]);
        let it = &items[i];
        if let (Some(uid), Some(body)) = (it.uid, &it.body) {
            match parse_message(
                body.as_slice(),
                uid,
                folder,
                body.len() as u32,
                it.is_read,
                it.is_starred,
                it.is_draft,
                it.internal_date,
            ) {
                Ok(m) => {
                    out.push(m);
                    assert(kept_items(post) == kept_items(pre).push(items@[i as int]));
                },
                Err(_) => {},
            }
        }
        i = i + 1;
    }
    assert(items@.subrange(0, items@.len() as int) =~= items@);
    out
}

/// `ASYNC_IMAP_EMPTY:`: the prefix of the error that asks for the raw fallback.
pub open spec fn fallback_prefix() -> Seq<char> {
    "ASYNC_IMAP_EMPTY:"@
}

/// The result of a standard-path fetch. No item at all from a mailbox that reports
/// messages means the library could not parse this server: the call then fails with
/// the fallback signal naming the folder, and the caller retries on the raw engine.
pub fn fetch_result(items: &Vec<FetchedItem>, folder: &str, status: ImapFolderStatus) -> (r: Result<
    ImapFetchResult,
    String,
>)
    ensures
        r is Err <==> (items@.len() == 0 && status.exists > 0),
        r is Err ==> r->Err_0@ == fallback_prefix() + folder@,
        r is Ok ==> {
            let res = r->Ok_0;
            &&& res.folder_status == status
            &&& res.messages@.len() == kept_items(items@).len()
            &&& forall|i: int|
                0 <= i < res.messages@.len() ==> item_normalized(
                    #[trigger] res.messages@[i],
                    kept_items(items@)[i],
                    folder@,
                )
        },
{
    if items.len() == 0 && status.exists > 0 {
        let mut e = "ASYNC_IMAP_EMPTY:".to_owned();
        e.append(folder);
        return Err(e);
    }
    let messages = normalize_items(items, folder);
    Ok(ImapFetchResult { messages, folder_status: status })
}

/// Whether an error of the standard path is the fallback signal.
pub fn is_fallback_signal(e: &str) -> (r: bool)
    ensures
        r == (e@.len() >= 17 && e@.subrange(0, 17) == fallback_prefix()),
{
    proof {
        reveal_strlit("ASYNC_IMAP_EMPTY:");
    }
    if e.unicode_len() < 17 {
        return false;
    }
    let head = e.substring_char(0, 17);
    let p = "ASYNC_IMAP_EMPTY:".to_owned();
    head.to_owned() == p
}

/// `Message UID <uid> not found in <folder>`
pub open spec fn not_found_text(uid: u32, folder: Seq<char>) -> Seq<char> {
    "Message UID "@ + decimal_text(uid as nat) + " not found in "@ + folder
}

/// `No body for UID <uid>`
pub open spec fn no_body_text(uid: u32) -> Seq<char> {
    "No body for UID "@ + decimal_text(uid as nat)
}

fn not_found_error(uid: u32, folder: &str) -> (r: String)
    ensures
        r@ == not_found_text(uid, folder@),
{
    let mut s = "Message UID ".to_owned();
    push_decimal(&mut s, uid as u64);
    s.append(" not found in ");
    s.append(folder);
    s
}

fn no_body_error(uid: u32) -> (r: String)
    ensures
        r@ == no_body_text(uid),
{
    let mut s = "No body for UID ".to_owned();
    push_decimal(&mut s, uid as u64);
    s
}

/// The one message a single-UID fetch asked for: the first item returned, normalised
/// without an internal date.
pub fn single_message(items: &Vec<FetchedItem>, uid: u32, folder: &str) -> (r: Result<
    ImapMessage,
    String,
>)
    ensures
        items@.len() == 0 ==> r is Err && r->Err_0@ == not_found_text(uid, folder@),
        items@.len() > 0 && items@[0].body is None ==> r is Err && r->Err_0@ == no_body_text(uid),
        items@.len() > 0 && items@[0].body is Some ==> {
            let it = items@[0];
            let body = it.body.unwrap()@;
            &&& (r is Ok <==> mime_parses(body))
            &&& r is Ok ==> normalized(
                r->Ok_0,
                body,
                uid,
                folder@,
                body.len() as u32,
                it.is_read,
                it.is_starred,
                it.is_draft,
                None,
            )
        },
{
    if items.len() == 0 {
        return Err(not_found_error(uid, folder));
    }
    let it = &items[0];
    match &it.body {
        None => Err(no_body_error(uid)),
        Some(body) => parse_message(
            body.as_slice(),
            uid,
            folder,
            body.len() as u32,
            it.is_read,
            it.is_starred,
            it.is_draft,
            None,
        ),
    }
}

/// The text of some bytes as UTF-8, each invalid sequence replaced by U+FFFD.
pub uninterp spec fn utf8_lossy(b: Seq<u8>) -> Seq<char>;

/// Relies on `String::from_utf8_lossy`: valid UTF-8 comes back as its text.
#[verifier::external_body]
pub(crate) fn lossy_text(b: &[u8]) -> (r: String)
    ensures
        r@ == utf8_lossy(b@),
        valid_utf8(b@) ==> r@ == decode_utf8(b@),
{
    String::from_utf8_lossy(b).into_owned()
}

/// The raw source of a message: the body of the first item, as text.
pub fn raw_source(items: &Vec<FetchedItem>, uid: u32, folder: &str) -> (r: Result<String, String>)
    ensures
        items@.len() == 0 ==> r is Err && r->Err_0@ == not_found_text(uid, folder@),
        items@.len() > 0 && items@[0].body is None ==> r is Err && r->Err_0@ == no_body_text(uid),
        items@.len() > 0 && items@[0].body is Some ==> r is Ok && r->Ok_0@ == utf8_lossy(
            items@[0].body.unwrap()@,
        ),
{
    if items.len() == 0 {
        return Err(not_found_error(uid, folder));
    }
    match &items[0].body {
        None => Err(no_body_error(uid)),
        Some(body) => Ok(lossy_text(body.as_slice())),
    }
}

/// `No response for UID <uid> part <part>`
pub open spec fn no_response_text(uid: u32, part: Seq<char>) -> Seq<char> {
    "No response for UID "@ + decimal_text(uid as nat) + " part "@ + part
}

/// The contents of one MIME part, standard base64: the body of the first item.
pub fn attachment_payload(items: &Vec<FetchedItem>, uid: u32, part_id: &str) -> (r: Result<
    String,
    String,
>)
    ensures
        items@.len() == 0 ==> r is Err && r->Err_0@ == no_response_text(uid, part_id@),
        items@.len() > 0 && items@[0].body is None ==> r is Err && r->Err_0@ == "No body data for part "@
            + part_id@,
        items@.len() > 0 && items@[0].body is Some ==> r is Ok && r->Ok_0@ == base64_standard(
            items@[0].body.unwrap()@,
        ),
{
    if items.len() == 0 {
        let mut s = "No response for UID ".to_owned();
        push_decimal(&mut s, uid as u64);
        s.append(" part ");
        s.append(part_id);
        return Err(s);
    }
    match &items[0].body {
        None => {
            let mut s = "No body data for part ".to_owned();
            s.append(part_id);
            Err(s)
        },
        Some(body) => Ok(encode_base64_standard(body.as_slice())),
    }
}

} // verus!

verus! {

/// The messages of a run whose bodies the MIME parser reads, in order.
pub open spec fn parsed_of(ms: Seq<(FetchHead, Seq<u8>)>) -> Seq<(FetchHead, Seq<u8>)>
    decreases ms.len(),
{
    if ms.len() == 0 {
        Seq::empty()
    } else if mime_parses(ms.last().1) {
        parsed_of(ms.drop_last()).push(ms.last())
    } else {
        parsed_of(ms.drop_last())
    }
}

/// `m` is the normal form of a message the raw engine kept from folder `folder`.
pub open spec fn kept_normalized(m: ImapMessage, k: (FetchHead, Seq<u8>), folder: Seq<char>) -> bool {
    normalized(
        m,
        k.1,
        k.0.uid,
        folder,
        k.1.len() as u32,
        k.0.is_read,
        k.0.is_starred,
        k.0.is_draft,
        k.0.internal_date,
    )
}

/// The messages of a whole `UID FETCH` response held in memory, normalised; a message
/// whose body the MIME parser cannot read is left out.
pub fn messages_from_transcript(data: &[u8], tag: &str, folder: &str) -> (r: Option<Vec<ImapMessage>>)
    ensures
        match run(data@, encode_utf8(tag@), 0, Phase::Lines) {
            None => r is None,
            Some(ms) => r is Some && r.unwrap()@.len() == parsed_of(ms).len() && forall|i: int|
                0 <= i < r.unwrap()@.len() ==> kept_normalized(
                    #[trigger] r.unwrap()@[i],
                    parsed_of(ms)[i],
                    folder@,
                ),
        },
{
    let raws = match read_fetch_transcript(data, tag) {
        Some(v) => v,
        None => return None,
    };
    let ghost ms = kept(raws@);
    let mut out: Vec<ImapMessage> = Vec::new();
    let mut i: usize = 0;
    while i < raws.len()
        invariant
            i <= raws@.len(),
            ms == kept(raws@),
            out@.len() == parsed_of(ms.subrange(0, i as int)).len(),
            forall|j: int|
                0 <= j < out@.len() ==> kept_normalized(
                    #[trigger] out@[j],
                    parsed_of(ms.subrange(0, i as int))[j],
                    folder@,
                ),
        decreases raws@.len() - i,
    {
        let m = &raws[i];
        let ghost pre = ms.subrange(0, i as int);
        let ghost post = ms.subrange(0, i + 1);
        assert(post.drop_last() =~= pre);
        assert(post.last() == ms[i as int]);
        match parse_message(
            m.body.as_slice(),
            m.uid,
            folder,
            m.body.len() as u32,
            m.is_read,
            m.is_starred,
            m.is_draft,
            m.internal_date,
        ) {
            Ok(msg) => {
                out.push(msg);
                assert(parsed_of(post) == parsed_of(pre).push(ms[i as int]));
            },
            Err(_) => {},
        }
        i = i + 1;
    }
    assert(ms.subrange(0, raws@.len() as int) =~= ms);
    Some(out)
}

/// A response of one message whose body the MIME parser reads yields exactly that one
/// message, normalised with the UID and flags its FETCH line announced.
pub proof fn lemma_one_message_end_to_end(
    l: Seq<u8>,
    b: Seq<u8>,
    c: Seq<u8>,
    t: Seq<u8>,
    tag: Seq<u8>,
    h: FetchHead,
)
    requires
        single_line(l),
        single_line(c),
        single_line(t),
        b.len() <= usize::MAX,
        fetch_line_of(l, tag) == (FetchLine::Message { head: h, literal: Some(b.len() as usize) }),
        tagged_status_of(t, tag) == TaggedStatus::Completed,
        mime_parses(b),
    ensures
        run(l + b + c + t, tag, 0, Phase::Lines) == Some(seq![(h, b)]),
        parsed_of(seq![(h, b)]) == seq![(h, b)],
{
    lemma_single_message_transcript(l, b, c, t, tag, h);
    let s = seq![(h, b)];
    let e = Seq::<(FetchHead, Seq<u8>)>::empty();
    assert(s.drop_last() =~= e);
    assert(s.last() == (h, b));
    assert(parsed_of(e) == e);
    assert(parsed_of(s) == parsed_of(e).push((h, b)));
    assert(e.push((h, b)) =~= s);
}

} // verus!
