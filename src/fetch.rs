//! The raw fallback engine's reading of tagged replies and of `UID FETCH` responses.
//!
//! The engine never touches a socket: it says what to read next (a line, or an exact
//! number of literal bytes) and is handed what was read. Whoever drives it performs
//! the reads, so a canned transcript drives it as well as a server does.
use vstd::prelude::*;
use vstd::string::StringSliceAdditionalSpecFns;
use crate::scan::{find, find_bytes, has_prefix, next_index, starts_with};
use crate::types::ImapFolderStatus;
use crate::wire::{
    bracket_number, bracket_number_in, untagged_number, untagged_number_in, extract_fetch_uid, extract_flags_from_fetch, extract_internal_date, extract_literal_size,
    fetch_flags, fetch_uid, internal_date, literal_size,
};
use vstd::utf8::{decode_utf8_encode_utf8, encode_utf8, valid_utf8};
use vstd::slice::slice_to_vec;
use crate::codec::text_from_utf8;

verus! {

/// `<tag> OK`, `<tag> NO` and `<tag> BAD`.
pub open spec fn tag_ok(tag: Seq<u8>) -> Seq<u8> {
    tag + seq![32u8, 79u8, 75u8]
}

pub open spec fn tag_no(tag: Seq<u8>) -> Seq<u8> {
    tag + seq![32u8, 78u8, 79u8]
}

pub open spec fn tag_bad(tag: Seq<u8>) -> Seq<u8> {
    tag + seq![32u8, 66u8, 65u8, 68u8]
}

/// How a line stands to the command sent under `tag`.
#[derive(Clone, Copy, Debug, PartialEq, Eq, Structural)]
pub enum TaggedStatus {
    /// The command completed: `<tag> OK ...`.
    Completed,
    /// The server refused it: `<tag> NO ...` or `<tag> BAD ...`.
    Refused,
    /// Any other line: untagged data or a continuation.
    Pending,
}

pub open spec fn tagged_status_of(line: Seq<u8>, tag: Seq<u8>) -> TaggedStatus {
    if starts_with(line, tag_ok(tag)) {
        TaggedStatus::Completed
    } else if starts_with(line, tag_no(tag)) || starts_with(line, tag_bad(tag)) {
        TaggedStatus::Refused
    } else {
        TaggedStatus::Pending
    }
}

fn with_suffix(tag: &[u8], suffix: &[u8]) -> (r: Vec<u8>)
    ensures
        r@ == tag@ + suffix@,
{
    let mut v: Vec<u8> = Vec::new();
    let mut i: usize = 0;
    while i < tag.len()
        invariant
            i <= tag@.len(),
            v@ == tag@.subrange(0, i as int),
        decreases tag@.len() - i,
    {
        v.push(tag[i]);
        i = i + 1;
        assert(v@ =~= tag@.subrange(0, i as int));
    }
    let mut j: usize = 0;
    while j < suffix.len()
        invariant
            j <= suffix@.len(),
            v@ == tag@ + suffix@.subrange(0, j as int),
        decreases suffix@.len() - j,
    {
        v.push(suffix[j]);
        j = j + 1;
        assert(v@ =~= tag@ + suffix@.subrange(0, j as int));
    }
    assert(suffix@.subrange(0, suffix@.len() as int) =~= suffix@);
    v
}

/// Whether `line` completes, refuses, or does not yet answer the command sent under `tag`.
pub fn tagged_status(line: &str, tag: &str) -> (r: TaggedStatus)
    ensures
        r == tagged_status_of(line.spec_bytes(), tag.spec_bytes()),
{
    let b = line.as_bytes();
    let t = tag.as_bytes();
    let ok: [u8; 3] = [32u8, 79u8, 75u8];
    let no: [u8; 3] = [32u8, 78u8, 79u8];
    let bad: [u8; 4] = [32u8, 66u8, 65u8, 68u8];
    let p_ok = with_suffix(t, ok.as_slice());
    let p_no = with_suffix(t, no.as_slice());
    let p_bad = with_suffix(t, bad.as_slice());
    if has_prefix(b, p_ok.as_slice()) {
        TaggedStatus::Completed
    } else if has_prefix(b, p_no.as_slice()) || has_prefix(b, p_bad.as_slice()) {
        TaggedStatus::Refused
    } else {
        TaggedStatus::Pending
    }
}

/// One message as the raw engine read it, before MIME decoding.
#[derive(Clone, Debug)]
pub struct RawFetchedMessage {
    pub uid: u32,
    pub is_read: bool,
    pub is_starred: bool,
    pub is_draft: bool,
    pub internal_date: Option<i64>,
    pub body: Vec<u8>,
}

/// What an untagged FETCH line announces about its message.
#[derive(Clone, Copy, Debug)]
pub struct FetchHead {
    pub uid: u32,
    pub is_read: bool,
    pub is_starred: bool,
    pub is_draft: bool,
    pub internal_date: Option<i64>,
}

/// The reading of one line of a `UID FETCH` response.
#[derive(Clone, Copy, Debug)]
pub enum FetchLine {
    /// `<tag> OK`: the response is complete.
    Finished,
    /// `<tag> NO` or `<tag> BAD`.
    Refused,
    /// Not an untagged FETCH line.
    Ignored,
    /// An untagged FETCH line without a usable UID; its literal, if any, must still
    /// be read past.
    NoUid { literal: Option<usize> },
    /// An untagged FETCH line with a UID, and the size of the literal it announces.
    Message { head: FetchHead, literal: Option<usize> },
}

/// `* `, `FETCH`, `\Seen`, `\Flagged`, `\Draft`.
pub open spec fn untagged_prefix() -> Seq<u8> {
    seq![42u8, 32u8]
}

pub open spec fn fetch_word() -> Seq<u8> {
    seq![70u8, 69u8, 84u8, 67u8, 72u8]
}

pub open spec fn seen_flag() -> Seq<u8> {
    seq![92u8, 83u8, 101u8, 101u8, 110u8]
}

pub open spec fn flagged_flag() -> Seq<u8> {
    seq![92u8, 70u8, 108u8, 97u8, 103u8, 103u8, 101u8, 100u8]
}

pub open spec fn draft_flag() -> Seq<u8> {
    seq![92u8, 68u8, 114u8, 97u8, 102u8, 116u8]
}

pub open spec fn contains(h: Seq<u8>, p: Seq<u8>) -> bool {
    find(h, p) is Some
}

pub open spec fn literal_of(line: Seq<u8>) -> Option<usize> {
    match literal_size(line, usize::MAX as u64) {
        Some(n) => Some(n as usize),
        None => None,
    }
}

/// The head that an untagged FETCH line with UID `uid` announces.
pub open spec fn head_of(line: Seq<u8>, uid: u32) -> FetchHead {
    let flags = fetch_flags(line);
    FetchHead {
        uid,
        is_read: contains(flags, seen_flag()),
        is_starred: contains(flags, flagged_flag()),
        is_draft: contains(flags, draft_flag()),
        internal_date: match internal_date(line) {
            Some(t) => Some(t as i64),
            None => None,
        },
    }
}

/// The reading of `line` in a FETCH response to the command sent under `tag`.
pub open spec fn fetch_line_of(line: Seq<u8>, tag: Seq<u8>) -> FetchLine {
    match tagged_status_of(line, tag) {
        TaggedStatus::Completed => FetchLine::Finished,
        TaggedStatus::Refused => FetchLine::Refused,
        TaggedStatus::Pending => {
            if !starts_with(line, untagged_prefix()) || !contains(line, fetch_word()) {
                FetchLine::Ignored
            } else {
                match fetch_uid(line) {
                    Some(u) if u != 0 => FetchLine::Message {
                        head: head_of(line, u),
                        literal: literal_of(line),
                    },
                    _ => FetchLine::NoUid { literal: literal_of(line) },
                }
            }
        },
    }
}

fn contains_bytes(h: &[u8], p: &[u8]) -> (r: bool)
    ensures
        r == contains(h@, p@),
{
    find_bytes(h, p).is_some()
}

/// Reads one line of a `UID FETCH` response: UID, flags, internal date and the size
/// of the literal that follows it.
pub fn classify_fetch_line(line: &str, tag: &str) -> (r: FetchLine)
    ensures
        r == fetch_line_of(line.spec_bytes(), tag.spec_bytes()),
{
    match tagged_status(line, tag) {
        TaggedStatus::Completed => FetchLine::Finished,
        TaggedStatus::Refused => FetchLine::Refused,
        TaggedStatus::Pending => {
            let b = line.as_bytes();
            let star: [u8; 2] = [42u8, 32u8];
            let word: [u8; 5] = [70u8, 69u8, 84u8, 67u8, 72u8];
            if !has_prefix(b, star.as_slice()) || !contains_bytes(b, word.as_slice()) {
                return FetchLine::Ignored;
            }
            let literal = extract_literal_size(line);
            match extract_fetch_uid(line) {
                Some(u) if u != 0 => {
                    let flags = extract_flags_from_fetch(line);
                    let fb = flags.as_str().as_bytes();
                    assert(fb@ == fetch_flags(line.spec_bytes()));
                    let seen: [u8; 5] = [92u8, 83u8, 101u8, 101u8, 110u8];
                    let flagged: [u8; 8] = [92u8, 70u8, 108u8, 97u8, 103u8, 103u8, 101u8, 100u8];
                    let draft: [u8; 6] = [92u8, 68u8, 114u8, 97u8, 102u8, 116u8];
                    let head = FetchHead {
                        uid: u,
                        is_read: contains_bytes(fb, seen.as_slice()),
                        is_starred: contains_bytes(fb, flagged.as_slice()),
                        is_draft: contains_bytes(fb, draft.as_slice()),
                        internal_date: extract_internal_date(line),
                    };
                    FetchLine::Message { head, literal }
                },
                _ => FetchLine::NoUid { literal },
            }
        },
    }
}

} // verus!

verus! {

/// What the engine needs next.
#[derive(Clone, Copy, Debug, PartialEq, Eq, Structural)]
pub enum FetchWant {
    /// One line, up to and including its line feed.
    Line,
    /// Exactly this many bytes, whatever they hold.
    Literal(usize),
    /// The response is complete; `messages` holds what was read.
    Finished,
    /// The server refused the command.
    Refused,
}

/// Where the engine stands in a FETCH response.
#[derive(Clone, Debug)]
pub enum FetchState {
    /// Between responses: reading lines.
    Lines,
    /// A message's literal of this size comes next.
    Body(FetchHead, usize),
    /// A literal of this size comes next and is to be dropped.
    Discard(usize),
    /// A message's literal was read; the rest of its line is to be dropped.
    Closing,
    Finished,
    /// Refused with this line.
    Refused(String),
}

/// A reader of one `UID FETCH ... BODY.PEEK[]` response, fed line by line and literal
/// by literal.
#[derive(Clone, Debug)]
pub struct FetchEngine {
    pub tag: String,
    pub state: FetchState,
    pub messages: Vec<RawFetchedMessage>,
}

pub open spec fn want_of(s: FetchState) -> FetchWant {
    match s {
        FetchState::Lines => FetchWant::Line,
        FetchState::Closing => FetchWant::Line,
        FetchState::Body(_, n) => FetchWant::Literal(n),
        FetchState::Discard(n) => FetchWant::Literal(n),
        FetchState::Finished => FetchWant::Finished,
        FetchState::Refused(_) => FetchWant::Refused,
    }
}

/// The state after a line read between responses; a refusal is left to `on_line`,
/// which keeps the line.
pub open spec fn state_after(l: FetchLine) -> FetchState {
    match l {
        FetchLine::Finished => FetchState::Finished,
        FetchLine::Refused => FetchState::Lines,
        FetchLine::Ignored => FetchState::Lines,
        FetchLine::NoUid { literal } => match literal {
            Some(n) => FetchState::Discard(n),
            None => FetchState::Lines,
        },
        FetchLine::Message { head, literal } => match literal {
            Some(n) => FetchState::Body(head, n),
            None => FetchState::Lines,
        },
    }
}

pub open spec fn message_of(h: FetchHead, body: Vec<u8>) -> RawFetchedMessage {
    RawFetchedMessage {
        uid: h.uid,
        is_read: h.is_read,
        is_starred: h.is_starred,
        is_draft: h.is_draft,
        internal_date: h.internal_date,
        body,
    }
}

/// An untagged FETCH line that ends in `{n}` makes the engine read exactly `n` bytes
/// next, whether it keeps them as a message body or drops them for want of a UID; a
/// kept body is exactly the bytes read; and after a body the engine reads lines again.
pub proof fn lemma_literal_framing(line: Seq<u8>, tag: Seq<u8>, h: FetchHead, data: Vec<u8>)
    requires
        tagged_status_of(line, tag) is Pending,
        starts_with(line, untagged_prefix()),
        contains(line, fetch_word()),
        literal_of(line) is Some,
    ensures
        want_of(state_after(fetch_line_of(line, tag))) == FetchWant::Literal(
            literal_of(line).unwrap(),
        ),
        message_of(h, data).body == data,
        want_of(FetchState::Closing) == FetchWant::Line,
{
}

impl FetchEngine {
    pub fn new(tag: &str) -> (r: FetchEngine)
        ensures
            r.tag@ == tag@,
            r.state is Lines,
            r.messages@.len() == 0,
    {
        FetchEngine { tag: tag.to_owned(), state: FetchState::Lines, messages: Vec::new() }
    }

    pub fn want(&self) -> (r: FetchWant)
        ensures
            r == want_of(self.state),
    {
        match &self.state {
            FetchState::Lines => FetchWant::Line,
            FetchState::Closing => FetchWant::Line,
            FetchState::Body(_, n) => FetchWant::Literal(*n),
            FetchState::Discard(n) => FetchWant::Literal(*n),
            FetchState::Finished => FetchWant::Finished,
            FetchState::Refused(_) => FetchWant::Refused,
        }
    }

    /// Takes the next line. After a message's literal the line is the rest of that
    /// response and is dropped; otherwise it is read as `classify_fetch_line` says.
    pub fn on_line(&mut self, line: &str)
        requires
            want_of(old(self).state) == FetchWant::Line,
        ensures
            final(self).tag == old(self).tag,
            final(self).messages@ == old(self).messages@,
            old(self).state is Closing ==> final(self).state is Lines,
            old(self).state is Lines ==> {
                let l = fetch_line_of(line.spec_bytes(), encode_utf8(old(self).tag@));
                if l is Refused {
                    final(self).state is Refused && final(self).state->Refused_0@ == line@
                } else {
                    final(self).state == state_after(l)
                }
            },
    {
        if let FetchState::Closing = self.state {
            self.state = FetchState::Lines;
            return;
        }
        let l = classify_fetch_line(line, self.tag.as_str());
        self.state = match l {
            FetchLine::Finished => FetchState::Finished,
            FetchLine::Refused => FetchState::Refused(line.to_owned()),
            FetchLine::Ignored => FetchState::Lines,
            FetchLine::NoUid { literal } => match literal {
                Some(n) => FetchState::Discard(n),
                None => FetchState::Lines,
            },
            FetchLine::Message { head, literal } => match literal {
                Some(n) => FetchState::Body(head, n),
                None => FetchState::Lines,
            },
        };
    }

    /// Takes the literal that `want` asked for: a message's body is kept with what its
    /// line announced; a literal of a line without UID is dropped.
    pub fn on_literal(&mut self, data: Vec<u8>)
        requires
            want_of(old(self).state) == FetchWant::Literal(data@.len() as usize),
        ensures
            final(self).tag == old(self).tag,
            match old(self).state {
                FetchState::Body(h, _) => {
                    &&& final(self).state is Closing
                    &&& final(self).messages@ == old(self).messages@.push(message_of(h, data))
                },
                _ => final(self).state is Lines && final(self).messages@ == old(self).messages@,
            },
    {
        match &self.state {
            FetchState::Body(h, _) => {
                let h = *h;
                let m = RawFetchedMessage {
                    uid: h.uid,
                    is_read: h.is_read,
                    is_starred: h.is_starred,
                    is_draft: h.is_draft,
                    internal_date: h.internal_date,
                    body: data,
                };
                self.messages.push(m);
                self.state = FetchState::Closing;
            },
            _ => {
                self.state = FetchState::Lines;
            },
        }
    }
}

} // verus!

verus! {

pub open spec fn exists_word() -> Seq<u8> {
    seq![69u8, 88u8, 73u8, 83u8, 84u8, 83u8]
}

pub open spec fn uidvalidity_word() -> Seq<u8> {
    seq![85u8, 73u8, 68u8, 86u8, 65u8, 76u8, 73u8, 68u8, 73u8, 84u8, 89u8]
}

pub open spec fn unseen_word() -> Seq<u8> {
    seq![85u8, 78u8, 83u8, 69u8, 69u8, 78u8]
}

/// What a SELECT reply tells of the mailbox, read line by line: `* <n> EXISTS`,
/// `[UIDVALIDITY <n>]`, `[UNSEEN <n>]`; a later line overrides an earlier one and
/// what no line gives stays zero.
pub open spec fn select_status_of(lines: Seq<Seq<u8>>) -> ImapFolderStatus
    decreases lines.len(),
{
    if lines.len() == 0 {
        ImapFolderStatus { uidvalidity: 0, uidnext: 0, exists: 0, unseen: 0, highest_modseq: None }
    } else {
        let prev = select_status_of(lines.drop_last());
        let l = lines.last();
        ImapFolderStatus {
            exists: match untagged_number(l, exists_word()) {
                Some(n) => n,
                None => prev.exists,
            },
            uidvalidity: match bracket_number(l, uidvalidity_word()) {
                Some(n) => n,
                None => prev.uidvalidity,
            },
            unseen: match bracket_number(l, unseen_word()) {
                Some(n) => n,
                None => prev.unseen,
            },
            ..prev
        }
    }
}

pub open spec fn lines_bytes(lines: Seq<String>) -> Seq<Seq<u8>> {
    lines.map_values(|s: String| encode_utf8(s@))
}

/// Gathers EXISTS, UIDVALIDITY and UNSEEN from the lines of a SELECT reply.
pub fn select_status(lines: &Vec<String>) -> (r: ImapFolderStatus)
    ensures
        r == select_status_of(lines_bytes(lines@)),
{
    let exists_kw: [u8; 6] = [69u8, 88u8, 73u8, 83u8, 84u8, 83u8];
    let validity_kw: [u8; 11] = [85u8, 73u8, 68u8, 86u8, 65u8, 76u8, 73u8, 68u8, 73u8, 84u8, 89u8];
    let unseen_kw: [u8; 6] = [85u8, 78u8, 83u8, 69u8, 69u8, 78u8];
    assert(exists_kw@ == exists_word());
    assert(validity_kw@ == uidvalidity_word());
    assert(unseen_kw@ == unseen_word());
    let mut st = ImapFolderStatus {
        uidvalidity: 0,
        uidnext: 0,
        exists: 0,
        unseen: 0,
        highest_modseq: None,
    };
    let mut i: usize = 0;
    while i < lines.len()
        invariant
            i <= lines@.len(),
            exists_kw@ == exists_word(),
            validity_kw@ == uidvalidity_word(),
            unseen_kw@ == unseen_word(),
            st == select_status_of(lines_bytes(lines@).subrange(0, i as int)),
        decreases lines@.len() - i,
    {
        let b = lines[i].as_str().as_bytes();
        let ghost prev = st;
        let ghost all = lines_bytes(lines@);
        proof {
            assert(all.subrange(0, i + 1).drop_last() =~= all.subrange(0, i as int));
            assert(all.subrange(0, i + 1).last() == b@);
        }
        let e = untagged_number_in(b, exists_kw.as_slice());
        let v = bracket_number_in(b, validity_kw.as_slice());
        let u = bracket_number_in(b, unseen_kw.as_slice());
        st = ImapFolderStatus {
            exists: match e {
                Some(n) => n,
                None => st.exists,
            },
            uidvalidity: match v {
                Some(n) => n,
                None => st.uidvalidity,
            },
            unseen: match u {
                Some(n) => n,
                None => st.unseen,
            },
            ..st
        };
        i = i + 1;
    }
    assert(lines_bytes(lines@).subrange(0, lines@.len() as int) =~= lines_bytes(lines@));
    st
}

} // verus!

verus! {

/// Where the engine stands, as far as what it reads next and keeps is concerned.
pub ghost enum Phase {
    Lines,
    Body(FetchHead, usize),
    Discard(usize),
    Closing,
    Finished,
    Refused,
}

pub open spec fn phase_of(s: FetchState) -> Phase {
    match s {
        FetchState::Lines => Phase::Lines,
        FetchState::Body(h, n) => Phase::Body(h, n),
        FetchState::Discard(n) => Phase::Discard(n),
        FetchState::Closing => Phase::Closing,
        FetchState::Finished => Phase::Finished,
        FetchState::Refused(_) => Phase::Refused,
    }
}

/// The phase after a line read in phase `ph`.
pub open spec fn phase_after_line(ph: Phase, line: Seq<u8>, tag: Seq<u8>) -> Phase {
    match ph {
        Phase::Closing => Phase::Lines,
        _ => match fetch_line_of(line, tag) {
            FetchLine::Refused => Phase::Refused,
            l => phase_of(state_after(l)),
        },
    }
}

/// Where the line that starts at `pos` ends: just past its line feed, or at the end.
pub open spec fn line_end(data: Seq<u8>, pos: int) -> int {
    let e = next_index(data, pos, data.len() as int, 10u8);
    if e < data.len() {
        e + 1
    } else {
        e
    }
}

pub open spec fn phase_rank(ph: Phase) -> int {
    match ph {
        Phase::Body(_, _) => 1,
        Phase::Discard(_) => 1,
        _ => 0,
    }
}

/// The messages, as head and body, that the engine keeps when it reads the transcript
/// `data` from `pos` on in phase `ph`; `None` when the transcript ends early, holds a
/// line that is not UTF-8, or the server refuses the command.
pub open spec fn run(data: Seq<u8>, tag: Seq<u8>, pos: int, ph: Phase) -> Option<
    Seq<(FetchHead, Seq<u8>)>,
>
    decreases data.len() - pos, phase_rank(ph),
{
    if pos < 0 || pos > data.len() {
        None
    } else {
        match ph {
            Phase::Finished => Some(Seq::empty()),
            Phase::Refused => None,
            Phase::Body(h, n) => if data.len() - pos < n {
                None
            } else {
                match run(data, tag, pos + n, Phase::Closing) {
                    Some(rest) => Some(seq![(h, data.subrange(pos, pos + n))] + rest),
                    None => None,
                }
            },
            Phase::Discard(n) => if data.len() - pos < n {
                None
            } else {
                run(data, tag, pos + n, Phase::Lines)
            },
            _ => {
                let e = line_end(data, pos);
                let l = data.subrange(pos, e);
                if pos >= data.len() || e <= pos || e > data.len() || !valid_utf8(l) {
                    None
                } else {
                    run(data, tag, e, phase_after_line(ph, l, tag))
                }
            },
        }
    }
}

pub open spec fn kept(msgs: Seq<RawFetchedMessage>) -> Seq<(FetchHead, Seq<u8>)> {
    msgs.map_values(
        |m: RawFetchedMessage|
            (
                FetchHead {
                    uid: m.uid,
                    is_read: m.is_read,
                    is_starred: m.is_starred,
                    is_draft: m.is_draft,
                    internal_date: m.internal_date,
                },
                m.body@,
            ),
    )
}

pub open spec fn after(acc: Seq<(FetchHead, Seq<u8>)>, rest: Option<Seq<(FetchHead, Seq<u8>)>>) -> Option<
    Seq<(FetchHead, Seq<u8>)>,
> {
    match rest {
        Some(r) => Some(acc + r),
        None => None,
    }
}

/// Reads a whole `UID FETCH` response held in memory: lines up to their line feed,
/// literals byte for byte, as `FetchEngine` asks.
pub fn read_fetch_transcript(data: &[u8], tag: &str) -> (r: Option<Vec<RawFetchedMessage>>)
    ensures
        match run(data@, encode_utf8(tag@), 0, Phase::Lines) {
            Some(ms) => r is Some && kept(r.unwrap()@) == ms,
            None => r is None,
        },
{
    let n = data.len();
    let mut engine = FetchEngine::new(tag);
    let ghost t = encode_utf8(tag@);
    let mut pos: usize = 0;
    assert(kept(engine.messages@) =~= Seq::<(FetchHead, Seq<u8>)>::empty());
    loop
        invariant
            pos <= n == data@.len(),
            engine.tag@ == tag@,
            t == encode_utf8(tag@),
            run(data@, t, 0, Phase::Lines) == after(
                kept(engine.messages@),
                run(data@, t, pos as int, phase_of(engine.state)),
            ),
        decreases n - pos, phase_rank(phase_of(engine.state)),
    {
        let ghost before = kept(engine.messages@);
        match engine.want() {
            FetchWant::Finished => {
                assert(before + Seq::<(FetchHead, Seq<u8>)>::empty() =~= before);
                return Some(engine.messages);
            },
            FetchWant::Refused => {
                return None;
            },
            FetchWant::Line => {
                if pos >= n {
                    return None;
                }
                let e0 = find_from_byte(data, pos, 10u8);
                let e = if e0 < n { e0 + 1 } else { e0 };
                let line = slice_to_vec(&data[pos..e]);
                match text_from_utf8(line) {
                    None => {
                        return None;
                    },
                    Some(text) => {
                        proof {
                            decode_utf8_encode_utf8(data@.subrange(pos as int, e as int));
                        }
                        let ts = text.as_str();
                        assert(ts.spec_bytes() == data@.subrange(pos as int, e as int));
                        engine.on_line(ts);
                        pos = e;
                    },
                }
            },
            FetchWant::Literal(k) => {
                if n - pos < k {
                    return None;
                }
                let body = slice_to_vec(&data[pos..pos + k]);
                let ghost ph = phase_of(engine.state);
                engine.on_literal(body);
                proof {
                    if let Phase::Body(h, _) = ph {
                        assert(kept(engine.messages@) =~= before.push((h, data@.subrange(pos as int, pos + k))));
                        let rest = run(data@, t, pos + k, Phase::Closing);
                        if let Some(rs) = rest {
                            assert(before + (seq![(h, data@.subrange(pos as int, pos + k))] + rs)
                                =~= before.push((h, data@.subrange(pos as int, pos + k))) + rs);
                        }
                    }
                }
                pos = pos + k;
            },
        }
    }
}

fn find_from_byte(b: &[u8], lo: usize, c: u8) -> (r: usize)
    requires
        lo <= b@.len(),
    ensures
        r == next_index(b@, lo as int, b@.len() as int, c),
        lo <= r <= b@.len(),
{
    let hi = b.len();
    let mut k: usize = lo;
    while k < hi && b[k] != c
        invariant
            lo <= k <= hi == b@.len(),
            next_index(b@, lo as int, hi as int, c) == next_index(b@, k as int, hi as int, c),
        decreases hi - k,
    {
        k = k + 1;
    }
    k
}

/// One line: it ends in its only line feed and is UTF-8.
pub open spec fn single_line(x: Seq<u8>) -> bool {
    &&& x.len() > 0
    &&& x.last() == 10u8
    &&& forall|i: int| 0 <= i < x.len() - 1 ==> x[i] != 10u8
    &&& valid_utf8(x)
}

proof fn lemma_next_index_at(b: Seq<u8>, lo: int, hi: int, c: u8, k: int)
    requires
        lo <= k < hi,
        b[k] == c,
        forall|i: int| lo <= i < k ==> b[i] != c,
    ensures
        next_index(b, lo, hi, c) == k,
    decreases k - lo,
{
    if lo < k {
        lemma_next_index_at(b, lo + 1, hi, c, k);
    }
}

proof fn lemma_line_at(data: Seq<u8>, pos: int, x: Seq<u8>)
    requires
        0 <= pos,
        pos + x.len() <= data.len(),
        data.subrange(pos, pos + x.len()) == x,
        single_line(x),
    ensures
        line_end(data, pos) == pos + x.len(),
        data.subrange(pos, line_end(data, pos)) == x,
{
    let k = pos + x.len() - 1;
    assert forall|i: int| pos <= i < k implies data[i] != 10u8 by {
        assert(data[i] == x[i - pos]);
    }
    assert(data[k] == x[x.len() - 1]);
    lemma_next_index_at(data, pos, data.len() as int, 10u8, k);
}

/// A FETCH line announcing `{N}` for a message, then N bytes of any kind, then the rest
/// of that response's line: the engine keeps exactly the N bytes as the message's body
/// and goes on reading lines right after.
pub proof fn lemma_literal_message(
    data: Seq<u8>,
    tag: Seq<u8>,
    pos: int,
    l: Seq<u8>,
    b: Seq<u8>,
    c: Seq<u8>,
    h: FetchHead,
)
    requires
        0 <= pos,
        pos + l.len() + b.len() + c.len() <= data.len(),
        data.subrange(pos, pos + l.len() + b.len() + c.len()) == l + b + c,
        single_line(l),
        single_line(c),
        b.len() <= usize::MAX,
        fetch_line_of(l, tag) == (FetchLine::Message { head: h, literal: Some(b.len() as usize) }),
    ensures
        run(data, tag, pos, Phase::Lines) == after(
            seq![(h, b)],
            run(data, tag, pos + l.len() + b.len() + c.len(), Phase::Lines),
        ),
{
    let body_at = pos + l.len();
    let closing_at = body_at + b.len();
    let next_at = closing_at + c.len();
    let all = l + b + c;
    assert(data.subrange(pos, body_at) =~= all.subrange(0, l.len() as int));
    assert(all.subrange(0, l.len() as int) =~= l);
    assert(data.subrange(body_at, closing_at) =~= b) by {
        assert(data.subrange(body_at, closing_at) =~= all.subrange(l.len() as int, (l.len() + b.len()) as int));
    }
    assert(data.subrange(closing_at, next_at) =~= c) by {
        assert(data.subrange(closing_at, next_at) =~= all.subrange((l.len() + b.len()) as int, all.len() as int));
    }
    lemma_line_at(data, pos, l);
    lemma_line_at(data, closing_at, c);
    let n = b.len() as usize;
    assert(phase_after_line(Phase::Lines, l, tag) == Phase::Body(h, n));
    assert(run(data, tag, closing_at, Phase::Closing) == run(data, tag, next_at, Phase::Lines));
    assert(run(data, tag, body_at, Phase::Body(h, n)) == after(seq![(h, b)], run(data, tag, next_at, Phase::Lines)));
    assert(run(data, tag, pos, Phase::Lines) == run(data, tag, body_at, Phase::Body(h, n)));
}

/// The tagged `OK` line ends the response: nothing more is kept.
pub proof fn lemma_tagged_end(data: Seq<u8>, tag: Seq<u8>, pos: int, t: Seq<u8>)
    requires
        0 <= pos,
        pos + t.len() <= data.len(),
        data.subrange(pos, pos + t.len()) == t,
        single_line(t),
        tagged_status_of(t, tag) == TaggedStatus::Completed,
    ensures
        run(data, tag, pos, Phase::Lines) == Some(Seq::<(FetchHead, Seq<u8>)>::empty()),
{
    lemma_line_at(data, pos, t);
    let e = pos + t.len();
    assert(phase_after_line(Phase::Lines, t, tag) == Phase::Finished);
    assert(run(data, tag, e, Phase::Finished) == Some(Seq::<(FetchHead, Seq<u8>)>::empty()));
    assert(run(data, tag, pos, Phase::Lines) == run(data, tag, e, Phase::Finished));
}

/// A response of one message, `line ++ B ++ closing ++ tagged OK`, yields exactly that
/// message with body `B`, whatever bytes (line feeds included) `B` holds.
pub proof fn lemma_single_message_transcript(
    l: Seq<u8>,
    b: Seq<u8>,
    c: Seq<u8>,
    t: Seq<u8>,
    tag: Seq<u8>,
    h: FetchHead,
)
    requires
        single_line(l),
        single_line(c),
        single_line(t),
        b.len() <= usize::MAX,
        fetch_line_of(l, tag) == (FetchLine::Message { head: h, literal: Some(b.len() as usize) }),
        tagged_status_of(t, tag) == TaggedStatus::Completed,
    ensures
        run(l + b + c + t, tag, 0, Phase::Lines) == Some(seq![(h, b)]),
{
    let data = l + b + c + t;
    let next_at = (l.len() + b.len() + c.len()) as int;
    assert(data.subrange(0, next_at) =~= l + b + c);
    assert(data.subrange(next_at, next_at + t.len() as int) =~= t);
    lemma_literal_message(data, tag, 0, l, b, c, h);
    lemma_tagged_end(data, tag, next_at, t);
    assert(seq![(h, b)] + Seq::<(FetchHead, Seq<u8>)>::empty() =~= seq![(h, b)]);
}

} // verus!
