//! What the MIME parser (mail-parser) reads out of a raw RFC 5322 message, as plain
//! values. Each reading parses the bytes anew and is named by a function of those
//! bytes alone.
use vstd::prelude::*;
use mail_parser::{HeaderValue, MimeHeaders};
use crate::types::opt_view;

verus! {

/// One mailbox of an address header.
#[derive(Clone, Debug)]
pub struct MailAddr {
    pub name: Option<String>,
    pub address: Option<String>,
}

/// A header's value in the forms this engine reads.
#[derive(Clone, Debug)]
pub enum HeaderField {
    Text(String),
    TextList(Vec<String>),
    /// The mailboxes of an address list, groups flattened in order.
    Addresses(Vec<MailAddr>),
    /// A date, as seconds since the Unix epoch.
    Timestamp(i64),
    /// A value of another form.
    Other,
    /// The message has no such header.
    Absent,
}

/// One attachment as the parser describes it.
#[derive(Clone, Debug)]
pub struct MimeAttachment {
    pub content_type: Option<String>,
    pub content_subtype: Option<String>,
    pub name: Option<String>,
    pub size: usize,
    pub content_id: Option<String>,
    /// Whether the Content-Disposition says inline; `None` without one.
    pub disposition_inline: Option<bool>,
}

pub ghost struct MailAddrView {
    pub name: Option<Seq<char>>,
    pub address: Option<Seq<char>>,
}

pub ghost enum HeaderFieldView {
    Text(Seq<char>),
    TextList(Seq<Seq<char>>),
    Addresses(Seq<MailAddrView>),
    Timestamp(i64),
    Other,
    Absent,
}

pub ghost struct MimeAttachmentView {
    pub content_type: Option<Seq<char>>,
    pub content_subtype: Option<Seq<char>>,
    pub name: Option<Seq<char>>,
    pub size: usize,
    pub content_id: Option<Seq<char>>,
    pub disposition_inline: Option<bool>,
}

impl View for MailAddr {
    type V = MailAddrView;

    open spec fn view(&self) -> MailAddrView {
        MailAddrView { name: opt_view(self.name), address: opt_view(self.address) }
    }
}

impl View for HeaderField {
    type V = HeaderFieldView;

    open spec fn view(&self) -> HeaderFieldView {
        match self {
            HeaderField::Text(t) => HeaderFieldView::Text(t@),
            HeaderField::TextList(l) => HeaderFieldView::TextList(l@.map_values(|s: String| s@)),
            HeaderField::Addresses(a) => HeaderFieldView::Addresses(
                a@.map_values(|m: MailAddr| m@),
            ),
            HeaderField::Timestamp(t) => HeaderFieldView::Timestamp(*t),
            HeaderField::Other => HeaderFieldView::Other,
            HeaderField::Absent => HeaderFieldView::Absent,
        }
    }
}

impl View for MimeAttachment {
    type V = MimeAttachmentView;

    open spec fn view(&self) -> MimeAttachmentView {
        MimeAttachmentView {
            content_type: opt_view(self.content_type),
            content_subtype: opt_view(self.content_subtype),
            name: opt_view(self.name),
            size: self.size,
            content_id: opt_view(self.content_id),
            disposition_inline: self.disposition_inline,
        }
    }
}

/// Whether the parser reads `raw` as a message at all.
pub uninterp spec fn mime_parses(raw: Seq<u8>) -> bool;

/// The value of the last header called `name` (letter case aside) of the message.
pub uninterp spec fn mime_header(raw: Seq<u8>, name: Seq<char>) -> HeaderFieldView;

/// The first text body, HTML converted to text where there is only HTML.
pub uninterp spec fn mime_body_text(raw: Seq<u8>) -> Option<Seq<char>>;

/// The first HTML body, text converted to HTML where there is only text.
pub uninterp spec fn mime_body_html(raw: Seq<u8>) -> Option<Seq<char>>;

/// How many attachments the parser found.
pub uninterp spec fn mime_attachment_count(raw: Seq<u8>) -> nat;

/// The attachment at position `i`, counted from 0.
pub uninterp spec fn mime_attachment(raw: Seq<u8>, i: nat) -> Option<MimeAttachmentView>;

/// Relies on mail-parser's `MessageParser::parse`: `Some` exactly when it reads a message.
#[verifier::external_body]
pub(crate) fn parses(raw: &[u8]) -> (r: bool)
    ensures
        r == mime_parses(raw@),
{
    mail_parser::MessageParser::default().parse(raw).is_some()
}

/// Relies on mail-parser's `Message::header`, which takes the last header of that name
/// (letter case aside), on its `HeaderValue` variants, converted one for one, and on
/// `DateTime::to_timestamp` for dates. Bytes that are no message have no headers.
#[verifier::external_body]
pub(crate) fn header(raw: &[u8], name: &str) -> (r: HeaderField)
    ensures
        r@ == mime_header(raw@, name@),
{
    let m = mail_parser::MessageParser::default().parse(raw);
    match m.as_ref().and_then(|m| m.header(name)) {
        Some(HeaderValue::Text(t)) => HeaderField::Text(t.to_string()),
        Some(HeaderValue::TextList(l)) => HeaderField::TextList(l.iter().map(|s| s.to_string()).collect()),
        Some(HeaderValue::Address(a)) => HeaderField::Addresses(a.iter().map(|x| MailAddr {
            name: x.name().map(String::from),
            address: x.address().map(String::from),
        }).collect()),
        Some(HeaderValue::DateTime(d)) => HeaderField::Timestamp(d.to_timestamp()),
        Some(_) => HeaderField::Other,
        None => HeaderField::Absent,
    }
}

/// Relies on mail-parser's `Message::body_text(0)`.
#[verifier::external_body]
pub(crate) fn body_text(raw: &[u8]) -> (r: Option<String>)
    ensures
        opt_view(r) == mime_body_text(raw@),
{
    let m = mail_parser::MessageParser::default().parse(raw)?;
    let r = m.body_text(0).map(|s| s.to_string());
    r
}

/// Relies on mail-parser's `Message::body_html(0)`.
#[verifier::external_body]
pub(crate) fn body_html(raw: &[u8]) -> (r: Option<String>)
    ensures
        opt_view(r) == mime_body_html(raw@),
{
    let m = mail_parser::MessageParser::default().parse(raw)?;
    let r = m.body_html(0).map(|s| s.to_string());
    r
}

/// Relies on mail-parser's `Message::attachment_count`; bytes that are no message have
/// no attachments.
#[verifier::external_body]
pub(crate) fn attachment_count(raw: &[u8]) -> (r: usize)
    ensures
        r as nat == mime_attachment_count(raw@),
{
    mail_parser::MessageParser::default().parse(raw).map_or(0, |m| m.attachment_count())
}

/// Relies on mail-parser's `Message::attachment` and the part's `content_type`,
/// `attachment_name`, `len`, `content_id` and `content_disposition`.
#[verifier::external_body]
pub(crate) fn attachment(raw: &[u8], i: usize) -> (r: Option<MimeAttachment>)
    ensures
        match r {
            Some(a) => mime_attachment(raw@, i as nat) == Some(a@),
            None => mime_attachment(raw@, i as nat) is None,
        },
{
    let m = mail_parser::MessageParser::default().parse(raw)?;
    let a = m.attachment(i)?;
    Some(MimeAttachment {
        content_type: a.content_type().map(|c| c.ctype().to_string()),
        content_subtype: a.content_type().and_then(|c| c.subtype()).map(String::from),
        name: a.attachment_name().map(String::from),
        size: a.len(),
        content_id: a.content_id().map(String::from),
        disposition_inline: a.content_disposition().map(|d| d.is_inline()),
    })
}

} // verus!
