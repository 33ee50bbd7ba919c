//! The SMTP side: the envelope of a fully formed message and the decoding of the
//! base64url form in which outgoing messages arrive.
use vstd::prelude::*;
use crate::codec::{base64url_bytes, decode_base64url_no_pad};
use crate::mime::{header, mime_header, mime_parses, parses, HeaderField, MailAddrView};
use crate::normalize::{addr_views, field_addresses, first_address};

verus! {

/// Whether lettre accepts some text as a mailbox address (`user@domain`).
pub uninterp spec fn sendable_address(s: Seq<char>) -> bool;

/// Relies on lettre's `Address: FromStr`: `Ok` exactly when the text is an address it
/// can send to, else its description of the fault.
#[verifier::external_body]
pub(crate) fn check_address(s: &str) -> (r: Result<(), String>)
    ensures
        r is Ok <==> sendable_address(s@),
{
    s.parse::<lettre::Address>().map(|_| ()).map_err(|e| e.to_string())
}

/// Sender and recipients for the SMTP transaction, taken from the message's headers.
#[derive(Clone, Debug)]
pub struct Envelope {
    pub sender: String,
    pub recipients: Vec<String>,
}

impl Envelope {
    /// The sender, always present in an extracted envelope.
    pub fn from(&self) -> (r: Option<&String>)
        ensures
            r == Some(&self.sender),
    {
        Some(&self.sender)
    }

    pub fn to(&self) -> (r: &Vec<String>)
        ensures
            r == &self.recipients,
    {
        &self.recipients
    }
}

/// The addresses of a list that lettre accepts, in order; entries without an address
/// or with one it refuses are passed over.
pub open spec fn sendable_of(l: Seq<MailAddrView>) -> Seq<Seq<char>>
    decreases l.len(),
{
    if l.len() == 0 {
        Seq::empty()
    } else {
        let rest = sendable_of(l.drop_last());
        match l.last().address {
            Some(a) if sendable_address(a) => rest.push(a),
            _ => rest,
        }
    }
}

pub open spec fn header_recipients(raw: Seq<u8>, name: Seq<char>) -> Seq<Seq<char>> {
    match field_addresses(mime_header(raw, name)) {
        Some(l) => sendable_of(l),
        None => Seq::empty(),
    }
}

/// Everyone the message goes to: To, then Cc, then Bcc.
pub open spec fn envelope_recipients(raw: Seq<u8>) -> Seq<Seq<char>> {
    header_recipients(raw, "To"@) + header_recipients(raw, "Cc"@) + header_recipients(raw, "Bcc"@)
}

fn push_sendable(out: &mut Vec<String>, f: &HeaderField)
    ensures
        out_texts(final(out)@) == out_texts(old(out)@) + match field_addresses(f@) {
            Some(l) => sendable_of(l),
            None => Seq::empty(),
        },
{
    if let HeaderField::Addresses(list) = f {
        let ghost start = out_texts(out@);
        let mut i: usize = 0;
        while i < list.len()
            invariant
                i <= list@.len(),
                out_texts(out@) == start + sendable_of(addr_views(list@).subrange(0, i as int)),
            decreases list@.len() - i,
        {
            let ghost pre = addr_views(list@).subrange(0, i as int);
            assert(addr_views(list@).subrange(0, i + 1).drop_last() =~= pre);
            assert(addr_views(list@)[i as int] == list@[i as int]@);
            if let Some(a) = &list[i].address {
                if check_address(a.as_str()).is_ok() {
                    let ghost before = out@;
                    out.push(a.clone());
                    assert(out_texts(out@) =~= out_texts(before).push(a@));
                    assert(addr_views(list@).subrange(0, i + 1).last().address == Some(a@));
                    assert(out_texts(out@) =~= start + sendable_of(
                        addr_views(list@).subrange(0, i + 1),
                    ));
                }
            }
            i = i + 1;
        }
        assert(addr_views(list@).subrange(0, list@.len() as int) =~= addr_views(list@));
    } else {
        assert(out_texts(out@) =~= out_texts(out@) + Seq::<Seq<char>>::empty());
    }
}

pub open spec fn out_texts(v: Seq<String>) -> Seq<Seq<char>> {
    v.map_values(|s: String| s@)
}

/// Extracts the envelope from a raw message: the first From address, which must be
/// sendable, and every sendable To, Cc and Bcc address, of which there must be one.
pub fn extract_envelope(raw: &[u8]) -> (r: Result<Envelope, String>)
    ensures
        !mime_parses(raw@) ==> r is Err && r->Err_0@ == "Failed to parse email for envelope extraction"@,
        mime_parses(raw@) ==> {
            let from = first_address(field_addresses(mime_header(raw@, "From"@))).0;
            &&& from is None ==> r is Err && r->Err_0@ == "No From address found in email"@
            &&& from is Some && !sendable_address(from.unwrap()) ==> r is Err && {
                let head = "Invalid From address '"@ + from.unwrap() + "': "@;
                r->Err_0@.len() >= head.len() && r->Err_0@.subrange(0, head.len() as int) == head
            }
            &&& from is Some && sendable_address(from.unwrap()) && envelope_recipients(raw@).len()
                == 0 ==> r is Err && r->Err_0@ == "No recipients found in email"@
            &&& from is Some && sendable_address(from.unwrap()) && envelope_recipients(raw@).len()
                > 0 ==> r is Ok && r->Ok_0.sender@ == from.unwrap() && out_texts(
                r->Ok_0.recipients@,
            ) == envelope_recipients(raw@)
        },
{
    if !parses(raw) {
        return Err("Failed to parse email for envelope extraction".to_owned());
    }
    let from_field = header(raw, "From");
    let from = match &from_field {
        HeaderField::Addresses(l) => {
            if l.len() > 0 {
                assert(addr_views(l@)[0] == l@[0]@);
                l[0].address.clone()
            } else {
                None
            }
        },
        _ => None,
    };
    let sender = match from {
        Some(a) => a,
        None => return Err("No From address found in email".to_owned()),
    };
    if let Err(e) = check_address(sender.as_str()) {
        let mut msg = "Invalid From address '".to_owned();
        msg.append(sender.as_str());
        msg.append("': ");
        let ghost head = msg@;
        msg.append(e.as_str());
        assert(msg@.subrange(0, head.len() as int) =~= head);
        return Err(msg);
    }
    let mut recipients: Vec<String> = Vec::new();
    assert(out_texts(recipients@) =~= Seq::<Seq<char>>::empty());
    push_sendable(&mut recipients, &header(raw, "To"));
    push_sendable(&mut recipients, &header(raw, "Cc"));
    push_sendable(&mut recipients, &header(raw, "Bcc"));
    if recipients.len() == 0 {
        return Err("No recipients found in email".to_owned());
    }
    Ok(Envelope { sender, recipients })
}

/// Decodes an outgoing message given in unpadded base64url, as webmail exports do.
pub fn decode_base64url(input: &str) -> (r: Result<Vec<u8>, String>)
    ensures
        r is Ok <==> base64url_bytes(input@) is Some,
        r is Ok ==> r->Ok_0@ == base64url_bytes(input@).unwrap(),
        r is Err ==> r->Err_0@.len() >= 21 && r->Err_0@.subrange(0, 21) == "Base64 decode error: "@,
{
    match decode_base64url_no_pad(input) {
        Ok(v) => Ok(v),
        Err(e) => {
            let mut msg = "Base64 decode error: ".to_owned();
            proof {
                reveal_strlit("Base64 decode error: ");
            }
            msg.append(e.as_str());
            assert(msg@.subrange(0, 21) =~= "Base64 decode error: "@);
            Err(msg)
        },
    }
}

/// Decodes a message to append, given in unpadded base64url.
pub fn base64url_decode(input: &str) -> (r: Result<Vec<u8>, String>)
    ensures
        r is Ok <==> base64url_bytes(input@) is Some,
        r is Ok ==> r->Ok_0@ == base64url_bytes(input@).unwrap(),
        r is Err ==> r->Err_0@.len() >= 25 && r->Err_0@.subrange(0, 25) == "base64url decode failed: "@,
{
    match decode_base64url_no_pad(input) {
        Ok(v) => Ok(v),
        Err(e) => {
            let mut msg = "base64url decode failed: ".to_owned();
            proof {
                reveal_strlit("base64url decode failed: ");
            }
            msg.append(e.as_str());
            assert(msg@.subrange(0, 25) =~= "base64url decode failed: "@);
            Err(msg)
        },
    }
}

/// The sender of a raw message: the address of the first entry of its From header.
pub open spec fn envelope_sender(raw: Seq<u8>) -> Option<Seq<char>> {
    first_address(field_addresses(mime_header(raw, "From"@))).0
}

/// A raw message can be sent: it parses, its sender is an address lettre accepts, and
/// it names at least one recipient lettre accepts.
pub open spec fn envelope_ok(raw: Seq<u8>) -> bool {
    &&& mime_parses(raw)
    &&& envelope_sender(raw) is Some
    &&& sendable_address(envelope_sender(raw).unwrap())
    &&& envelope_recipients(raw).len() > 0
}

/// What an SMTP send needs: the decoded message and its envelope. It succeeds exactly
/// when the text decodes and the message it holds can be sent.
pub fn prepare_send(raw_email_base64url: &str) -> (r: Result<(Vec<u8>, Envelope), String>)
    ensures
        match base64url_bytes(raw_email_base64url@) {
            None => r is Err,
            Some(b) => {
                &&& (r is Ok <==> envelope_ok(b))
                &&& r is Ok ==> {
                    &&& r->Ok_0.0@ == b
                    &&& r->Ok_0.1.sender@ == envelope_sender(b).unwrap()
                    &&& out_texts(r->Ok_0.1.recipients@) == envelope_recipients(b)
                }
            },
        },
{
    let raw = decode_base64url(raw_email_base64url)?;
    let envelope = extract_envelope(raw.as_slice())?;
    Ok((raw, envelope))
}

} // verus!
