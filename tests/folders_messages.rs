use mail_engine::assemble::{attachment_payload, fetch_result, is_fallback_signal, raw_source, single_message, FetchedItem};
use mail_engine::folder::{detect_special_use, display_name, folder_from_listing, special_use_by_name, NameAttribute};
use mail_engine::mime::MailAddr;
use mail_engine::normalize::{format_address_list, make_snippet, parse_message};
use mail_engine::types::ImapFolderStatus;

fn addr(name: Option<&str>, email: &str) -> MailAddr {
    MailAddr { name: name.map(|s| s.to_string()), address: Some(email.to_string()) }
}

fn item(uid: Option<u32>, body: Option<&[u8]>) -> FetchedItem {
    FetchedItem {
        uid,
        is_read: false,
        is_starred: true,
        is_draft: false,
        internal_date: Some(1000),
        body: body.map(|b| b.to_vec()),
    }
}

fn status(exists: u32) -> ImapFolderStatus {
    ImapFolderStatus { uidvalidity: 9, uidnext: 20, exists, unseen: 1, highest_modseq: Some(77) }
}

#[test]
fn sent_items_by_name() {
    assert_eq!(detect_special_use(&vec![], "Sent Items"), Some("\\Sent".to_string()));
    assert_eq!(special_use_by_name("corbeille"), Some("\\Trash".to_string()));
    assert_eq!(special_use_by_name("brouillons"), Some("\\Drafts".to_string()));
    assert_eq!(detect_special_use(&vec![], "INBOX"), Some("\\Inbox".to_string()));
    assert_eq!(detect_special_use(&vec![], "Projects"), None);
}

#[test]
fn trash_attribute_wins_over_name() {
    let attrs = vec![NameAttribute::Other, NameAttribute::Trash];
    assert_eq!(detect_special_use(&attrs, "Sent Items"), Some("\\Trash".to_string()));
    assert_eq!(detect_special_use(&attrs, "Whatever"), Some("\\Trash".to_string()));
}

#[test]
fn display_names_take_the_last_segment() {
    assert_eq!(display_name("INBOX/Work/2024", "/"), "2024");
    assert_eq!(display_name("INBOX.Отправленные", "."), "Отправленные");
    assert_eq!(display_name("INBOX", "/"), "INBOX");
    assert_eq!(display_name("a::b::c", "::"), "c");
}

#[test]
fn folder_from_listing_fills_every_field() {
    let f = folder_from_listing("INBOX/&BB4EQgQ,BEAEMAQyBDsENQQ9BD0ESwQ1-", "INBOX/Отправленные", None, &vec![NameAttribute::Sent], Some((4, None)));
    assert_eq!(f.name, "Отправленные");
    assert_eq!(f.delimiter, "/");
    assert_eq!(f.special_use, Some("\\Sent".to_string()));
    assert_eq!(f.exists, 4);
    assert_eq!(f.unseen, 0);
    assert_eq!(f.raw_path, "INBOX/&BB4EQgQ,BEAEMAQyBDsENQQ9BD0ESwQ1-");
    let g = folder_from_listing("Trash", "Trash", Some("."), &vec![], None);
    assert_eq!((g.exists, g.unseen), (0, 0));
    assert_eq!(g.special_use, Some("\\Trash".to_string()));
}

#[test]
fn address_formatting() {
    assert_eq!(format_address_list(Some(&vec![addr(Some("Ann Lee"), "ann@x.org")])), Some("Ann Lee <ann@x.org>".to_string()));
    assert_eq!(format_address_list(Some(&vec![addr(None, "bo@x.org")])), Some("bo@x.org".to_string()));
    assert_eq!(format_address_list(Some(&vec![addr(Some(""), "bo@x.org"), addr(Some("C"), "c@x.org")])), Some("bo@x.org, C <c@x.org>".to_string()));
    assert_eq!(format_address_list(Some(&vec![])), None);
    assert_eq!(format_address_list(None), None);
}

#[test]
fn snippet_truncation() {
    let long: String = std::iter::repeat('a').take(250).collect();
    let s = make_snippet(&long);
    assert_eq!(s.chars().count(), 203);
    assert_eq!(s, format!("{}...", &long[..200]));
    let short: String = std::iter::repeat('b').take(150).collect();
    assert_eq!(make_snippet(&short), short);
}

#[test]
fn snippet_collapses_whitespace_and_counts_characters() {
    assert_eq!(make_snippet("  Hello,\r\n\r\n  world\t! \n"), "Hello, world !");
    let wide: String = std::iter::repeat('é').take(201).collect();
    let s = make_snippet(&wide);
    assert_eq!(s.chars().count(), 203);
    assert!(s.ends_with("é..."));
    assert_eq!(make_snippet(""), "");
}

#[test]
fn message_normalisation() {
    let raw = b"From: \"Ann Lee\" <ann@x.org>\r\nTo: bo@x.org, Cy <cy@x.org>\r\nCc: dee@x.org\r\nSubject: =?UTF-8?Q?Caf=C3=A9?=\r\nMessage-ID: <id1@x.org>\r\nIn-Reply-To: <id0@x.org>\r\nReferences: <a@x.org> <b@x.org>\r\nList-Unsubscribe-Post: List-Unsubscribe=One-Click\r\nMIME-Version: 1.0\r\nContent-Type: multipart/mixed; boundary=\"XX\"\r\n\r\n--XX\r\nContent-Type: text/plain\r\n\r\nHello   there\r\n--XX\r\nContent-Type: application/pdf\r\nContent-Disposition: attachment; filename=\"a.pdf\"\r\n\r\nPDFDATA\r\n--XX\r\nContent-Type: image/png\r\nContent-Disposition: inline; filename=\"p.png\"\r\nContent-ID: <img1>\r\n\r\nPNG\r\n--XX--\r\n";
    let m = parse_message(raw, 11, "INBOX", raw.len() as u32, true, false, false, Some(555)).unwrap();
    assert_eq!(m.uid, 11);
    assert_eq!(m.subject.as_deref(), Some("Café"));
    assert_eq!(m.message_id.as_deref(), Some("id1@x.org"));
    assert_eq!(m.in_reply_to.as_deref(), Some("id0@x.org"));
    assert_eq!(m.references.as_deref(), Some("a@x.org b@x.org"));
    assert_eq!(m.from_address.as_deref(), Some("ann@x.org"));
    assert_eq!(m.from_name.as_deref(), Some("Ann Lee"));
    assert_eq!(m.to_addresses.as_deref(), Some("bo@x.org, Cy <cy@x.org>"));
    assert_eq!(m.cc_addresses.as_deref(), Some("dee@x.org"));
    assert_eq!(m.bcc_addresses, None);
    assert_eq!(m.date, 555);
    assert_eq!(m.snippet.as_deref(), Some("Hello there"));
    assert_eq!(m.list_unsubscribe_post.as_deref(), Some("List-Unsubscribe=One-Click"));
    assert_eq!(m.attachments.len(), 2);
    assert_eq!(m.attachments[0].part_id, "1");
    assert_eq!(m.attachments[0].filename, "a.pdf");
    assert_eq!(m.attachments[0].mime_type, "application/pdf");
    assert!(!m.attachments[0].is_inline);
    assert_eq!(m.attachments[1].part_id, "2");
    assert_eq!(m.attachments[1].mime_type, "image/png");
    assert_eq!(m.attachments[1].content_id.as_deref(), Some("img1"));
    assert!(m.attachments[1].is_inline);
}

#[test]
fn in_reply_to_list_is_joined() {
    let raw = b"Subject: re\r\nIn-Reply-To: <a@x.org> <b@x.org>\r\nReferences: <r1@x.org>\r\n\r\nbody";
    let m = parse_message(raw, 1, "F", 0, false, false, false, None).unwrap();
    assert_eq!(m.in_reply_to.as_deref(), Some("a@x.org b@x.org"));
    assert_eq!(m.references.as_deref(), Some("r1@x.org"));
}

#[test]
fn message_date_prefers_header_then_internal_date_then_zero() {
    let dated = b"Subject: x\r\nDate: Sat, 01 Jan 2000 00:00:00 +0000\r\n\r\nbody";
    assert_eq!(parse_message(dated, 1, "F", 0, false, false, false, Some(5)).unwrap().date, 946684800);
    let undated = b"Subject: x\r\n\r\nbody";
    assert_eq!(parse_message(undated, 1, "F", 0, false, false, false, Some(5)).unwrap().date, 5);
    assert_eq!(parse_message(undated, 1, "F", 0, false, false, false, None).unwrap().date, 0);
}

#[test]
fn empty_standard_fetch_of_full_mailbox_asks_for_fallback() {
    let err = fetch_result(&vec![], "Archive", status(3)).unwrap_err();
    assert_eq!(err, "ASYNC_IMAP_EMPTY:Archive");
    assert!(is_fallback_signal(&err));
    assert!(!is_fallback_signal("SELECT Archive failed"));
    let ok = fetch_result(&vec![], "Archive", status(0)).unwrap();
    assert!(ok.messages.is_empty());
    assert_eq!(ok.folder_status, status(0));
}

#[test]
fn malformed_items_are_skipped_not_fatal() {
    let good: &[u8] = b"Subject: ok\r\n\r\nhi";
    let items = vec![item(None, Some(good)), item(Some(2), None), item(Some(3), Some(good))];
    let r = fetch_result(&items, "INBOX", status(3)).unwrap();
    assert_eq!(r.messages.len(), 1);
    assert_eq!(r.messages[0].uid, 3);
    assert!(r.messages[0].is_starred);
    assert_eq!(r.messages[0].date, 1000);
    assert_eq!(r.folder_status.highest_modseq, Some(77));
}

#[test]
fn single_item_lookups() {
    assert_eq!(single_message(&vec![], 8, "INBOX").unwrap_err(), "Message UID 8 not found in INBOX");
    assert_eq!(single_message(&vec![item(Some(8), None)], 8, "INBOX").unwrap_err(), "No body for UID 8");
    let m = single_message(&vec![item(Some(8), Some(b"Subject: s\r\n\r\nb"))], 8, "INBOX").unwrap();
    assert_eq!(m.date, 0);
    assert_eq!(raw_source(&vec![item(Some(8), Some(b"ab\xffc"))], 8, "INBOX").unwrap(), "ab\u{fffd}c");
    assert_eq!(attachment_payload(&vec![item(Some(8), Some(b"hello"))], 8, "2").unwrap(), "aGVsbG8=");
    assert_eq!(attachment_payload(&vec![], 8, "2").unwrap_err(), "No response for UID 8 part 2");
    assert_eq!(attachment_payload(&vec![item(Some(8), None)], 8, "2").unwrap_err(), "No body data for part 2");
}
