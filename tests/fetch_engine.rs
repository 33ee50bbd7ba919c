use mail_engine::assemble::{item_from_raw, messages_from_transcript, normalize_items};
use mail_engine::command::{login_command, select_command, fetch_command};
use mail_engine::connect::reply_contains_ok;
use mail_engine::fetch::{read_fetch_transcript, FetchEngine, FetchWant, RawFetchedMessage};
use mail_engine::types::ImapConfig;

/// Feeds a canned server transcript to the engine, handing it at most `chunk` bytes of
/// socket data at a time, as a reader over a socket would receive them.
fn drive(transcript: &[u8], chunk: usize) -> (FetchEngine, usize) {
    let mut engine = FetchEngine::new("a3");
    let mut pos = 0usize;
    loop {
        match engine.want() {
            FetchWant::Line => {
                let mut line = Vec::new();
                while pos < transcript.len() {
                    let end = (pos + chunk).min(transcript.len());
                    let piece = &transcript[pos..end];
                    match piece.iter().position(|b| *b == b'\n') {
                        Some(k) => {
                            line.extend_from_slice(&piece[..=k]);
                            pos += k + 1;
                            break;
                        }
                        None => {
                            line.extend_from_slice(piece);
                            pos = end;
                        }
                    }
                }
                if line.is_empty() {
                    break;
                }
                engine.on_line(&String::from_utf8(line).unwrap());
            }
            FetchWant::Literal(n) => {
                let mut data = Vec::new();
                while data.len() < n {
                    let take = (n - data.len()).min(chunk);
                    data.extend_from_slice(&transcript[pos..pos + take]);
                    pos += take;
                }
                engine.on_literal(data);
            }
            FetchWant::Finished | FetchWant::Refused => break,
        }
    }
    (engine, pos)
}

fn transcript_with_literal(body: &[u8]) -> Vec<u8> {
    let mut t = Vec::new();
    t.extend_from_slice(
        format!(
            "* 1 FETCH (UID 42 FLAGS (\\Seen \\Draft) INTERNALDATE \"01-Jan-2000 00:00:00 +0000\" BODY[] {{{}}}\r\n",
            body.len()
        )
        .as_bytes(),
    );
    t.extend_from_slice(body);
    t.extend_from_slice(b")\r\n");
    t.extend_from_slice(b"* 2 FETCH (UID 43 FLAGS () BODY[] {3}\r\nxyz)\r\n");
    t.extend_from_slice(b"a3 OK UID FETCH completed\r\n");
    t
}

fn check_literal_of_size(n: usize, chunk: usize) {
    let body: Vec<u8> = (0..n).map(|i| if i % 7 == 3 { b'\n' } else if i % 7 == 2 { b'\r' } else { (i % 251) as u8 }).collect();
    let t = transcript_with_literal(&body);
    let (engine, used) = drive(&t, chunk);
    assert_eq!(engine.want(), FetchWant::Finished);
    assert_eq!(used, t.len());
    assert_eq!(engine.messages.len(), 2);
    let m: &RawFetchedMessage = &engine.messages[0];
    assert_eq!(m.uid, 42);
    assert!(m.is_read && m.is_draft && !m.is_starred);
    assert_eq!(m.internal_date, Some(946684800));
    assert_eq!(m.body, body);
    assert_eq!(engine.messages[1].uid, 43);
    assert_eq!(engine.messages[1].body, b"xyz".to_vec());
}

#[test]
fn literal_of_zero_bytes() {
    check_literal_of_size(0, 4096);
}

#[test]
fn literal_of_one_byte() {
    check_literal_of_size(1, 4096);
}

#[test]
fn literal_of_65536_bytes() {
    check_literal_of_size(65536, 4096);
}

#[test]
fn literal_spanning_many_reads() {
    check_literal_of_size(10_000, 7);
}

#[test]
fn literal_without_uid_is_skipped_in_sync() {
    let t = b"* 1 FETCH (FLAGS (\\Seen) BODY[] {13}\r\n* 9 FETCH (\r\n)\r\n* 2 FETCH (UID 5 BODY[] {2}\r\nok)\r\na3 OK done\r\n";
    let (engine, used) = drive(t, 3);
    assert_eq!(engine.want(), FetchWant::Finished);
    assert_eq!(used, t.len());
    assert_eq!(engine.messages.len(), 1);
    assert_eq!(engine.messages[0].uid, 5);
    assert_eq!(engine.messages[0].body, b"ok".to_vec());
}

#[test]
fn refused_fetch_keeps_the_line() {
    let t = b"* OK still working\r\na3 NO [SERVERBUG] cannot fetch\r\n";
    let (engine, _) = drive(t, 64);
    assert_eq!(engine.want(), FetchWant::Refused);
    match &engine.state {
        mail_engine::fetch::FetchState::Refused(l) => assert_eq!(l, "a3 NO [SERVERBUG] cannot fetch\r\n"),
        other => panic!("unexpected state {:?}", other),
    }
}

#[test]
fn starttls_password_session_yields_one_message() {
    let config = ImapConfig {
        host: "imap.example.com".to_string(),
        port: 143,
        security: "starttls".to_string(),
        username: "alice".to_string(),
        password: "secret".to_string(),
        auth_method: "password".to_string(),
        accept_invalid_certs: false,
    };
    assert!(reply_contains_ok("* OK IMAP4rev1 ready\r\n"));
    assert!(reply_contains_ok("a0 OK Begin TLS negotiation now\r\n"));
    assert_eq!(login_command(&config, "a1"), "a1 LOGIN \"alice\" \"secret\"\r\n");
    assert_eq!(select_command("a2", "INBOX"), "a2 SELECT \"INBOX\"\r\n");
    assert_eq!(
        fetch_command("a3", "7"),
        "a3 UID FETCH 7 (UID FLAGS INTERNALDATE BODY.PEEK[])\r\n"
    );
    let mime = b"From: Bob <bob@example.com>\r\nTo: alice@example.com\r\nSubject: Hello there\r\nDate: Sat, 01 Jan 2000 00:00:00 +0000\r\nMessage-ID: <m1@example.com>\r\n\r\nHi Alice,\r\nsee you soon.\r\n";
    let mut t = Vec::new();
    t.extend_from_slice(format!("* 1 FETCH (UID 7 FLAGS (\\Seen \\Flagged) BODY[] {{{}}}\r\n", mime.len()).as_bytes());
    t.extend_from_slice(mime);
    t.extend_from_slice(b")\r\na3 OK FETCH completed\r\n");
    let (engine, _) = drive(&t, 5);
    assert_eq!(engine.want(), FetchWant::Finished);
    let items: Vec<_> = engine.messages.into_iter().map(item_from_raw).collect();
    let messages = normalize_items(&items, "INBOX");
    assert_eq!(messages.len(), 1);
    let m = &messages[0];
    assert_eq!(m.uid, 7);
    assert!(m.is_read && m.is_starred && !m.is_draft);
    assert_eq!(m.subject.as_deref(), Some("Hello there"));
    assert_eq!(m.body_text.as_deref(), Some("Hi Alice,\r\nsee you soon.\r\n"));
    assert_eq!(m.snippet.as_deref(), Some("Hi Alice, see you soon."));
    assert_eq!(m.date, 946684800);
    assert_eq!(m.from_address.as_deref(), Some("bob@example.com"));
    assert_eq!(m.from_name.as_deref(), Some("Bob"));
    assert_eq!(m.folder, "INBOX");
    assert_eq!(m.raw_size as usize, mime.len());
}

#[test]
fn in_memory_transcript_reads_literals_exactly() {
    for n in [0usize, 1, 65536] {
        let body: Vec<u8> = (0..n).map(|i| if i % 5 == 1 { b'\n' } else { b'x' }).collect();
        let t = transcript_with_literal(&body);
        let msgs = read_fetch_transcript(&t, "a3").unwrap();
        assert_eq!(msgs.len(), 2);
        assert_eq!(msgs[0].uid, 42);
        assert_eq!(msgs[0].body, body);
        assert_eq!(msgs[1].body, b"xyz".to_vec());
    }
}

#[test]
fn in_memory_transcript_failures() {
    assert!(read_fetch_transcript(b"* 1 FETCH (UID 3 BODY[] {10}\r\nshort", "a3").is_none());
    assert!(read_fetch_transcript(b"a3 BAD nope\r\n", "a3").is_none());
    assert!(read_fetch_transcript(b"* 1 EXISTS\r\n", "a3").is_none());
    assert_eq!(read_fetch_transcript(b"a3 OK\r\n", "a3").unwrap().len(), 0);
}

#[test]
fn in_memory_transcript_to_one_message() {
    let mime = b"From: Bob <bob@example.com>\r\nSubject: Hello there\r\n\r\nHi Alice,\r\nsee you.\r\n";
    let mut t = Vec::new();
    t.extend_from_slice(format!("* 1 FETCH (UID 42 FLAGS (\\Seen) BODY[] {{{}}}\r\n", mime.len()).as_bytes());
    t.extend_from_slice(mime);
    t.extend_from_slice(b")\r\na3 OK FETCH completed\r\n");
    let msgs = messages_from_transcript(&t, "a3", "INBOX").unwrap();
    assert_eq!(msgs.len(), 1);
    assert_eq!(msgs[0].uid, 42);
    assert!(msgs[0].is_read && !msgs[0].is_starred && !msgs[0].is_draft);
    assert_eq!(msgs[0].subject.as_deref(), Some("Hello there"));
    assert_eq!(msgs[0].body_text.as_deref(), Some("Hi Alice,\r\nsee you.\r\n"));
    assert_eq!(msgs[0].raw_size as usize, mime.len());
}
