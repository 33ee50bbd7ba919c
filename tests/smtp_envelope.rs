use mail_engine::smtp::{decode_base64url, extract_envelope, prepare_send};

#[test]
fn test_decode_base64url_valid() {
    // "Hello" in base64url
    let encoded = "SGVsbG8";
    let decoded = decode_base64url(encoded).unwrap();
    assert_eq!(decoded, b"Hello");
}

#[test]
fn test_decode_base64url_invalid() {
    let result = decode_base64url("!!!invalid!!!");
    assert!(result.is_err());
    assert!(result.unwrap_err().contains("Base64 decode error"));
}

#[test]
fn test_extract_envelope_valid() {
    let raw = b"From: alice@example.com\r\nTo: bob@example.com\r\nCc: carol@example.com\r\nSubject: Test\r\n\r\nBody";
    let envelope = extract_envelope(raw).unwrap();
    // Envelope should have from and 2 recipients (To + Cc)
    assert!(envelope.from().is_some());
    assert_eq!(envelope.to().len(), 2);
}

#[test]
fn test_extract_envelope_no_from() {
    let raw = b"To: bob@example.com\r\nSubject: Test\r\n\r\nBody";
    let result = extract_envelope(raw);
    assert!(result.is_err());
    assert!(result.unwrap_err().contains("No From address"));
}

#[test]
fn test_extract_envelope_no_recipients() {
    let raw = b"From: alice@example.com\r\nSubject: Test\r\n\r\nBody";
    let result = extract_envelope(raw);
    assert!(result.is_err());
    assert!(result.unwrap_err().contains("No recipients found"));
}

#[test]
fn test_extract_envelope_with_bcc() {
    let raw = b"From: alice@example.com\r\nTo: bob@example.com\r\nBcc: secret@example.com\r\nSubject: Test\r\n\r\nBody";
    let envelope = extract_envelope(raw).unwrap();
    assert_eq!(envelope.to().len(), 2);
}

#[test]
fn envelope_lists_to_cc_bcc_in_order() {
    let raw = b"From: Alice <alice@example.com>\r\nTo: bob@example.com, Dan <dan@example.com>\r\nCc: carol@example.com\r\nBcc: eve@example.com\r\n\r\nBody";
    let envelope = extract_envelope(raw).unwrap();
    assert_eq!(envelope.from().unwrap(), "alice@example.com");
    assert_eq!(
        envelope.to(),
        &vec![
            "bob@example.com".to_string(),
            "dan@example.com".to_string(),
            "carol@example.com".to_string(),
            "eve@example.com".to_string()
        ]
    );
}

#[test]
fn envelope_refuses_invalid_sender() {
    let raw = b"From: <alice@>\r\nTo: bob@example.com\r\n\r\nBody";
    let err = extract_envelope(raw).unwrap_err();
    assert!(err.starts_with("Invalid From address 'alice@'"), "{}", err);
}

#[test]
fn base64url_decodes_url_alphabet() {
    // bytes 0xfb 0xff in base64url, unpadded
    assert_eq!(decode_base64url("-_8").unwrap(), vec![0xfbu8, 0xff]);
}

#[test]
fn prepare_send_decodes_and_extracts() {
    // "From: a@b.example\r\nTo: c@d.example\r\n\r\nHi" in base64url
    let raw = "From: a@b.example\r\nTo: c@d.example\r\n\r\nHi";
    let encoded = "RnJvbTogYUBiLmV4YW1wbGUNClRvOiBjQGQuZXhhbXBsZQ0KDQpIaQ";
    let (bytes, envelope) = prepare_send(encoded).unwrap();
    assert_eq!(bytes, raw.as_bytes());
    assert_eq!(envelope.to(), &vec!["c@d.example".to_string()]);
}
