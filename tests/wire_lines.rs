use mail_engine::date::{is_leap_year, parse_imap_date};
use mail_engine::fetch::{select_status, tagged_status, TaggedStatus};
use mail_engine::wire::{
    extract_bracket_number, extract_fetch_uid, extract_flags_from_fetch, extract_internal_date,
    extract_literal_size, parse_untagged_number,
};

#[test]
fn calendar_epoch_of_2000() {
    assert_eq!(parse_imap_date("01-Jan-2000 00:00:00 +0000"), Some(946684800));
}

#[test]
fn calendar_leap_day_2024_parses() {
    assert_eq!(parse_imap_date("29-Feb-2024 12:00:00 +0000"), Some(1709208000));
}

#[test]
fn calendar_leap_day_2023_rejected() {
    assert_eq!(parse_imap_date("29-Feb-2023 12:00:00 +0000"), None);
}

#[test]
fn calendar_offsets_are_subtracted() {
    assert_eq!(parse_imap_date("16-Feb-2026 12:00:00 +0530"), Some(1771223400));
    assert_eq!(parse_imap_date("16-Feb-2026 12:00:00 -0800"), Some(1771272000));
    assert_eq!(parse_imap_date("16-Feb-2026 12:00:00"), Some(1771243200));
}

#[test]
fn calendar_single_digit_day_and_case() {
    assert_eq!(parse_imap_date(" 1-JAN-2000 00:00:00 +0000"), Some(946684800));
}

#[test]
fn calendar_lenient_time_and_zone() {
    assert_eq!(parse_imap_date("1-Jan-2000 0:0:0 +0000"), Some(946684800));
    assert_eq!(parse_imap_date("16-Feb-2026 12:00:00 +000"), Some(1771243200));
    assert_eq!(parse_imap_date("16-Feb-2026 12:00:00 GMT"), Some(1771243200));
    assert_eq!(parse_imap_date("16-Feb-2026 12:00:00 0530"), Some(1771223400));
    assert_eq!(parse_imap_date("29-Feb-2023 1:2:3"), None);
}

#[test]
fn calendar_before_epoch() {
    assert_eq!(parse_imap_date("31-Dec-1969 23:59:59 +0000"), Some(-1));
    assert_eq!(parse_imap_date("01-Mar-1900 00:00:00 +0000"), Some(-2203891200));
}

#[test]
fn calendar_rejects_malformed() {
    assert_eq!(parse_imap_date("32-Jan-2000 00:00:00 +0000"), None);
    assert_eq!(parse_imap_date("01-Foo-2000 00:00:00 +0000"), None);
    assert_eq!(parse_imap_date("01-Jan-2000 24:00:00 +0000"), None);
    assert_eq!(parse_imap_date("01-Jan-2000"), None);
    assert_eq!(parse_imap_date(""), None);
}

#[test]
fn leap_year_rule() {
    assert!(is_leap_year(2000));
    assert!(is_leap_year(2024));
    assert!(!is_leap_year(1900));
    assert!(!is_leap_year(2023));
    assert!(is_leap_year(-4));
}

#[test]
fn untagged_numbers() {
    assert_eq!(parse_untagged_number("* 3 EXISTS\r\n", "EXISTS"), Some(3));
    assert_eq!(parse_untagged_number("* 0 RECENT", "RECENT"), Some(0));
    assert_eq!(parse_untagged_number("* OK [UIDVALIDITY 5]", "EXISTS"), None);
    assert_eq!(parse_untagged_number("a2 3 EXISTS", "EXISTS"), None);
    assert_eq!(parse_untagged_number("* EXISTS", "EXISTS"), None);
}

#[test]
fn bracket_numbers() {
    assert_eq!(extract_bracket_number("* OK [UIDVALIDITY 12345] UIDs valid", "UIDVALIDITY"), Some(12345));
    assert_eq!(extract_bracket_number("* OK [UNSEEN 7]", "UNSEEN"), Some(7));
    assert_eq!(extract_bracket_number("* OK [UNSEEN 7", "UNSEEN"), None);
    assert_eq!(extract_bracket_number("* OK [UIDNEXT 9]", "UNSEEN"), None);
}

#[test]
fn fetch_line_fields() {
    let line = "* 1 FETCH (UID 123 FLAGS (\\Seen \\Flagged) INTERNALDATE \"16-Feb-2026 12:00:00 +0000\" BODY[] {1234}\r\n";
    assert_eq!(extract_fetch_uid(line), Some(123));
    assert_eq!(extract_flags_from_fetch(line), "\\Seen \\Flagged");
    assert_eq!(extract_internal_date(line), Some(1771243200));
    assert_eq!(extract_literal_size(line), Some(1234));
}

#[test]
fn fetch_line_without_fields() {
    let line = "* 1 FETCH (FLAGS ()\r\n";
    assert_eq!(extract_fetch_uid(line), None);
    assert_eq!(extract_flags_from_fetch(line), "");
    assert_eq!(extract_internal_date(line), None);
    assert_eq!(extract_literal_size(line), None);
    assert_eq!(extract_flags_from_fetch("* 2 FETCH (UID 4 FLAGS (Sent \\Seen"), "");
    assert_eq!(extract_flags_from_fetch("* 2 FETCH (FLAGS (Sent é))"), "Sent é");
}

#[test]
fn literal_sizes() {
    assert_eq!(extract_literal_size("BODY[] {0}\r\n"), Some(0));
    assert_eq!(extract_literal_size("BODY[] {+7}"), Some(7));
    assert_eq!(extract_literal_size("BODY[] {}"), None);
    assert_eq!(extract_literal_size("BODY[] {12x}"), None);
    assert_eq!(extract_literal_size("{65536}   "), Some(65536));
}

#[test]
fn tagged_statuses() {
    assert_eq!(tagged_status("a1 OK LOGIN completed\r\n", "a1"), TaggedStatus::Completed);
    assert_eq!(tagged_status("a1 NO bad password\r\n", "a1"), TaggedStatus::Refused);
    assert_eq!(tagged_status("a1 BAD syntax\r\n", "a1"), TaggedStatus::Refused);
    assert_eq!(tagged_status("* OK still here\r\n", "a1"), TaggedStatus::Pending);
    assert_eq!(tagged_status("a12 OK\r\n", "a1"), TaggedStatus::Pending);
}

#[test]
fn select_reply_scavenging() {
    let lines = vec![
        "* 172 EXISTS\r\n".to_string(),
        "* 1 RECENT\r\n".to_string(),
        "* OK [UNSEEN 12] Message 12 is first unseen\r\n".to_string(),
        "* OK [UIDVALIDITY 3857529045] UIDs valid\r\n".to_string(),
        "a2 OK [READ-WRITE] SELECT completed\r\n".to_string(),
    ];
    let st = select_status(&lines);
    assert_eq!(st.exists, 172);
    assert_eq!(st.unseen, 12);
    assert_eq!(st.uidvalidity, 3857529045);
    assert_eq!(st.uidnext, 0);
    assert_eq!(st.highest_modseq, None);
}
