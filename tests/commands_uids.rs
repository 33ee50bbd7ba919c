use mail_engine::command::{flag_list, login_command, store_query, xoauth2_string, XOAuth2};
use mail_engine::connect::{first_update_step, next_update_step, UpdateStep, imap_security, new_uids_query, part_query, smtp_security, uses_oauth2, Security, connection_summary};
use mail_engine::types::ImapConfig;
use mail_engine::uids::{ascending_uids, new_uids_after, uid_set_for_fetch, uid_set_for_update, uid_set_string};

fn config(auth: &str) -> ImapConfig {
    ImapConfig {
        host: "mail.example.org".to_string(),
        port: 993,
        security: "tls".to_string(),
        username: "user@example.org".to_string(),
        password: "tok".to_string(),
        auth_method: auth.to_string(),
        accept_invalid_certs: false,
    }
}

#[test]
fn flags_with_or_without_backslash_agree() {
    let bare = flag_list(&vec!["Seen".to_string()]);
    let prefixed = flag_list(&vec!["\\Seen".to_string()]);
    assert_eq!(bare, prefixed);
    assert_eq!(bare, "(\\Seen)");
}

#[test]
fn flag_lists_and_store_queries() {
    let flags = vec!["Seen".to_string(), "\\Flagged".to_string()];
    assert_eq!(flag_list(&flags), "(\\Seen \\Flagged)");
    assert_eq!(store_query(true, &flags), "+FLAGS (\\Seen \\Flagged)");
    assert_eq!(store_query(false, &vec!["Deleted".to_string()]), "-FLAGS (\\Deleted)");
    assert_eq!(flag_list(&vec![]), "()");
}

#[test]
fn empty_uid_list_is_no_update_and_a_fetch_error() {
    assert_eq!(uid_set_for_update(&vec![]), None);
    assert_eq!(uid_set_for_fetch(&vec![]), Err("No UIDs provided".to_string()));
    assert_eq!(uid_set_for_update(&vec![3, 1]), Some("3,1".to_string()));
    assert_eq!(uid_set_for_fetch(&vec![10]), Ok("10".to_string()));
}

#[test]
fn uid_sets_are_comma_joined() {
    assert_eq!(uid_set_string(&vec![1, 5, 10, 20]), "1,5,10,20");
    assert_eq!(uid_set_string(&vec![0, 4294967295]), "0,4294967295");
    assert_eq!(uid_set_string(&vec![]), "");
}

#[test]
fn new_uids_exclude_the_boundary() {
    assert_eq!(new_uids_after(&vec![100], 100), Vec::<u32>::new());
    assert_eq!(new_uids_after(&vec![104, 100, 101, 104, 99], 100), vec![101, 104]);
}

#[test]
fn all_uids_ascending_without_duplicates() {
    assert_eq!(ascending_uids(&vec![9, 3, 3, 7, 1, 9]), vec![1, 3, 7, 9]);
    assert_eq!(ascending_uids(&vec![]), Vec::<u32>::new());
}

#[test]
fn search_range_after_last_uid() {
    assert_eq!(new_uids_query(41), Some("42:*".to_string()));
    assert_eq!(new_uids_query(u32::MAX), None);
    assert_eq!(part_query("2.1"), "BODY.PEEK[2.1]");
}

#[test]
fn login_and_xoauth2_commands() {
    assert_eq!(login_command(&config("password"), "a1"), "a1 LOGIN \"user@example.org\" \"tok\"\r\n");
    let expected_b64 = "dXNlcj11c2VyQGV4YW1wbGUub3JnAWF1dGg9QmVhcmVyIHRvawEB";
    assert_eq!(
        login_command(&config("oauth2"), "a1"),
        format!("a1 AUTHENTICATE XOAUTH2 {expected_b64}\r\n")
    );
    assert_eq!(xoauth2_string("u", "t"), "user=u\u{1}auth=Bearer t\u{1}\u{1}");
}

#[test]
fn xoauth2_answers_once_then_empty() {
    let mut a = XOAuth2::new("u", "t");
    assert_eq!(a.process(b""), b"user=u\x01auth=Bearer t\x01\x01".to_vec());
    assert_eq!(a.process(b"error"), Vec::<u8>::new());
}

#[test]
fn security_modes() {
    assert_eq!(imap_security("tls"), Ok(Security::Tls));
    assert_eq!(imap_security("starttls"), Ok(Security::StartTls));
    assert_eq!(imap_security("none"), Ok(Security::Plain));
    assert_eq!(
        imap_security("ssl"),
        Err("Unknown security mode: ssl. Use \"tls\", \"starttls\", or \"none\".".to_string())
    );
    assert_eq!(smtp_security("ssl"), Security::Plain);
    assert!(uses_oauth2("oauth2"));
    assert!(!uses_oauth2("password"));
    assert_eq!(connection_summary(3), "Connected successfully. Found 3 folder(s).");
}

#[test]
fn move_falls_back_to_copy_store_expunge() {
    let mut step = first_update_step(true);
    assert_eq!(step, UpdateStep::Move);
    step = next_update_step(step, false);
    assert_eq!(step, UpdateStep::Copy);
    step = next_update_step(step, true);
    assert_eq!(step, UpdateStep::StoreDeleted);
    step = next_update_step(step, true);
    assert_eq!(step, UpdateStep::Expunge);
    assert_eq!(next_update_step(step, true), UpdateStep::Done);
    assert_eq!(next_update_step(UpdateStep::Copy, false), UpdateStep::Failed);
    assert_eq!(next_update_step(UpdateStep::Move, true), UpdateStep::Done);
    assert_eq!(first_update_step(false), UpdateStep::StoreDeleted);
}
