//! Decisions of connection set-up and of the standard command layer that need no
//! socket: transport security, authentication method, STARTTLS acceptance, and the
//! arguments of SEARCH and partial FETCH.
use vstd::prelude::*;
use vstd::string::StringSliceAdditionalSpecFns;
use crate::command::same_text;
use crate::fetch::contains;
use crate::scan::find_bytes;
use crate::uids::{decimal_text, push_decimal};

verus! {

/// Where TLS stands on a connection.
#[derive(Clone, Copy, Debug, PartialEq, Eq, Structural)]
pub enum Security {
    /// TLS from the first byte.
    Tls,
    /// Plain text until STARTTLS, then TLS on the same socket.
    StartTls,
    /// Plain text throughout.
    Plain,
}

/// The security mode an IMAP configuration names; any other name is an error.
pub fn imap_security(mode: &str) -> (r: Result<Security, String>)
    ensures
        mode@ == "tls"@ <==> r == Ok::<Security, String>(Security::Tls),
        mode@ == "starttls"@ <==> r == Ok::<Security, String>(Security::StartTls),
        mode@ == "none"@ <==> r == Ok::<Security, String>(Security::Plain),
        r is Err ==> r->Err_0@ == "Unknown security mode: "@ + mode@
            + ". Use \"tls\", \"starttls\", or \"none\"."@,
{
    proof {
        reveal_strlit("tls");
        reveal_strlit("starttls");
        reveal_strlit("none");
        assert("tls"@.len() != "starttls"@.len());
        assert("starttls"@.len() != "none"@.len());
        assert("tls"@[0] != "none"@[0]);
    }
    if same_text(mode, "tls") {
        Ok(Security::Tls)
    } else if same_text(mode, "starttls") {
        Ok(Security::StartTls)
    } else if same_text(mode, "none") {
        Ok(Security::Plain)
    } else {
        let mut e = "Unknown security mode: ".to_owned();
        e.append(mode);
        e.append(". Use \"tls\", \"starttls\", or \"none\".");
        Err(e)
    }
}

/// The security mode of an SMTP configuration: anything but `tls` and `starttls` is
/// plain text.
pub fn smtp_security(mode: &str) -> (r: Security)
    ensures
        r == (if mode@ == "tls"@ {
            Security::Tls
        } else if mode@ == "starttls"@ {
            Security::StartTls
        } else {
            Security::Plain
        }),
{
    if same_text(mode, "tls") {
        Security::Tls
    } else if same_text(mode, "starttls") {
        Security::StartTls
    } else {
        Security::Plain
    }
}

/// Whether an account authenticates with an OAuth2 token (XOAUTH2) rather than a
/// password.
pub fn uses_oauth2(auth_method: &str) -> (r: bool)
    ensures
        r == (auth_method@ == "oauth2"@),
{
    same_text(auth_method, "oauth2")
}

/// `OK`
pub open spec fn ok_word() -> Seq<u8> {
    seq![79u8, 75u8]
}

/// Whether a server greeting or STARTTLS reply carries `OK` anywhere.
pub fn reply_contains_ok(text: &str) -> (r: bool)
    ensures
        r == contains(text.spec_bytes(), ok_word()),
{
    let w: [u8; 2] = [79u8, 75u8];
    assert(w@ == ok_word());
    find_bytes(text.as_bytes(), w.as_slice()).is_some()
}

/// The UID SEARCH range of messages newer than `last_uid`: `<last_uid + 1>:*`. There
/// is none past the largest UID.
pub fn new_uids_query(last_uid: u32) -> (r: Option<String>)
    ensures
        last_uid == u32::MAX <==> r is None,
        r is Some ==> r.unwrap()@ == decimal_text((last_uid + 1) as nat) + ":*"@,
{
    if last_uid == u32::MAX {
        return None;
    }
    let mut s = String::new();
    push_decimal(&mut s, (last_uid as u64) + 1);
    s.append(":*");
    Some(s)
}

/// The FETCH item for one MIME part: `BODY.PEEK[<part>]`.
pub fn part_query(part_id: &str) -> (r: String)
    ensures
        r@ == "BODY.PEEK["@ + part_id@ + "]"@,
{
    let mut s = "BODY.PEEK[".to_owned();
    s.append(part_id);
    s.append("]");
    s
}

/// The report of a successful connection test.
pub fn connection_summary(folders: u64) -> (r: String)
    ensures
        r@ == "Connected successfully. Found "@ + decimal_text(folders as nat) + " folder(s)."@,
{
    let mut s = "Connected successfully. Found ".to_owned();
    push_decimal(&mut s, folders);
    s.append(" folder(s).");
    s
}

/// A step of moving or deleting messages in the selected folder.
#[derive(Clone, Copy, Debug, PartialEq, Eq, Structural)]
pub enum UpdateStep {
    /// `UID MOVE` to the destination.
    Move,
    /// `UID COPY` to the destination.
    Copy,
    /// `UID STORE +FLAGS (\Deleted)`.
    StoreDeleted,
    /// `EXPUNGE`.
    Expunge,
    Done,
    Failed,
}

/// The step after `step`, by whether it succeeded. A refused MOVE falls back to COPY,
/// then flagging Deleted, then EXPUNGE. That fallback is not atomic: a failure after
/// the COPY leaves the messages in both folders, and nothing here undoes the copy.
pub open spec fn next_step(step: UpdateStep, succeeded: bool) -> UpdateStep {
    match step {
        UpdateStep::Move => if succeeded {
            UpdateStep::Done
        } else {
            UpdateStep::Copy
        },
        UpdateStep::Copy => if succeeded {
            UpdateStep::StoreDeleted
        } else {
            UpdateStep::Failed
        },
        UpdateStep::StoreDeleted => if succeeded {
            UpdateStep::Expunge
        } else {
            UpdateStep::Failed
        },
        UpdateStep::Expunge => if succeeded {
            UpdateStep::Done
        } else {
            UpdateStep::Failed
        },
        UpdateStep::Done => UpdateStep::Done,
        UpdateStep::Failed => UpdateStep::Failed,
    }
}

pub fn next_update_step(step: UpdateStep, succeeded: bool) -> (r: UpdateStep)
    ensures
        r == next_step(step, succeeded),
{
    match step {
        UpdateStep::Move => if succeeded {
            UpdateStep::Done
        } else {
            UpdateStep::Copy
        },
        UpdateStep::Copy => if succeeded {
            UpdateStep::StoreDeleted
        } else {
            UpdateStep::Failed
        },
        UpdateStep::StoreDeleted => if succeeded {
            UpdateStep::Expunge
        } else {
            UpdateStep::Failed
        },
        UpdateStep::Expunge => if succeeded {
            UpdateStep::Done
        } else {
            UpdateStep::Failed
        },
        UpdateStep::Done => UpdateStep::Done,
        UpdateStep::Failed => UpdateStep::Failed,
    }
}

/// A move starts with MOVE; a delete starts by flagging Deleted.
pub fn first_update_step(is_move: bool) -> (r: UpdateStep)
    ensures
        r == (if is_move {
            UpdateStep::Move
        } else {
            UpdateStep::StoreDeleted
        }),
{
    if is_move {
        UpdateStep::Move
    } else {
        UpdateStep::StoreDeleted
    }
}

} // verus!
