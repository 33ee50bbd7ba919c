//! The entities that the engine hands to its callers.
use vstd::prelude::*;

verus! {

/// The text of an optional string.
pub open spec fn opt_view(o: Option<String>) -> Option<Seq<char>> {
    match o {
        Some(s) => Some(s@),
        None => None,
    }
}

/// How to reach and log in to an IMAP server.
#[derive(Clone, Debug)]
pub struct ImapConfig {
    pub host: String,
    pub port: u16,
    /// `tls`, `starttls` or `none`.
    pub security: String,
    pub username: String,
    /// A password, or an OAuth2 access token.
    pub password: String,
    /// `password` or `oauth2`.
    pub auth_method: String,
    pub accept_invalid_certs: bool,
}

/// A mailbox as listed by the server.
#[derive(Clone, Debug)]
pub struct ImapFolder {
    /// Decoded display path.
    pub path: String,
    /// The path as the server spells it; the only form ever sent back.
    pub raw_path: String,
    /// Last segment of the display path.
    pub name: String,
    pub delimiter: String,
    /// `\Inbox`, `\Sent`, `\Trash`, `\Drafts`, `\Junk`, `\Archive`, `\All`, `\Flagged`.
    pub special_use: Option<String>,
    pub exists: u32,
    pub unseen: u32,
}

/// A message in its canonical form.
#[derive(Clone, Debug)]
pub struct ImapMessage {
    pub uid: u32,
    pub folder: String,
    pub message_id: Option<String>,
    pub in_reply_to: Option<String>,
    pub references: Option<String>,
    pub from_address: Option<String>,
    pub from_name: Option<String>,
    pub to_addresses: Option<String>,
    pub cc_addresses: Option<String>,
    pub bcc_addresses: Option<String>,
    pub reply_to: Option<String>,
    pub subject: Option<String>,
    pub date: i64,
    pub is_read: bool,
    pub is_starred: bool,
    pub is_draft: bool,
    pub body_html: Option<String>,
    pub body_text: Option<String>,
    pub snippet: Option<String>,
    pub raw_size: u32,
    pub list_unsubscribe: Option<String>,
    pub list_unsubscribe_post: Option<String>,
    pub auth_results: Option<String>,
    pub attachments: Vec<ImapAttachment>,
}

/// One attachment of a message.
#[derive(Clone, Debug)]
pub struct ImapAttachment {
    /// 1-based position among the message's attachments.
    pub part_id: String,
    pub filename: String,
    pub mime_type: String,
    pub size: u32,
    pub content_id: Option<String>,
    pub is_inline: bool,
}

/// What SELECT or STATUS reports of a mailbox.
#[derive(Clone, Copy, Debug, PartialEq, Eq, Structural)]
pub struct ImapFolderStatus {
    pub uidvalidity: u32,
    pub uidnext: u32,
    pub exists: u32,
    pub unseen: u32,
    pub highest_modseq: Option<u64>,
}

/// Messages fetched from a folder, with the folder's status at that time.
#[derive(Clone, Debug)]
pub struct ImapFetchResult {
    pub messages: Vec<ImapMessage>,
    pub folder_status: ImapFolderStatus,
}

/// A caller's question: which messages arrived after `last_uid`?
#[derive(Clone, Debug)]
pub struct DeltaCheckRequest {
    pub folder: String,
    pub last_uid: u32,
    pub uidvalidity: u32,
}

/// The answer to a `DeltaCheckRequest`.
#[derive(Clone, Debug)]
pub struct DeltaCheckResult {
    pub folder: String,
    pub uidvalidity: u32,
    pub new_uids: Vec<u32>,
    pub uidvalidity_changed: bool,
}

/// How to reach and log in to an SMTP server.
#[derive(Clone, Debug)]
pub struct SmtpConfig {
    pub host: String,
    pub port: u16,
    pub security: String,
    pub username: String,
    pub password: String,
    pub auth_method: String,
    pub accept_invalid_certs: bool,
}

/// The outcome of a send or of a connection test.
#[derive(Clone, Debug)]
pub struct SmtpSendResult {
    pub success: bool,
    pub message: String,
}

/// The code and state that an OAuth2 redirect carried.
#[derive(Clone, Debug)]
pub struct OAuthResult {
    pub code: String,
    pub state: String,
}

} // verus!
