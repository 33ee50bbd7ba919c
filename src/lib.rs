//! Protocol engine of a desktop mail client: IMAP response scanning with
//! octet-exact literal framing, command building, folder classification,
//! message normalisation and SMTP envelope extraction.

pub mod types;
pub mod decimal;
pub mod scan;
pub mod date;
pub mod utf8cut;
pub mod wire;
pub mod fetch;
pub mod uids;
pub mod codec;
pub mod command;
pub mod folder;
pub mod mime;
pub mod normalize;
pub mod assemble;
pub mod smtp;
pub mod connect;
pub mod oauth;
