//! The calls to the mail service, described as plain values: the caller's
//! transport performs them.

pub mod client;
pub mod message_list;
