//! Triage of unread mail: sender statistics, the selection state of the
//! interactive view, and the persisted list of marked senders.

pub mod activity_log;
pub mod app;
pub mod config;
pub mod decimal;
pub mod error;
pub mod events;
pub mod json;
pub mod message;
pub mod order;
pub mod request;
pub mod selection;
pub mod target_list;
