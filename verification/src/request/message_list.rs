//! The answer of the mail service to the request for the unread messages.

use vstd::prelude::*;
use crate::message::Message;
use crate::request::client::{Call, GClient, Method, MESSAGES_URL};

verus! {

/// The list of unread messages as the mail service reports it.
#[derive(Debug, PartialEq, Eq)]
pub struct MessageList {
    /// The messages, each with its id and thread id only.
    pub messages: Option<Vec<Message>>,
    /// How many messages the service reckons with.
    pub result_size_estimate: Option<usize>,
}

/// What there is to work on after the list of unread messages arrived.
#[derive(Debug, PartialEq, Eq)]
pub enum Unread {
    /// Nothing is unread: the run ends here, and this is no error.
    Empty,
    /// The unread messages, whose senders are to be fetched.
    Messages(Vec<Message>),
}

impl Default for MessageList {
    fn default() -> (list: Self)
        ensures
            list.messages is None,
            list.result_size_estimate is None,
    {
        Self { messages: None, result_size_estimate: None }
    }
}

/// The parameters that ask for the unread messages only.
pub open spec fn unread_query() -> Seq<(Seq<char>, Seq<char>)> {
    seq![("q"@, "is:unread"@)]
}

/// The call that asks the mail service for the unread messages.
pub fn unread_list_call(client: &GClient) -> (call: Call)
    ensures
        call.method == Method::GET,
        call.url@ == MESSAGES_URL@,
        call.query.deep_view() == unread_query(),
        call.body@.len() == 0,
{
    let mut query: Vec<(&str, &str)> = Vec::new();
    query.push(("q", "is:unread"));
    client.call_api(MESSAGES_URL, &query, &Vec::new(), Method::GET)
}

impl MessageList {
    /// A list of which nothing is known yet.
    pub fn new() -> (list: Self)
        ensures
            list.messages is None,
            list.result_size_estimate is None,
    {
        Self { messages: None, result_size_estimate: None }
    }

    /// The call that asks the mail service for the unread messages.
    pub fn get_unread_messages(&self, request: &GClient) -> (call: Call)
        ensures
            call.method == Method::GET,
            call.url@ == MESSAGES_URL@,
            call.query.deep_view() == unread_query(),
            call.body@.len() == 0,
    {
        unread_list_call(request)
    }

    /// The service reports no unread message: its estimate is zero, or it
    /// lists none.
    pub open spec fn reports_none(&self) -> bool {
        ||| self.result_size_estimate == Some(0usize)
        ||| self.messages is None
        ||| self.messages->0@.len() == 0
    }

    /// Decides how the run goes on: it ends where nothing is unread, and
    /// otherwise fetches the sender of each listed message.
    pub fn unread(self) -> (next: Unread)
        ensures
            self.reports_none() ==> next is Empty,
            !self.reports_none() ==> next == Unread::Messages(self.messages->0),
    {
        match self.result_size_estimate {
            Some(estimate) => {
                if estimate == 0 {
                    return Unread::Empty;
                }
            },
            None => {},
        }
        match self.messages {
            None => Unread::Empty,
            Some(messages) => {
                if messages.len() == 0 {
                    Unread::Empty
                } else {
                    Unread::Messages(messages)
                }
            },
        }
    }
}

} // verus!
