//! The description of a call to the mail service, and the client that every
//! call goes through.

use vstd::prelude::*;
use vstd::string::StringExecFns;
use vstd::utf8::encode_utf8;
use crate::error::TriageError;

verus! {

/// The address of the list of messages.
pub const MESSAGES_URL: &'static str = "https://gmail.googleapis.com/gmail/v1/users/me/messages";

/// The address that changes the labels of many messages at once.
pub const BATCH_MODIFY_URL: &'static str =
    "https://gmail.googleapis.com/gmail/v1/users/me/messages/batchModify";

/// The method of a call.
#[derive(Clone, Copy, Debug, PartialEq, Eq, Structural)]
pub enum Method {
    GET,
    POST,
}

/// One call to the mail service, ready to be sent.
#[derive(Debug, PartialEq, Eq)]
pub struct Call {
    pub method: Method,
    pub url: String,
    /// The query parameters, in order.
    pub query: Vec<(String, String)>,
    /// The fields of the JSON object to send as the body; none for a call
    /// without a body. Each field holds an array of strings.
    pub body: Vec<(String, Vec<String>)>,
}

/// The client of the mail service: the headers that each of its calls
/// carries, the bearer token among them.
#[derive(Debug, PartialEq, Eq)]
pub struct GClient {
    pub headers: Vec<(String, String)>,
}

/// A byte that may stand in the value of a request header.
pub open spec fn is_header_byte(b: u8) -> bool {
    b >= 32 && b != 127 || b == 9
}

/// A text that may stand as the value of a request header: each byte of its
/// UTF-8 form may.
pub open spec fn is_header_value(text: Seq<char>) -> bool {
    forall|i: int| 0 <= i < encode_utf8(text).len() ==> is_header_byte(#[trigger] encode_utf8(text)[i])
}

/// The value of the authorization header for a token.
pub open spec fn bearer(token: Seq<char>) -> Seq<char> {
    "Bearer "@ + token
}

/// The headers of every call: JSON is sent, JSON is accepted, and the token
/// authorizes the call.
pub open spec fn headers_for(token: Seq<char>) -> Seq<(Seq<char>, Seq<char>)> {
    seq![
        ("content-type"@, "application/json"@),
        ("accept"@, "application/json"@),
        ("authorization"@, bearer(token)),
    ]
}

/// Asks `HeaderValue::from_str` whether it takes a text. It does exactly
/// where no byte of the text is a control character other than the tab.
#[verifier::external_body]
fn header_value_accepts(value: &str) -> (ok: bool)
    ensures
        ok == is_header_value(value@),
{
    reqwest::header::HeaderValue::from_str(value).is_ok()
}

/// Copies a list of pairs of texts.
fn owned_pairs(pairs: &Vec<(&str, &str)>) -> (out: Vec<(String, String)>)
    ensures
        out.deep_view() == pairs.deep_view(),
{
    let mut out: Vec<(String, String)> = Vec::new();
    let mut i: usize = 0;
    while i < pairs.len()
        invariant
            i <= pairs.len(),
            out@.len() == i,
            forall|j: int| 0 <= j < i ==> (#[trigger] out@[j]).deep_view() == pairs@[j].deep_view(),
        decreases pairs.len() - i,
    {
        let (name, value) = pairs[i];
        out.push((name.to_owned(), value.to_owned()));
        i = i + 1;
    }
    out
}

/// Copies a list of texts.
fn owned_texts(texts: &Vec<&str>) -> (out: Vec<String>)
    ensures
        out.deep_view() == texts.deep_view(),
{
    let mut out: Vec<String> = Vec::new();
    let mut i: usize = 0;
    while i < texts.len()
        invariant
            i <= texts.len(),
            out@.len() == i,
            forall|j: int| 0 <= j < i ==> (#[trigger] out@[j])@ == texts@[j]@,
        decreases texts.len() - i,
    {
        out.push(texts[i].to_owned());
        i = i + 1;
    }
    out
}

impl GClient {
    /// The client that presents `token`.
    ///
    /// Fails with `InvalidToken` exactly where the token cannot stand in a
    /// header.
    pub fn new(token: &str) -> (r: Result<GClient, TriageError>)
        ensures
            match r {
                Ok(client) => is_header_value(bearer(token@)) && client.headers.deep_view()
                    == headers_for(token@),
                Err(e) => !is_header_value(bearer(token@)) && e == TriageError::InvalidToken,
            },
    {
        match GClient::gen_headers(token) {
            Ok(headers) => Ok(GClient { headers }),
            Err(e) => Err(e),
        }
    }

    /// The headers of every call made with `token`.
    ///
    /// Fails with `InvalidToken` exactly where the token cannot stand in a
    /// header.
    pub fn gen_headers(token: &str) -> (r: Result<Vec<(String, String)>, TriageError>)
        ensures
            match r {
                Ok(headers) => is_header_value(bearer(token@)) && headers.deep_view() == headers_for(
                    token@,
                ),
                Err(e) => !is_header_value(bearer(token@)) && e == TriageError::InvalidToken,
            },
    {
        let authorization = "Bearer ".to_owned().concat(token);
        if !header_value_accepts(authorization.as_str()) {
            return Err(TriageError::InvalidToken);
        }
        let mut headers: Vec<(String, String)> = Vec::new();
        headers.push(("content-type".to_owned(), "application/json".to_owned()));
        headers.push(("accept".to_owned(), "application/json".to_owned()));
        headers.push(("authorization".to_owned(), authorization));
        Ok(headers)
    }

    /// Describes a call that reads: `url` with the parameters of `query`.
    /// Only reading calls are made this way.
    pub fn call_api(
        &self,
        url: &str,
        query: &Vec<(&str, &str)>,
        _body: &Vec<(&str, &str)>,
        method: Method,
    ) -> (call: Call)
        requires
            method == Method::GET,
        ensures
            call.method == Method::GET,
            call.url@ == url@,
            call.query.deep_view() == query.deep_view(),
            call.body@.len() == 0,
    {
        Call { method: Method::GET, url: url.to_owned(), query: owned_pairs(query), body: Vec::new() }
    }

    /// Describes the call that takes the label `UNREAD` off the messages with
    /// the given ids.
    pub fn post_remove_unread(&self, ids: Vec<&str>) -> (call: Call)
        ensures
            call.method == Method::POST,
            call.url@ == BATCH_MODIFY_URL@,
            call.query@.len() == 0,
            call.body.deep_view() == seq![
                ("ids"@, ids.deep_view()),
                ("removeLabelIds"@, seq!["UNREAD"@]),
            ],
    {
        let mut labels: Vec<String> = Vec::new();
        labels.push("UNREAD".to_owned());
        let mut body: Vec<(String, Vec<String>)> = Vec::new();
        body.push(("ids".to_owned(), owned_texts(&ids)));
        body.push(("removeLabelIds".to_owned(), labels));
        proof {
            assert(labels.deep_view() =~= seq!["UNREAD"@]);
        }
        Call { method: Method::POST, url: BATCH_MODIFY_URL.to_owned(), query: Vec::new(), body }
    }
}

} // verus!
