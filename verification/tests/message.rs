use mark_as_read::decimal::decimal_string;
use mark_as_read::error::TriageError;
use mark_as_read::message::{
    all_or_first_error, get_address_count_list, is_aggregable, split_address_count, Header,
    Message, MessageClient, Payload,
};
use mark_as_read::request::client::{GClient, Method};

fn from_header(value: &str) -> Header {
    Header { name: Some("From".to_string()), value: Some(value.to_string()) }
}

fn message_with(headers: Vec<Header>) -> Message {
    Message {
        id: Some("id".to_string()),
        thread_id: Some("thread".to_string()),
        payload: Some(Payload { headers: Some(headers) }),
    }
}

fn messages_from(senders: &[&str]) -> Vec<Message> {
    senders.iter().map(|s| message_with(vec![from_header(s)])).collect()
}

#[test]
fn a_new_message_knows_nothing() {
    let message = Message::new();
    assert_eq!(message.id, None);
    assert_eq!(message.thread_id, None);
    assert_eq!(message.payload, None);
    assert_eq!(message, Message::default());
}

#[test]
fn senders_are_counted() {
    let list = messages_from(&["a@x.com", "b@x.com", "a@x.com"]);
    let counts = get_address_count_list(&list).unwrap();
    assert_eq!(counts.len(), 2);
    assert_eq!(counts.address(0), "a@x.com");
    assert_eq!(counts.count(0), 2);
    assert_eq!(counts.label(0), "2");
    assert_eq!(counts.address(1), "b@x.com");
    assert_eq!(counts.count(1), 1);
    assert_eq!(counts.label(1), "1");
    let (addresses, shown) = split_address_count(&counts);
    assert_eq!(addresses, vec!["a@x.com", "b@x.com"]);
    assert_eq!(shown, vec!["2", "1"]);
}

#[test]
fn two_sender_headers_are_rejected() {
    let list = vec![
        message_with(vec![from_header("a@x.com")]),
        message_with(vec![from_header("b@x.com"), from_header("c@x.com")]),
        message_with(vec![from_header("a@x.com")]),
    ];
    assert!(is_aggregable(&list));
    assert_eq!(get_address_count_list(&list).err(), Some(TriageError::MultipleHeaders));
}

#[test]
fn the_counts_add_up_to_the_number_of_messages() {
    let senders = ["a", "b", "a", "c", "b", "a", "d", "a", "e", "a", "a", "b"];
    let list = messages_from(&senders);
    let counts = get_address_count_list(&list).unwrap();
    let mut sum = 0;
    for i in 0..counts.len() {
        assert!(counts.count(i) >= 1);
        sum += counts.count(i);
    }
    assert_eq!(sum, senders.len());
    let (addresses, shown) = split_address_count(&counts);
    assert_eq!(addresses.len(), shown.len());
    assert_eq!(addresses, vec!["a", "b", "c", "d", "e"]);
    assert_eq!(shown, vec!["6", "3", "1", "1", "1"]);
}

#[test]
fn no_messages_give_empty_columns() {
    let counts = get_address_count_list(&Vec::new()).unwrap();
    assert_eq!(counts.len(), 0);
    let (addresses, shown) = split_address_count(&counts);
    assert!(addresses.is_empty());
    assert!(shown.is_empty());
}

#[test]
fn senders_are_grouped_by_the_exact_header_value() {
    let list = messages_from(&["Ann <a@x.com>", "a@x.com", "A@x.com", "Ann <a@x.com>", "a@x.com "]);
    let counts = get_address_count_list(&list).unwrap();
    let (addresses, shown) = split_address_count(&counts);
    assert_eq!(addresses, vec!["Ann <a@x.com>", "a@x.com", "A@x.com", "a@x.com "]);
    assert_eq!(shown, vec!["2", "1", "1", "1"]);
}

#[test]
fn the_name_of_the_header_is_not_looked_at() {
    let list = vec![message_with(vec![Header { name: None, value: Some("a@x.com".to_string()) }])];
    let counts = get_address_count_list(&list).unwrap();
    assert_eq!(counts.address(0), "a@x.com");
}

#[test]
fn counts_of_ten_and_more_are_shown_in_decimal() {
    let senders = vec!["a@x.com"; 123];
    let counts = get_address_count_list(&messages_from(&senders)).unwrap();
    assert_eq!(counts.count(0), 123);
    assert_eq!(counts.label(0), "123");
}

#[test]
fn a_list_is_aggregable_when_every_message_has_one_sender() {
    assert!(is_aggregable(&Vec::new()));
    assert!(is_aggregable(&messages_from(&["a", "b"])));
}

#[test]
fn a_message_without_sender_is_not_aggregable() {
    assert!(!is_aggregable(&vec![Message::new()]));
    let no_headers = Message { id: None, thread_id: None, payload: Some(Payload { headers: None }) };
    assert!(!is_aggregable(&vec![no_headers]));
    assert!(!is_aggregable(&vec![message_with(vec![])]));
    let no_value = message_with(vec![Header { name: Some("From".to_string()), value: None }]);
    assert!(!is_aggregable(&vec![no_value]));
    let mut list = messages_from(&["a"]);
    list.push(Message::new());
    assert!(!is_aggregable(&list));
}

#[test]
fn what_follows_a_rejected_message_is_not_looked_at() {
    let list = vec![
        message_with(vec![from_header("a"), from_header("b")]),
        Message::new(),
    ];
    assert!(is_aggregable(&list));
    assert_eq!(get_address_count_list(&list).err(), Some(TriageError::MultipleHeaders));
}

#[test]
fn decimal_string_writes_as_to_string_does() {
    for n in [0usize, 1, 7, 9, 10, 11, 99, 100, 101, 12345, 1_000_000, usize::MAX] {
        assert_eq!(decimal_string(n), n.to_string());
    }
    assert_eq!(decimal_string(0), "0");
    assert_eq!(decimal_string(1203), "1203");
}

#[test]
fn all_answers_come_back_in_the_order_of_the_calls() {
    let results: Vec<Result<&str, u8>> = vec![Ok("a"), Ok("b"), Ok("c")];
    assert_eq!(all_or_first_error(results), Ok(vec!["a", "b", "c"]));
    let none: Vec<Result<&str, u8>> = Vec::new();
    assert_eq!(all_or_first_error(none), Ok(Vec::new()));
}

#[test]
fn the_first_failure_aborts_the_whole_fetch() {
    let results: Vec<Result<&str, u8>> = vec![Ok("a"), Err(3), Ok("c"), Err(5)];
    assert_eq!(all_or_first_error(results), Err(3));
    let results: Vec<Result<&str, u8>> = vec![Err(9)];
    assert_eq!(all_or_first_error(results), Err(9));
    let results: Vec<Result<&str, u8>> = vec![Ok("a"), Ok("b"), Err(1)];
    assert_eq!(all_or_first_error(results), Err(1));
}

#[test]
fn the_list_call_asks_for_unread_messages() {
    let client = GClient::new("token").unwrap();
    let messages = MessageClient::new(&client);
    assert_eq!(messages.message, None);
    let call = messages.get_unread_list();
    assert_eq!(call.method, Method::GET);
    assert_eq!(call.url, "https://gmail.googleapis.com/gmail/v1/users/me/messages");
    assert_eq!(call.query, vec![("q".to_string(), "is:unread".to_string())]);
    assert!(call.body.is_empty());
}

#[test]
fn the_metadata_call_asks_for_the_sender_header_only() {
    let client = GClient::new("token").unwrap();
    let messages = MessageClient::new(&client);
    let message = Message { id: Some("17f3".to_string()), thread_id: None, payload: None };
    let call = messages.get_metadata_from_only(&message);
    assert_eq!(call.method, Method::GET);
    assert_eq!(call.url, "https://gmail.googleapis.com/gmail/v1/users/me/messages/17f3");
    assert_eq!(
        call.query,
        vec![
            ("format".to_string(), "metadata".to_string()),
            ("metadataHeaders".to_string(), "From".to_string()),
        ]
    );
    assert!(call.body.is_empty());
}

#[test]
fn one_metadata_call_is_made_for_each_message() {
    let client = GClient::new("token").unwrap();
    let messages = MessageClient::new(&client);
    let list: Vec<Message> = ["a1", "b2", "c3"]
        .iter()
        .map(|id| Message { id: Some(id.to_string()), thread_id: None, payload: None })
        .collect();
    let calls = messages.fill_messages_metadata(&list);
    assert_eq!(calls.len(), 3);
    for (call, id) in calls.iter().zip(["a1", "b2", "c3"]) {
        assert_eq!(*call, messages.get_metadata_from_only(&Message {
            id: Some(id.to_string()),
            thread_id: None,
            payload: None,
        }));
        assert_eq!(call.url, format!("https://gmail.googleapis.com/gmail/v1/users/me/messages/{}", id));
    }
    assert!(messages.fill_messages_metadata(&Vec::new()).is_empty());
}
