use mark_as_read::error::TriageError;
use mark_as_read::order::{compare, Order};
use mark_as_read::target_list::{add, add_address, list, place};

fn strings(items: &[&str]) -> Vec<String> {
    items.iter().map(|s| s.to_string()).collect()
}

fn is_strictly_ascending(items: &[String]) -> bool {
    items.windows(2).all(|w| w[0] < w[1])
}

#[test]
fn marking_a_listed_sender_changes_nothing() {
    let content = "[\"a@x.com\", \"c@x.com\"]";
    let written = add(content, "a@x.com").unwrap();
    assert_eq!(written, b"[\"a@x.com\",\"c@x.com\"]".to_vec());
    let text = String::from_utf8(written).unwrap();
    assert_eq!(list(&text), Ok(strings(&["a@x.com", "c@x.com"])));
    assert_eq!(list(content), list(&text));
}

#[test]
fn add_is_idempotent() {
    let once = add("[\"b@x.com\"]", "a@x.com").unwrap();
    let text = String::from_utf8(once.clone()).unwrap();
    let twice = add(&text, "a@x.com").unwrap();
    assert_eq!(once, twice);
    assert_eq!(once, b"[\"a@x.com\",\"b@x.com\"]".to_vec());
}

#[test]
fn every_sequence_of_adds_leaves_the_list_ascending_and_free_of_repeats() {
    let mut content = String::new();
    for address in ["m@x.com", "a@x.com", "z@x.com", "m@x.com", "b@x.com", "a@x.com", "M@x.com"] {
        let written = add(&content, address).unwrap();
        content = String::from_utf8(written).unwrap();
        let stored = list(&content).unwrap();
        assert!(is_strictly_ascending(&stored));
        assert!(stored.iter().any(|s| s == address));
    }
    assert_eq!(
        list(&content),
        Ok(strings(&["M@x.com", "a@x.com", "b@x.com", "m@x.com", "z@x.com"]))
    );
}

#[test]
fn an_empty_file_is_an_empty_list() {
    assert_eq!(list(""), Ok(Vec::new()));
    assert_eq!(add("", "a@x.com"), Ok(b"[\"a@x.com\"]".to_vec()));
}

#[test]
fn an_empty_array_is_an_empty_list() {
    assert_eq!(list("[]"), Ok(Vec::new()));
    assert_eq!(add("[]", "a@x.com"), Ok(b"[\"a@x.com\"]".to_vec()));
}

#[test]
fn list_returns_the_entries_as_stored() {
    assert_eq!(list("[\"b\", \"a\", \"b\"]"), Ok(strings(&["b", "a", "b"])));
}

#[test]
fn add_sorts_and_drops_repeats_of_what_was_stored() {
    assert_eq!(
        add("[\"b\", \"a\", \"b\", \"a\"]", "c"),
        Ok(b"[\"a\",\"b\",\"c\"]".to_vec())
    );
}

#[test]
fn content_that_is_no_array_of_strings_is_a_parse_error() {
    for content in ["not json", "{\"a\": 1}", "[1, 2]", "[\"a\"", "[\"a\"] x", " ", "null"] {
        assert_eq!(list(content), Err(TriageError::ParseDBError));
        assert_eq!(add(content, "a@x.com"), Err(TriageError::ParseDBError));
    }
}

#[test]
fn addresses_are_written_as_json_strings() {
    let written = add("", "\"Ann\" <ann@x.com>").unwrap();
    assert_eq!(written, b"[\"\\\"Ann\\\" <ann@x.com>\"]".to_vec());
    let text = String::from_utf8(written).unwrap();
    assert_eq!(list(&text), Ok(strings(&["\"Ann\" <ann@x.com>"])));
}

#[test]
fn add_address_is_sort_and_dedup() {
    let cases: Vec<(Vec<&str>, &str)> = vec![
        (vec![], "a"),
        (vec!["a"], "a"),
        (vec!["b", "a"], "c"),
        (vec!["c", "b", "a"], "b"),
        (vec!["a", "a", "a"], "a"),
        (vec!["b", "B", "a", "A", ""], "ab"),
        (vec!["é", "z", "e", "éa", "日本"], "zz"),
        (vec!["ab", "abc", "a", "abcd"], "abd"),
    ];
    for (given, address) in cases {
        let mut expected = strings(&given);
        expected.push(address.to_string());
        expected.sort();
        expected.dedup();
        assert_eq!(add_address(strings(&given), address.to_string()), expected);
    }
}

#[test]
fn place_puts_an_address_where_it_belongs() {
    let mut stored = strings(&["a", "c", "e"]);
    place(&mut stored, "d".to_string());
    assert_eq!(stored, strings(&["a", "c", "d", "e"]));
    place(&mut stored, "c".to_string());
    assert_eq!(stored, strings(&["a", "c", "d", "e"]));
    place(&mut stored, "".to_string());
    assert_eq!(stored, strings(&["", "a", "c", "d", "e"]));
    place(&mut stored, "z".to_string());
    assert_eq!(stored, strings(&["", "a", "c", "d", "e", "z"]));
}

#[test]
fn compare_orders_as_str_does() {
    let samples = ["", "a", "A", "ab", "abc", "b", "é", "z", "éa", "日本", "a@x.com", "c@x.com", "\u{10FFFF}"];
    for a in samples {
        for b in samples {
            let expected = if a < b {
                Order::Less
            } else if a == b {
                Order::Equal
            } else {
                Order::Greater
            };
            assert_eq!(compare(a, b), expected);
        }
    }
}

#[test]
fn a_proper_prefix_comes_first() {
    assert_eq!(compare("ab", "abc"), Order::Less);
    assert_eq!(compare("abc", "ab"), Order::Greater);
    assert_eq!(compare("abc", "abc"), Order::Equal);
}

#[test]
fn upper_case_comes_before_lower_case() {
    assert_eq!(compare("Z", "a"), Order::Less);
    assert_eq!(add("[\"a\"]", "Z"), Ok(b"[\"Z\",\"a\"]".to_vec()));
}
