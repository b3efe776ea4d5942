use mark_as_read::activity_log::{add_entry, append, Moment};
use mark_as_read::error::TriageError;
use mark_as_read::target_list::list;

#[test]
fn a_moment_is_shown_with_two_digits_for_each_part() {
    let moment = Moment::new(2022, 1, 5, 9, 3, 7).unwrap();
    assert_eq!(moment.stamp(), "2022年01月05日 09:03:07");
    let moment = Moment::new(1999, 12, 31, 23, 59, 59).unwrap();
    assert_eq!(moment.stamp(), "1999年12月31日 23:59:59");
    let moment = Moment::new(7, 10, 20, 0, 0, 0).unwrap();
    assert_eq!(moment.stamp(), "0007年10月20日 00:00:00");
    let moment = Moment::new(9999, 1, 1, 10, 10, 10).unwrap();
    assert_eq!(moment.stamp(), "9999年01月01日 10:10:10");
}

#[test]
fn numbers_out_of_range_are_no_moment() {
    assert_eq!(Moment::new(10000, 1, 1, 0, 0, 0), None);
    assert_eq!(Moment::new(2022, 0, 1, 0, 0, 0), None);
    assert_eq!(Moment::new(2022, 13, 1, 0, 0, 0), None);
    assert_eq!(Moment::new(2022, 1, 0, 0, 0, 0), None);
    assert_eq!(Moment::new(2022, 1, 32, 0, 0, 0), None);
    assert_eq!(Moment::new(2022, 1, 1, 24, 0, 0), None);
    assert_eq!(Moment::new(2022, 1, 1, 0, 60, 0), None);
    assert_eq!(Moment::new(2022, 1, 1, 0, 0, 60), None);
    assert!(Moment::new(0, 1, 1, 0, 0, 0).is_some());
}

#[test]
fn an_entry_names_the_time_the_action_and_the_address() {
    let moment = Moment::new(2022, 4, 9, 18, 30, 0).unwrap();
    assert_eq!(add_entry(&moment, "a@x.com"), "[2022年04月09日 18:30:00] Add: a@x.com");
    assert_eq!(add_entry(&moment, ""), "[2022年04月09日 18:30:00] Add: ");
}

#[test]
fn append_keeps_the_entries_and_puts_the_new_one_last() {
    let first = append("", "[t1] Add: b@x.com".to_string()).unwrap();
    assert_eq!(first, b"[\"[t1] Add: b@x.com\"]".to_vec());
    let text = String::from_utf8(first).unwrap();
    let second = append(&text, "[t2] Add: a@x.com".to_string()).unwrap();
    let text = String::from_utf8(second).unwrap();
    let third = append(&text, "[t1] Add: b@x.com".to_string()).unwrap();
    let text = String::from_utf8(third).unwrap();
    assert_eq!(
        list(&text),
        Ok(vec![
            "[t1] Add: b@x.com".to_string(),
            "[t2] Add: a@x.com".to_string(),
            "[t1] Add: b@x.com".to_string(),
        ])
    );
}

#[test]
fn append_writes_the_moment_as_text() {
    let moment = Moment::new(2022, 4, 9, 18, 30, 0).unwrap();
    let written = append("[]", add_entry(&moment, "a@x.com")).unwrap();
    assert_eq!(
        String::from_utf8(written).unwrap(),
        "[\"[2022年04月09日 18:30:00] Add: a@x.com\"]"
    );
}

#[test]
fn append_fails_on_a_broken_log() {
    assert_eq!(append("{}", "x".to_string()), Err(TriageError::ParseDBError));
    assert_eq!(append("[\"a\",", "x".to_string()), Err(TriageError::ParseDBError));
}
