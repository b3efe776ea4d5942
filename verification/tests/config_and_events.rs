use mark_as_read::config::{Config, TokenStep};
use mark_as_read::error::TriageError;
use mark_as_read::events::{Event, EventState, Ticker};

#[test]
fn the_usual_paths() {
    let config = Config::new();
    assert_eq!(config.token_path, "./data/token");
    assert_eq!(config.mark_list_path, "./data/mark_list.json");
    assert_eq!(config.log_path, "./data/log.json");
    assert_eq!(config.valid_token, None);
    let other = Config::default();
    assert_eq!(other.token_path, config.token_path);
    assert_eq!(other.mark_list_path, config.mark_list_path);
    assert_eq!(other.log_path, config.log_path);
    assert_eq!(other.valid_token, None);
}

#[test]
fn the_essential_files_are_the_three_paths() {
    let config = Config::new();
    assert_eq!(
        config.essential_files(),
        vec!["./data/token", "./data/mark_list.json", "./data/log.json"]
    );
}

#[test]
fn a_stored_token_is_put_to_use() {
    let mut config = Config::new();
    assert_eq!(config.init("ya29.stored".to_string()), TokenStep::Ready);
    assert_eq!(config.valid_token, Some("ya29.stored".to_string()));
    assert_eq!(config.token_path, "./data/token");
}

#[test]
fn without_a_stored_token_one_has_to_be_acquired() {
    let mut config = Config::new();
    assert_eq!(config.init(String::new()), TokenStep::Acquire);
    assert_eq!(config.valid_token, None);
    config.set_token("ya29.fresh".to_string());
    assert_eq!(config.valid_token, Some("ya29.fresh".to_string()));
    assert_eq!(config.mark_list_path, "./data/mark_list.json");
}

#[test]
fn the_wait_for_a_key_is_the_rest_of_the_interval() {
    let ticker = Ticker::new(200);
    assert_eq!(ticker.tick_rate, 200);
    assert_eq!(ticker.timeout(0), 200);
    assert_eq!(ticker.timeout(150), 50);
    assert_eq!(ticker.timeout(200), 0);
    assert_eq!(ticker.timeout(201), 0);
    assert_eq!(ticker.timeout(u64::MAX), 0);
}

#[test]
fn a_tick_is_due_once_the_interval_has_passed() {
    let ticker = Ticker::new(200);
    assert!(!ticker.is_due(0));
    assert!(!ticker.is_due(199));
    assert!(ticker.is_due(200));
    assert!(ticker.is_due(1000));
    assert!(Ticker::new(0).is_due(0));
}

#[test]
fn an_event_is_a_key_or_a_tick() {
    let key: Event<char> = Event::Input('q');
    let tick: Event<char> = Event::Tick;
    assert_ne!(key, tick);
    assert_eq!(key, Event::Input('q'));
    assert_ne!(EventState::Consumed, EventState::NotConsumed);
}

#[test]
fn every_failure_has_its_words() {
    assert_eq!(TriageError::ParseDBError.message(), "error parsing the DB file");
    assert_eq!(TriageError::EncodeDBError.message(), "error writing the DB file");
    assert_eq!(
        TriageError::MultipleHeaders.message(),
        "a message carries more than one sender header"
    );
    assert_eq!(
        TriageError::InvalidToken.message(),
        "the token cannot stand in a request header"
    );
}
