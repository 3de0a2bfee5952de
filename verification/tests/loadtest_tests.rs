use kiwi_store::command::Command;
use kiwi_store::config::Configuration;
use kiwi_store::handler::handle_request;
use kiwi_store::loadtest::cli::Cli;
use kiwi_store::loadtest::data::DataSet;
use kiwi_store::loadtest::measurement::{Outcome, Tally, TestType};
use kiwi_store::loadtest::runner::{fuzz_command, load_command};
use kiwi_store::store::DataStore;
use rand::rngs::StdRng;
use rand::SeedableRng;

#[test]
fn the_data_set_holds_the_settings_and_the_invalid_requests() {
    let data = DataSet::new();
    assert_eq!(data.valid_store.len(), 24);
    assert_eq!(
        data.valid_store[0],
        ("dbConn", "data source=localhost;Initial Catalog=kiwi;User ID=sa;Password")
    );
    assert_eq!(data.valid_store[1], ("logLevel", "Verbose"));
    assert_eq!(data.valid_store[17], ("smtpUsr", "noreply@azon.com"));
    assert_eq!(data.valid_store[23], ("sessionTimeout", "15m"));
    assert_eq!(data.invalid_commands.len(), 7);
    assert_eq!(data.invalid_commands[0], "INSERT username john password secret");
    assert_eq!(data.invalid_commands[3], "RETREIVE username");
    assert_eq!(data.invalid_commands[6], "CHECK health");
}

#[test]
fn no_key_of_the_data_set_occurs_twice() {
    let data = DataSet::new();
    let mut keys: Vec<&str> = Vec::new();
    for (key, _) in &data.valid_store {
        assert!(!keys.contains(key));
        keys.push(*key);
    }
}

#[test]
fn every_setting_is_a_valid_set() {
    let config = Configuration::default();
    for (key, value) in DataSet::new().valid_store {
        assert!(!key.is_empty() && !key.contains(char::is_whitespace) && key.len() <= 20);
        assert!(!value.is_empty() && value.len() <= 100);
        let expected = Command::Put { key: key.to_string(), value: value.to_string() };
        let request = format!("SET {} {}", key, value);
        assert_eq!(Command::parse(&request).validate(&config), Ok(expected.clone()));
        let line = format!("SET {} {}\n", key, value);
        assert_eq!(Command::parse(&line).validate(&config), Ok(expected));
    }
}

#[test]
fn a_load_run_fills_the_store_with_the_settings() {
    let config = Configuration::default();
    let data = DataSet::new();
    let mut store = DataStore::new();
    for (key, value) in &data.valid_store {
        let line = format!("SET {} {}\n", key, value);
        assert_eq!(handle_request(&line, &mut store, &config), "OK\n");
    }
    assert_eq!(store.len(), 24);
    for (key, value) in &data.valid_store {
        assert_eq!(store.get(key), Some(value.to_string()));
    }
}

#[test]
fn every_invalid_request_is_refused() {
    let config = Configuration::default();
    for request in DataSet::new().invalid_commands {
        assert!(matches!(Command::parse(request), Command::Invalid(_)));
        assert!(Command::parse(request).validate(&config).is_err());
    }
}

#[test]
fn a_load_request_stores_one_of_the_settings() {
    let data = DataSet::new();
    let mut rng = StdRng::seed_from_u64(7);
    let mut seen: Vec<String> = Vec::new();
    for _ in 0..500 {
        let request = load_command(&data, &mut rng).unwrap();
        let known = data
            .valid_store
            .iter()
            .any(|(key, value)| request == format!("SET {} {}\n", key, value));
        assert!(known);
        if !seen.contains(&request) {
            seen.push(request);
        }
    }
    assert!(seen.len() > 1);
}

#[test]
fn a_fuzz_request_is_one_of_the_invalid_requests() {
    let data = DataSet::new();
    let mut rng = StdRng::seed_from_u64(11);
    let mut seen: Vec<String> = Vec::new();
    for _ in 0..200 {
        let request = fuzz_command(&data, &mut rng).unwrap();
        assert!(data.invalid_commands.iter().any(|c| request == format!("{}\n", c)));
        if !seen.contains(&request) {
            seen.push(request);
        }
    }
    assert!(seen.len() > 1);
}

#[test]
fn an_empty_data_set_gives_no_request() {
    let data = DataSet { valid_store: Vec::new(), invalid_commands: Vec::new() };
    let mut rng = StdRng::seed_from_u64(1);
    assert_eq!(load_command(&data, &mut rng), None);
    assert_eq!(fuzz_command(&data, &mut rng), None);
}

#[test]
fn the_kind_of_run_is_read_from_its_word() {
    assert_eq!(TestType::from_kind("load"), Some(TestType::Load));
    assert_eq!(TestType::from_kind("fuzz"), Some(TestType::Fuzz));
    assert_eq!(TestType::from_kind("Load"), None);
    assert_eq!(TestType::from_kind(""), None);
    assert_eq!(TestType::default(), TestType::Load);
    assert_eq!(TestType::Load.name(), "Load");
    assert_eq!(TestType::Fuzz.name(), "Fuzz");
    let cli = Cli { kind: "fuzz".to_string(), client_count: 2, sample_count: 3 };
    assert_eq!(cli.test_type(), Some(TestType::Fuzz));
    let cli = Cli { kind: "soak".to_string(), client_count: 2, sample_count: 3 };
    assert_eq!(cli.test_type(), None);
}

#[test]
fn a_counter_at_its_limit_does_not_stop_the_other() {
    let mut tally = Tally { successful: usize::MAX, failed: 0, durations: Vec::new() };
    tally.record(Outcome::Unreachable);
    assert_eq!((tally.successful, tally.failed), (usize::MAX, 1));
    let mut tally = Tally { successful: 0, failed: usize::MAX, durations: Vec::new() };
    tally.record(Outcome::Answered { millis: 3 });
    assert_eq!((tally.successful, tally.failed), (1, usize::MAX));
    assert!(Outcome::Answered { millis: 3 }.is_success());
    assert!(!Outcome::Unreachable.is_success());
    assert!(!Outcome::SendFailed { millis: 1 }.is_success());
    assert!(!Outcome::ReceiveFailed { millis: 1 }.is_success());
}

#[test]
fn a_tally_counts_outcomes() {
    let mut tally = Tally::new();
    assert_eq!(tally.total_commands(), Some(0));
    assert_eq!(tally.total_millis(), Some(0));
    tally.record(Outcome::Answered { millis: 5 });
    tally.record(Outcome::Unreachable);
    tally.record(Outcome::SendFailed { millis: 2 });
    tally.record(Outcome::ReceiveFailed { millis: 9 });
    tally.record(Outcome::Answered { millis: 4 });
    assert_eq!(tally.successful, 2);
    assert_eq!(tally.failed, 3);
    assert_eq!(tally.durations, vec![5, 2, 9, 4]);
    assert_eq!(tally.total_commands(), Some(5));
    assert_eq!(tally.total_millis(), Some(20));
}

#[test]
fn tallies_are_merged() {
    let mut all = Tally::new();
    let mut one = Tally::new();
    one.record(Outcome::Answered { millis: 1 });
    let mut two = Tally::new();
    two.record(Outcome::Unreachable);
    two.record(Outcome::Answered { millis: 3 });
    all.merge(one);
    all.merge(two);
    assert_eq!(all.successful, 2);
    assert_eq!(all.failed, 1);
    assert_eq!(all.durations, vec![1, 3]);
}

#[test]
fn totals_that_do_not_fit_are_reported_as_none() {
    let tally = Tally { successful: usize::MAX, failed: 1, durations: vec![u128::MAX, 1] };
    assert_eq!(tally.total_commands(), None);
    assert_eq!(tally.total_millis(), None);
    let tally = Tally { successful: usize::MAX - 1, failed: 1, durations: vec![u128::MAX, 0] };
    assert_eq!(tally.total_commands(), Some(usize::MAX));
    assert_eq!(tally.total_millis(), Some(u128::MAX));
}
