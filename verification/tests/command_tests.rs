use kiwi_store::command::{key_line, set_line, Command};
use kiwi_store::config::Configuration;

fn put(key: &str, value: &str) -> Command {
    Command::Put { key: key.to_string(), value: value.to_string() }
}

#[test]
fn test_set_command_parse() {
    let cmd = Command::parse("SET H-Check On");
    match cmd {
        Command::Put { key, value } => {
            assert_eq!(key, "H-Check");
            assert_eq!(value, "On");
        }
        _ => panic!("Expected to parse SET command!"),
    }
}

#[test]
fn test_long_value_command_parse() {
    let cmd = Command::parse("SET DbConn dataSource=localhost;database=MongoDb");
    match cmd {
        Command::Put { key, value } => {
            assert_eq!(key, "DbConn");
            assert_eq!(value, "dataSource=localhost;database=MongoDb");
        }
        _ => panic!("Expected to parse SET command!"),
    }
}

#[test]
fn test_ping_command_parse() {
    let cmd = Command::parse("PING");
    match cmd {
        Command::Ping => {}
        _ => panic!("Expected to parse PING command!"),
    }
}

#[test]
fn test_key_len_exceeded_command_parse() {
    let config = Configuration::default();
    let cmd =
        Command::parse("SET DbConnectionStringIsTooLong dataSource=localhost;database=MongoDb");
    let validation = cmd.validate(&config);
    assert!(validation.is_err());
    assert_eq!(validation.unwrap_err(), "Key exceeds maximum length: 27");
}

#[test]
fn test_value_len_exceeded_command_parse() {
    let config = Configuration::default();
    let cmd = Command::parse(
        "SET ConnStr \"dataSource = localhost;database = AdventureWorksTestDb; user=admin; password=secret; multiple active result sets= true;\"",
    );
    let validation = cmd.validate(&config);
    assert!(validation.is_err());
    assert_eq!(validation.unwrap_err(), "Value exceeds maximum length: 121");
}

#[test]
fn test_invalid_command() {
    let cmd = Command::parse("INPUT Connection dataSource=localhost;database=MongoDb");
    match cmd {
        Command::Invalid(input) => {
            assert_eq!(input, "INPUT")
        }
        _ => panic!("Expected to parse SET command!"),
    }
}

#[test]
fn parse_reads_every_verb() {
    assert_eq!(Command::parse("SET UseHttps Off"), put("UseHttps", "Off"));
    assert_eq!(Command::parse("GET UseHttps"), Command::Get { key: "UseHttps".to_string() });
    assert_eq!(Command::parse("REMOVE UseHttps"), Command::Remove { key: "UseHttps".to_string() });
    assert_eq!(Command::parse("LIST"), Command::List);
    assert_eq!(Command::parse("PING"), Command::Ping);
    assert_eq!(Command::parse("STATS"), Command::Stats);
    assert_eq!(Command::parse("INVALID COMMAND"), Command::Invalid("INVALID".to_string()));
}

#[test]
fn parse_takes_the_verb_in_any_case() {
    assert_eq!(Command::parse("set a b"), put("a", "b"));
    assert_eq!(Command::parse("Get a"), Command::Get { key: "a".to_string() });
    assert_eq!(Command::parse("rEmOvE a"), Command::Remove { key: "a".to_string() });
    assert_eq!(Command::parse("list"), Command::List);
    assert_eq!(Command::parse("ping\n"), Command::Ping);
    assert_eq!(Command::parse("stats\r\n"), Command::Stats);
    assert_eq!(Command::parse("hello world"), Command::Invalid("HELLO".to_string()));
}

#[test]
fn parse_uppercases_beyond_ascii() {
    assert_eq!(Command::parse("stra\u{df}e 1"), Command::Invalid("STRASSE".to_string()));
    assert_eq!(Command::parse("\u{17f}et a b"), put("a", "b"));
    assert_eq!(Command::parse("\u{e9}t\u{e9}"), Command::Invalid("\u{c9}T\u{c9}".to_string()));
}

#[test]
fn parse_of_blank_input_is_invalid_with_empty_verb() {
    assert_eq!(Command::parse(""), Command::Invalid(String::new()));
    assert_eq!(Command::parse("   \t\n"), Command::Invalid(String::new()));
}

#[test]
fn parse_fills_missing_arguments_with_empty_strings() {
    assert_eq!(Command::parse("SET"), put("", ""));
    assert_eq!(Command::parse("SET onlykey"), put("onlykey", ""));
    assert_eq!(Command::parse("GET"), Command::Get { key: String::new() });
    assert_eq!(Command::parse("REMOVE \n"), Command::Remove { key: String::new() });
}

#[test]
fn parse_joins_the_words_of_a_value_with_single_spaces() {
    assert_eq!(Command::parse("SET motto  to   be\tor not\n"), put("motto", "to be or not"));
    assert_eq!(Command::parse("  SET\u{a0}k\u{3000}v w  "), put("k", "v w"));
}

#[test]
fn parse_ignores_what_follows_the_key_or_a_bare_verb() {
    assert_eq!(Command::parse("GET a b c"), Command::Get { key: "a".to_string() });
    assert_eq!(Command::parse("REMOVE a b"), Command::Remove { key: "a".to_string() });
    assert_eq!(Command::parse("PING me"), Command::Ping);
    assert_eq!(Command::parse("LIST all"), Command::List);
    assert_eq!(Command::parse("STATS now"), Command::Stats);
}

#[test]
fn from_words_builds_from_verb_and_arguments() {
    assert_eq!(Command::from_words("SET".to_string(), &["k", "v", "w"]), put("k", "v w"));
    assert_eq!(Command::from_words("SET".to_string(), &[]), put("", ""));
    assert_eq!(
        Command::from_words("GET".to_string(), &["k", "x"]),
        Command::Get { key: "k".to_string() }
    );
    assert_eq!(Command::from_words("set".to_string(), &["k"]), Command::Invalid("set".to_string()));
    assert_eq!(Command::from_words("PING".to_string(), &["k"]), Command::Ping);
}

#[test]
fn validate_accepts_what_keeps_the_limits() {
    let config = Configuration::default();
    assert_eq!(put("UseHttps", "Off").validate(&config), Ok(put("UseHttps", "Off")));
    assert_eq!(
        Command::Get { key: "k".to_string() }.validate(&config),
        Ok(Command::Get { key: "k".to_string() })
    );
    assert_eq!(Command::List.validate(&config), Ok(Command::List));
    assert_eq!(Command::Ping.validate(&config), Ok(Command::Ping));
    assert_eq!(Command::Stats.validate(&config), Ok(Command::Stats));
}

#[test]
fn validate_accepts_lengths_at_the_limit() {
    let config = Configuration::default();
    let key = "k".repeat(20);
    let value = "v".repeat(100);
    assert_eq!(put(&key, &value).validate(&config), Ok(put(&key, &value)));
}

#[test]
fn validate_refuses_an_empty_key_or_value_first() {
    let config = Configuration::default();
    let message = "Key or value cannot be empty".to_string();
    assert_eq!(Command::parse("SET").validate(&config), Err(message.clone()));
    assert_eq!(put("", "x").validate(&config), Err(message.clone()));
    assert_eq!(put("x", "").validate(&config), Err(message.clone()));
    assert_eq!(put(&"k".repeat(30), "").validate(&config), Err(message.clone()));
    assert_eq!(put("", &"v".repeat(300)).validate(&config), Err(message));
}

#[test]
fn validate_refuses_a_long_key_before_a_long_value() {
    let config = Configuration::default();
    let key = "k".repeat(21);
    assert_eq!(
        put(&key, "v").validate(&config),
        Err("Key exceeds maximum length: 21".to_string())
    );
    assert_eq!(
        put(&key, &"v".repeat(101)).validate(&config),
        Err("Key exceeds maximum length: 21".to_string())
    );
    assert_eq!(
        Command::Get { key: key.clone() }.validate(&config),
        Err("Key exceeds maximum length: 21".to_string())
    );
    assert_eq!(
        Command::Remove { key }.validate(&config),
        Err("Key exceeds maximum length: 21".to_string())
    );
}

#[test]
fn validate_refuses_a_long_value_before_a_forbidden_character() {
    let config = Configuration::default();
    assert_eq!(
        put("k", &"v".repeat(101)).validate(&config),
        Err("Value exceeds maximum length: 101".to_string())
    );
    assert_eq!(
        put("a\nb", &"v".repeat(101)).validate(&config),
        Err("Value exceeds maximum length: 101".to_string())
    );
}

#[test]
fn validate_refuses_forbidden_characters_in_a_key() {
    let config = Configuration::default();
    assert_eq!(
        put("a\nb", "v").validate(&config),
        Err("Key contains forbidden characters: a\nb".to_string())
    );
    assert_eq!(
        put("a\rb", "v").validate(&config),
        Err("Key contains forbidden characters: a\rb".to_string())
    );
    assert_eq!(
        put("ab\0", "v").validate(&config),
        Err("Key contains forbidden characters: ab\0".to_string())
    );
    assert_eq!(put("k", "a\nb").validate(&config), Ok(put("k", "a\nb")));
    assert_eq!(
        Command::Get { key: "a\nb".to_string() }.validate(&config),
        Ok(Command::Get { key: "a\nb".to_string() })
    );
}

#[test]
fn validate_counts_lengths_in_bytes() {
    let config = Configuration::default();
    let key = "\u{e9}".repeat(11);
    assert_eq!(
        put(&key, "v").validate(&config),
        Err("Key exceeds maximum length: 22".to_string())
    );
    let fits = "\u{e9}".repeat(10);
    assert_eq!(put(&fits, "v").validate(&config), Ok(put(&fits, "v")));
}

#[test]
fn validate_refuses_every_invalid_command() {
    let config = Configuration::default();
    assert_eq!(
        Command::Invalid("INPUT".to_string()).validate(&config),
        Err("Invalid command: INPUT".to_string())
    );
    assert_eq!(Command::parse("").validate(&config), Err("Invalid command: ".to_string()));
}

#[test]
fn validate_goes_by_the_limits_of_the_mode() {
    let vault = Configuration::from_settings(None, None, Some("VAULT_MODE".to_string()));
    let cache = Configuration::from_settings(None, None, Some("CACHE_MODE".to_string()));
    let value = "v".repeat(41);
    assert_eq!(
        put("k", &value).validate(&vault),
        Err("Value exceeds maximum length: 41".to_string())
    );
    assert_eq!(put("k", &value).validate(&cache), Ok(put("k", &value)));
    assert_eq!(put("k", &"v".repeat(255)).validate(&cache), Ok(put("k", &"v".repeat(255))));
    assert_eq!(
        put("k", &"v".repeat(256)).validate(&cache),
        Err("Value exceeds maximum length: 256".to_string())
    );
}

#[test]
fn a_set_request_within_the_limits_comes_back_as_written() {
    let config = Configuration::default();
    let request = format!("SET {} {}", "timeout", "30 seconds or so");
    assert_eq!(
        Command::parse(&request).validate(&config),
        Ok(put("timeout", "30 seconds or so"))
    );
}

#[test]
fn request_lines_are_read_back() {
    assert_eq!(set_line("k", "v w"), "SET k v w\n");
    assert_eq!(key_line("GET", "k"), "GET k\n");
    assert_eq!(Command::parse(&set_line("k", "v w")), put("k", "v w"));
    assert_eq!(Command::parse(&key_line("GET", "k")), Command::Get { key: "k".to_string() });
    assert_eq!(
        Command::parse(&key_line("REMOVE", "k")),
        Command::Remove { key: "k".to_string() }
    );
}

fn by_the_standard_library(input: &str) -> Command {
    let mut parts = input.split_whitespace();
    let verb = parts.next().unwrap_or("").to_uppercase();
    let key = parts.next().unwrap_or("").to_string();
    match verb.as_str() {
        "SET" => Command::Put { key, value: parts.collect::<Vec<&str>>().join(" ") },
        "GET" => Command::Get { key },
        "REMOVE" => Command::Remove { key },
        "LIST" => Command::List,
        "STATS" => Command::Stats,
        "PING" => Command::Ping,
        _ => Command::Invalid(verb),
    }
}

fn expected_check(cmd: &Command, config: &Configuration) -> Option<String> {
    match cmd {
        Command::Put { key, value } => {
            if key.is_empty() || value.is_empty() {
                Some("Key or value cannot be empty".to_string())
            } else if key.len() > config.max_key_length {
                Some(format!("Key exceeds maximum length: {}", key.len()))
            } else if value.len() > config.max_value_length {
                Some(format!("Value exceeds maximum length: {}", value.len()))
            } else if key.chars().any(|c| config.forbidden_keys.contains(&c)) {
                Some(format!("Key contains forbidden characters: {}", key))
            } else {
                None
            }
        }
        Command::Get { key } | Command::Remove { key } => {
            if key.len() > config.max_key_length {
                Some(format!("Key exceeds maximum length: {}", key.len()))
            } else {
                None
            }
        }
        Command::List | Command::Stats | Command::Ping => None,
        Command::Invalid(verb) => Some(format!("Invalid command: {}", verb)),
    }
}

#[test]
fn parse_and_validate_agree_with_the_standard_library_on_many_inputs() {
    let pieces = [
        " ", "  ", "\t", "\n", "\r\n", "\u{a0}", "\u{2003}", "\0", "a", "B", "k1", "value", "set",
        "SET", "Set", "get", "GET", "remove", "REMOVE", "list", "LIST", "ping", "PING", "stats",
        "STATS", "\u{df}", "\u{17f}et", "\u{e9}", "\u{1f600}", "0123456789", "x=y;z", "\"",
    ];
    let configs = [
        Configuration::default(),
        Configuration::from_settings(None, None, Some("VAULT_MODE".to_string())),
        Configuration {
            host: String::new(),
            port: 0,
            max_key_length: 3,
            max_value_length: 5,
            forbidden_keys: vec!['a', '\u{e9}'],
        },
    ];
    let mut state: u64 = 0x2545f4914f6cdd1d;
    for _ in 0..4000 {
        let mut input = String::new();
        state = state.wrapping_mul(6364136223846793005).wrapping_add(1442695040888963407);
        let count = (state >> 33) % 9;
        for _ in 0..count {
            state = state.wrapping_mul(6364136223846793005).wrapping_add(1442695040888963407);
            input.push_str(pieces[((state >> 33) % pieces.len() as u64) as usize]);
        }
        let cmd = Command::parse(&input);
        assert_eq!(cmd, by_the_standard_library(&input));
        for config in &configs {
            let expected = match expected_check(&cmd, config) {
                Some(message) => Err(message),
                None => Ok(cmd.clone()),
            };
            assert_eq!(cmd.clone().validate(config), expected);
        }
    }
}
