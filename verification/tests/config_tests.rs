use kiwi_store::config::{mode_limits, parse_port, Configuration};

fn text(s: &str) -> Option<String> {
    Some(s.to_string())
}

#[test]
fn the_default_configuration() {
    let config = Configuration::default();
    assert_eq!(config.host, "127.0.0.1");
    assert_eq!(config.port, 5544);
    assert_eq!(config.max_key_length, 20);
    assert_eq!(config.max_value_length, 100);
    assert_eq!(config.forbidden_keys, vec!['\n', '\r', '\0']);
    assert_eq!(config.get_listen_address(), "127.0.0.1:5544");
}

#[test]
fn settings_that_are_absent_take_their_defaults() {
    let config = Configuration::from_settings(None, None, None);
    assert_eq!(config.host, "127.0.0.1");
    assert_eq!(config.port, 5544);
    assert_eq!(config.max_key_length, 20);
    assert_eq!(config.max_value_length, 100);
    assert_eq!(config.forbidden_keys, vec!['\n', '\r', '\0']);
}

#[test]
fn settings_that_are_present_are_taken() {
    let config = Configuration::from_settings(text("0.0.0.0"), text("8080"), text("CACHE_MODE"));
    assert_eq!(config.host, "0.0.0.0");
    assert_eq!(config.port, 8080);
    assert_eq!(config.max_key_length, 20);
    assert_eq!(config.max_value_length, 255);
    assert_eq!(config.get_listen_address(), "0.0.0.0:8080");
}

#[test]
fn a_port_that_is_no_number_falls_back_to_the_default() {
    assert_eq!(Configuration::from_settings(None, text("http"), None).port, 5544);
    assert_eq!(Configuration::from_settings(None, text(""), None).port, 5544);
    assert_eq!(Configuration::from_settings(None, text("65536"), None).port, 5544);
    assert_eq!(Configuration::from_settings(None, text(" 80"), None).port, 5544);
    assert_eq!(Configuration::from_settings(None, text("65535"), None).port, 65535);
    assert_eq!(Configuration::from_settings(None, text("0"), None).port, 0);
}

#[test]
fn the_mode_selects_the_limits() {
    assert_eq!(mode_limits("CACHE_MODE"), (20, 255));
    assert_eq!(mode_limits("VAULT_MODE"), (20, 40));
    assert_eq!(mode_limits("DEFAULT_MODE"), (20, 100));
    assert_eq!(mode_limits("cache_mode"), (20, 100));
    assert_eq!(mode_limits(""), (20, 100));
    let vault = Configuration::from_settings(None, None, text("VAULT_MODE"));
    assert_eq!((vault.max_key_length, vault.max_value_length), (20, 40));
}

#[test]
fn ports_are_read_as_the_standard_library_reads_them() {
    let samples = [
        "", "+", "-", "0", "00", "+0", "-0", "1", "+1", "-1", "5544", "+5544", "05544", "65535",
        "65536", "+65535", "0065535", "99999", "100000", "4294967296", "18446744073709551616",
        "12a", "a12", "1 2", " 12", "12 ", "1_000", "0x10", "++1", "+-1", "1+", "\u{661}\u{662}",
        "1.0", "\u{ff11}",
    ];
    for sample in samples {
        assert_eq!(parse_port(sample), sample.parse::<u16>().ok());
    }
    for n in 0u32..70000 {
        let written = n.to_string();
        assert_eq!(parse_port(&written), written.parse::<u16>().ok());
    }
}

#[test]
fn the_listen_address_is_host_colon_port() {
    let config = Configuration::from_settings(text("localhost"), text("1"), None);
    assert_eq!(config.get_listen_address(), "localhost:1");
    let config = Configuration::from_settings(text("::1"), text("65535"), None);
    assert_eq!(config.get_listen_address(), "::1:65535");
}
