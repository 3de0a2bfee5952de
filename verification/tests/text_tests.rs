use kiwi_store::decimal::decimal_string;
use kiwi_store::text::{
    as_strs, byte_len, char_is_whitespace, contains_any, is_one_of, join_strs, split_words, str_eq,
};
use kiwi_store::unicode::{decode_text, uppercase_string};

#[test]
fn whitespace_is_what_the_standard_library_calls_whitespace() {
    for code in 0u32..=0x10ffff {
        if let Some(c) = char::from_u32(code) {
            assert_eq!(char_is_whitespace(c), c.is_whitespace());
        }
    }
}

#[test]
fn words_are_split_as_the_standard_library_splits_them() {
    let samples = [
        "",
        " ",
        "a",
        " a",
        "a ",
        "SET H-Check On",
        "  leading and trailing  ",
        "tabs\tand\nlines\r\nmixed",
        "no\u{a0}break\u{2003}space\u{3000}wide",
        "\u{e9}t\u{e9} \u{1f600} emoji",
        "a\0b c",
    ];
    for sample in samples {
        let expected: Vec<&str> = sample.split_whitespace().collect();
        assert_eq!(split_words(sample), expected);
    }
}

#[test]
fn words_of_a_request() {
    assert_eq!(split_words("SET  k  v w\n"), vec!["SET", "k", "v", "w"]);
    assert_eq!(split_words(" \t "), Vec::<&str>::new());
}

#[test]
fn numbers_are_written_in_decimal() {
    assert_eq!(decimal_string(0), "0");
    assert_eq!(decimal_string(7), "7");
    assert_eq!(decimal_string(10), "10");
    assert_eq!(decimal_string(27), "27");
    assert_eq!(decimal_string(5544), "5544");
    assert_eq!(decimal_string(1000000007), "1000000007");
    assert_eq!(decimal_string(u128::MAX), "340282366920938463463374607431768211455");
    for n in 0u128..2000 {
        assert_eq!(decimal_string(n), n.to_string());
    }
}

#[test]
fn uppercase_of_ascii_and_of_other_text() {
    assert_eq!(uppercase_string("set"), "SET");
    assert_eq!(uppercase_string("Get-1_x"), "GET-1_X");
    assert_eq!(uppercase_string("PING"), "PING");
    assert_eq!(uppercase_string(""), "");
    assert_eq!(uppercase_string("stra\u{df}e"), "STRASSE");
    assert_eq!(uppercase_string("\u{e9}"), "\u{c9}");
}

#[test]
fn uppercase_of_ascii_text_changes_the_small_letters_only() {
    for a in 0u8..128 {
        for b in 0u8..128 {
            let text: String = [a as char, b as char].iter().collect();
            let expected: String =
                [a.to_ascii_uppercase() as char, b.to_ascii_uppercase() as char].iter().collect();
            assert_eq!(uppercase_string(&text), expected);
        }
    }
    let all: String = (0u8..128).map(|b| b as char).collect();
    assert_eq!(uppercase_string(&all), all.to_ascii_uppercase());
}

#[test]
fn bytes_that_are_text_are_read_as_that_text() {
    let samples = ["", "PING\n", "SET k v", "\u{e9}t\u{e9}", "\u{20ac} \u{1f600}", "a\0b"];
    for sample in samples {
        assert_eq!(decode_text(sample.as_bytes()), sample);
    }
    assert_eq!(decode_text(&[0x80]), "\u{fffd}");
    assert_eq!(decode_text(&[0x61, 0xe2, 0x82, 0x62]), "a\u{fffd}b");
}

#[test]
fn strings_are_equal_when_their_characters_are() {
    assert!(str_eq("", ""));
    assert!(str_eq("SET", "SET"));
    assert!(!str_eq("SET", "SET "));
    assert!(!str_eq("SET", "GET"));
    assert!(!str_eq("set", "SET"));
    assert!(str_eq("\u{e9}", "\u{e9}"));
    assert!(!str_eq("\u{e9}", "e"));
}

#[test]
fn lengths_are_counted_in_bytes() {
    assert_eq!(byte_len(""), 0);
    assert_eq!(byte_len("abc"), 3);
    assert_eq!(byte_len("\u{e9}"), 2);
    assert_eq!(byte_len("\u{20ac}"), 3);
    assert_eq!(byte_len("\u{1f600}"), 4);
}

#[test]
fn joining_puts_the_separator_between_neighbours() {
    assert_eq!(join_strs(&[], " "), "");
    assert_eq!(join_strs(&["a"], " "), "a");
    assert_eq!(join_strs(&["a", "b", "c"], " "), "a b c");
    assert_eq!(join_strs(&["a", "", "c"], "\n"), "a\n\nc");
    let owned = vec!["x".to_string(), "y".to_string()];
    assert_eq!(join_strs(&as_strs(&owned), ", "), "x, y");
}

#[test]
fn finding_characters_in_a_string() {
    let forbidden = vec!['\n', '\r', '\0'];
    assert!(is_one_of('\r', &forbidden));
    assert!(!is_one_of(' ', &forbidden));
    assert!(contains_any("a\nb", &forbidden));
    assert!(contains_any("\0", &forbidden));
    assert!(!contains_any("a b\tc", &forbidden));
    assert!(!contains_any("", &forbidden));
    assert!(!contains_any("abc", &Vec::new()));
}
