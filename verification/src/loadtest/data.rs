//! The fixed data that the load and fuzz runs draw their requests from.

use crate::command::{
    lemma_line_parsed, lemma_set_text_accepted, parsed, rejection, set_text, CommandView,
};
use crate::config::{
    forbidden_key_chars, Configuration, DEFAULT_MAX_VALUE_LENGTH, MAX_KEY_LENGTH,
};
use crate::text::{
    holds_any, is_graphic_text, is_graphic_word, is_single_spaced, is_word, lemma_graphic_text,
    lemma_graphic_word, line, utf8_len,
};
use vstd::prelude::*;

verus! {

/// The views of a sequence of pairs of string slices.
pub open spec fn pair_views(pairs: Seq<(&'static str, &'static str)>) -> Seq<
    (Seq<char>, Seq<char>),
> {
    pairs.map_values(|p: (&'static str, &'static str)| (p.0@, p.1@))
}

/// The views of a sequence of string slices.
pub open spec fn line_views(lines: Seq<&'static str>) -> Seq<Seq<char>> {
    lines.map_values(|s: &'static str| s@)
}

/// The settings that a load run stores: each key with its value. Each is
/// a valid `SET` under the default limits.
pub open spec fn valid_pairs() -> Seq<(Seq<char>, Seq<char>)> {
    seq![
        ("dbConn"@, "data source=localhost;Initial Catalog=kiwi;User ID=sa;Password"@),
        ("logLevel"@, "Verbose"@),
        ("theme"@, "dark"@),
        ("maxConnections"@, "100"@),
        ("timeout"@, "30"@),
        ("cacheSize"@, "256MB"@),
        ("retry"@, "3"@),
        ("caching"@, "off"@),
        ("loginapi"@, "https://api.azon.com/v1/login"@),
        ("apiKey"@, "12345-abcde-67890-fghij"@),
        ("apiSec"@, "s3cr"@),
        ("lang"@, "tr-TR"@),
        ("timezone"@, "Europe/Istanbul"@),
        ("dateFormat"@, "dd/MM/yyyy"@),
        ("currency"@, "TRY"@),
        ("smtpSrv"@, "smtp.azon.com"@),
        ("smtpPrt"@, "587"@),
        ("smtpUsr"@, "noreply@azon.com"@),
        ("mntcMode"@, "false"@),
        ("backup"@, "daily"@),
        ("compr"@, "enabled"@),
        ("encrKey"@, "s3cr3tK3y123!"@),
        ("maxUploadSize"@, "50MB"@),
        ("sessionTimeout"@, "15m"@),
    ]
}

/// The requests that a fuzz run sends: none of them starts with a verb of
/// the protocol.
pub open spec fn invalid_lines() -> Seq<Seq<char>> {
    seq![
        "INSERT username john password secret"@,
        "UPDATE userSettings theme light"@,
        "SELECT * FROM users WHERE id = 1"@,
        "RETREIVE username"@,
        "DELETE username"@,
        "CREATE TABLE newTable (id INT, name VARCHAR(100))"@,
        "CHECK health"@,
    ]
}

/// Whether no two of `pairs` have the same key.
pub open spec fn distinct_keys(pairs: Seq<(Seq<char>, Seq<char>)>) -> bool {
    forall|i: int, j: int|
        0 <= i < j < pairs.len() ==> (#[trigger] pairs[i]).0 != (#[trigger] pairs[j]).0
}

/// Length, first and last character of a key: enough to tell the keys of
/// the settings apart.
spec fn mark(key: Seq<char>) -> (nat, char, char) {
    (key.len(), key[0], key[key.len() - 1])
}

/// No key occurs twice among the settings.
pub proof fn lemma_valid_pairs_distinct()
    ensures
        distinct_keys(valid_pairs()),
{
    let pairs = valid_pairs();
    reveal_strlit("dbConn");
    reveal_strlit("logLevel");
    reveal_strlit("theme");
    reveal_strlit("maxConnections");
    reveal_strlit("timeout");
    reveal_strlit("cacheSize");
    reveal_strlit("retry");
    reveal_strlit("caching");
    reveal_strlit("loginapi");
    reveal_strlit("apiKey");
    reveal_strlit("apiSec");
    reveal_strlit("lang");
    reveal_strlit("timezone");
    reveal_strlit("dateFormat");
    reveal_strlit("currency");
    reveal_strlit("smtpSrv");
    reveal_strlit("smtpPrt");
    reveal_strlit("smtpUsr");
    reveal_strlit("mntcMode");
    reveal_strlit("backup");
    reveal_strlit("compr");
    reveal_strlit("encrKey");
    reveal_strlit("maxUploadSize");
    reveal_strlit("sessionTimeout");
    assert(mark(pairs[0].0) == (6nat, 'd', 'n'));
    assert(mark(pairs[1].0) == (8nat, 'l', 'l'));
    assert(mark(pairs[2].0) == (5nat, 't', 'e'));
    assert(mark(pairs[3].0) == (14nat, 'm', 's'));
    assert(mark(pairs[4].0) == (7nat, 't', 't'));
    assert(mark(pairs[5].0) == (9nat, 'c', 'e'));
    assert(mark(pairs[6].0) == (5nat, 'r', 'y'));
    assert(mark(pairs[7].0) == (7nat, 'c', 'g'));
    assert(mark(pairs[8].0) == (8nat, 'l', 'i'));
    assert(mark(pairs[9].0) == (6nat, 'a', 'y'));
    assert(mark(pairs[10].0) == (6nat, 'a', 'c'));
    assert(mark(pairs[11].0) == (4nat, 'l', 'g'));
    assert(mark(pairs[12].0) == (8nat, 't', 'e'));
    assert(mark(pairs[13].0) == (10nat, 'd', 't'));
    assert(mark(pairs[14].0) == (8nat, 'c', 'y'));
    assert(mark(pairs[15].0) == (7nat, 's', 'v'));
    assert(mark(pairs[16].0) == (7nat, 's', 't'));
    assert(mark(pairs[17].0) == (7nat, 's', 'r'));
    assert(mark(pairs[18].0) == (8nat, 'm', 'e'));
    assert(mark(pairs[19].0) == (6nat, 'b', 'p'));
    assert(mark(pairs[20].0) == (5nat, 'c', 'r'));
    assert(mark(pairs[21].0) == (7nat, 'e', 'y'));
    assert(mark(pairs[22].0) == (13nat, 'm', 'e'));
    assert(mark(pairs[23].0) == (14nat, 's', 't'));
    assert forall|i: int, j: int| 0 <= i < j < pairs.len() implies (#[trigger] pairs[i]).0 != (
    #[trigger] pairs[j]).0 by {
        assert(mark(pairs[i].0) != mark(pairs[j].0));
    }
}

/// Whether `value` can be stored under `key` by a `SET` request under the
/// default limits, and comes back as it was written: the key is one word of
/// at most 20 bytes without a forbidden character, and the value is at most
/// 100 bytes whose only whitespace is single spaces between words.
pub open spec fn is_valid_setting(key: Seq<char>, value: Seq<char>) -> bool {
    &&& is_word(key)
    &&& is_single_spaced(value)
    &&& utf8_len(key) <= MAX_KEY_LENGTH
    &&& utf8_len(value) <= DEFAULT_MAX_VALUE_LENGTH
    &&& !holds_any(key, forbidden_key_chars())
}

/// Whether every one of `pairs` is a valid setting.
pub open spec fn all_valid(pairs: Seq<(Seq<char>, Seq<char>)>) -> bool {
    forall|i: int| 0 <= i < pairs.len() ==> is_valid_setting((#[trigger] pairs[i]).0, pairs[i].1)
}

/// A key of visible ASCII characters and a value of such characters with
/// single spaces between them make a valid setting, if they are short
/// enough.
proof fn lemma_graphic_setting(key: Seq<char>, value: Seq<char>)
    requires
        is_graphic_word(key),
        is_graphic_text(value),
        key.len() <= MAX_KEY_LENGTH,
        value.len() <= DEFAULT_MAX_VALUE_LENGTH,
    ensures
        is_valid_setting(key, value),
{
    lemma_graphic_word(key);
    lemma_graphic_text(value);
    assert forall|i: int| 0 <= i < key.len() implies !forbidden_key_chars().contains(
        #[trigger] key[i],
    ) by {
        if forbidden_key_chars().contains(key[i]) {
            let j = choose|j: int|
                0 <= j < forbidden_key_chars().len() && forbidden_key_chars()[j] == key[i];
            assert(j == 0 || j == 1 || j == 2);
        }
    }
}

/// Every setting of the load data is a valid setting.
pub proof fn lemma_valid_pairs_are_valid()
    ensures
        all_valid(valid_pairs()),
{
    let pairs = valid_pairs();
    assert(is_valid_setting(pairs[0].0, pairs[0].1)) by {
        lemma_db_conn_is_valid();
    }
    assert(is_valid_setting(pairs[1].0, pairs[1].1)) by {
        lemma_log_level_is_valid();
    }
    assert(is_valid_setting(pairs[2].0, pairs[2].1)) by {
        lemma_theme_is_valid();
    }
    assert(is_valid_setting(pairs[3].0, pairs[3].1)) by {
        lemma_max_connections_is_valid();
    }
    assert(is_valid_setting(pairs[4].0, pairs[4].1)) by {
        lemma_timeout_is_valid();
    }
    assert(is_valid_setting(pairs[5].0, pairs[5].1)) by {
        lemma_cache_size_is_valid();
    }
    assert(is_valid_setting(pairs[6].0, pairs[6].1)) by {
        lemma_retry_is_valid();
    }
    assert(is_valid_setting(pairs[7].0, pairs[7].1)) by {
        lemma_caching_is_valid();
    }
    assert(is_valid_setting(pairs[8].0, pairs[8].1)) by {
        lemma_loginapi_is_valid();
    }
    assert(is_valid_setting(pairs[9].0, pairs[9].1)) by {
        lemma_api_key_is_valid();
    }
    assert(is_valid_setting(pairs[10].0, pairs[10].1)) by {
        lemma_api_sec_is_valid();
    }
    assert(is_valid_setting(pairs[11].0, pairs[11].1)) by {
        lemma_lang_is_valid();
    }
    assert(is_valid_setting(pairs[12].0, pairs[12].1)) by {
        lemma_timezone_is_valid();
    }
    assert(is_valid_setting(pairs[13].0, pairs[13].1)) by {
        lemma_date_format_is_valid();
    }
    assert(is_valid_setting(pairs[14].0, pairs[14].1)) by {
        lemma_currency_is_valid();
    }
    assert(is_valid_setting(pairs[15].0, pairs[15].1)) by {
        lemma_smtp_srv_is_valid();
    }
    assert(is_valid_setting(pairs[16].0, pairs[16].1)) by {
        lemma_smtp_prt_is_valid();
    }
    assert(is_valid_setting(pairs[17].0, pairs[17].1)) by {
        lemma_smtp_usr_is_valid();
    }
    assert(is_valid_setting(pairs[18].0, pairs[18].1)) by {
        lemma_mntc_mode_is_valid();
    }
    assert(is_valid_setting(pairs[19].0, pairs[19].1)) by {
        lemma_backup_is_valid();
    }
    assert(is_valid_setting(pairs[20].0, pairs[20].1)) by {
        lemma_compr_is_valid();
    }
    assert(is_valid_setting(pairs[21].0, pairs[21].1)) by {
        lemma_encr_key_is_valid();
    }
    assert(is_valid_setting(pairs[22].0, pairs[22].1)) by {
        lemma_max_upload_size_is_valid();
    }
    assert(is_valid_setting(pairs[23].0, pairs[23].1)) by {
        lemma_session_timeout_is_valid();
    }
}

// One lemma for each setting: its characters are looked at one by one.
proof fn lemma_db_conn_is_valid()
    ensures
        is_valid_setting(
            "dbConn"@,
            "data source=localhost;Initial Catalog=kiwi;User ID=sa;Password"@,
        ),
{
    reveal_strlit("dbConn");
    reveal_strlit("data source=localhost;Initial Catalog=kiwi;User ID=sa;Password");
    lemma_graphic_setting(
        "dbConn"@,
        "data source=localhost;Initial Catalog=kiwi;User ID=sa;Password"@,
    );
}

proof fn lemma_log_level_is_valid()
    ensures
        is_valid_setting("logLevel"@, "Verbose"@),
{
    reveal_strlit("logLevel");
    reveal_strlit("Verbose");
    lemma_graphic_setting("logLevel"@, "Verbose"@);
}

proof fn lemma_theme_is_valid()
    ensures
        is_valid_setting("theme"@, "dark"@),
{
    reveal_strlit("theme");
    reveal_strlit("dark");
    lemma_graphic_setting("theme"@, "dark"@);
}

proof fn lemma_max_connections_is_valid()
    ensures
        is_valid_setting("maxConnections"@, "100"@),
{
    reveal_strlit("maxConnections");
    reveal_strlit("100");
    lemma_graphic_setting("maxConnections"@, "100"@);
}

proof fn lemma_timeout_is_valid()
    ensures
        is_valid_setting("timeout"@, "30"@),
{
    reveal_strlit("timeout");
    reveal_strlit("30");
    lemma_graphic_setting("timeout"@, "30"@);
}

proof fn lemma_cache_size_is_valid()
    ensures
        is_valid_setting("cacheSize"@, "256MB"@),
{
    reveal_strlit("cacheSize");
    reveal_strlit("256MB");
    lemma_graphic_setting("cacheSize"@, "256MB"@);
}

proof fn lemma_retry_is_valid()
    ensures
        is_valid_setting("retry"@, "3"@),
{
    reveal_strlit("retry");
    reveal_strlit("3");
    lemma_graphic_setting("retry"@, "3"@);
}

proof fn lemma_caching_is_valid()
    ensures
        is_valid_setting("caching"@, "off"@),
{
    reveal_strlit("caching");
    reveal_strlit("off");
    lemma_graphic_setting("caching"@, "off"@);
}

proof fn lemma_loginapi_is_valid()
    ensures
        is_valid_setting("loginapi"@, "https://api.azon.com/v1/login"@),
{
    reveal_strlit("loginapi");
    reveal_strlit("https://api.azon.com/v1/login");
    lemma_graphic_setting("loginapi"@, "https://api.azon.com/v1/login"@);
}

proof fn lemma_api_key_is_valid()
    ensures
        is_valid_setting("apiKey"@, "12345-abcde-67890-fghij"@),
{
    reveal_strlit("apiKey");
    reveal_strlit("12345-abcde-67890-fghij");
    lemma_graphic_setting("apiKey"@, "12345-abcde-67890-fghij"@);
}

proof fn lemma_api_sec_is_valid()
    ensures
        is_valid_setting("apiSec"@, "s3cr"@),
{
    reveal_strlit("apiSec");
    reveal_strlit("s3cr");
    lemma_graphic_setting("apiSec"@, "s3cr"@);
}

proof fn lemma_lang_is_valid()
    ensures
        is_valid_setting("lang"@, "tr-TR"@),
{
    reveal_strlit("lang");
    reveal_strlit("tr-TR");
    lemma_graphic_setting("lang"@, "tr-TR"@);
}

proof fn lemma_timezone_is_valid()
    ensures
        is_valid_setting("timezone"@, "Europe/Istanbul"@),
{
    reveal_strlit("timezone");
    reveal_strlit("Europe/Istanbul");
    lemma_graphic_setting("timezone"@, "Europe/Istanbul"@);
}

proof fn lemma_date_format_is_valid()
    ensures
        is_valid_setting("dateFormat"@, "dd/MM/yyyy"@),
{
    reveal_strlit("dateFormat");
    reveal_strlit("dd/MM/yyyy");
    lemma_graphic_setting("dateFormat"@, "dd/MM/yyyy"@);
}

proof fn lemma_currency_is_valid()
    ensures
        is_valid_setting("currency"@, "TRY"@),
{
    reveal_strlit("currency");
    reveal_strlit("TRY");
    lemma_graphic_setting("currency"@, "TRY"@);
}

proof fn lemma_smtp_srv_is_valid()
    ensures
        is_valid_setting("smtpSrv"@, "smtp.azon.com"@),
{
    reveal_strlit("smtpSrv");
    reveal_strlit("smtp.azon.com");
    lemma_graphic_setting("smtpSrv"@, "smtp.azon.com"@);
}

proof fn lemma_smtp_prt_is_valid()
    ensures
        is_valid_setting("smtpPrt"@, "587"@),
{
    reveal_strlit("smtpPrt");
    reveal_strlit("587");
    lemma_graphic_setting("smtpPrt"@, "587"@);
}

proof fn lemma_smtp_usr_is_valid()
    ensures
        is_valid_setting("smtpUsr"@, "noreply@azon.com"@),
{
    reveal_strlit("smtpUsr");
    reveal_strlit("noreply@azon.com");
    lemma_graphic_setting("smtpUsr"@, "noreply@azon.com"@);
}

proof fn lemma_mntc_mode_is_valid()
    ensures
        is_valid_setting("mntcMode"@, "false"@),
{
    reveal_strlit("mntcMode");
    reveal_strlit("false");
    lemma_graphic_setting("mntcMode"@, "false"@);
}

proof fn lemma_backup_is_valid()
    ensures
        is_valid_setting("backup"@, "daily"@),
{
    reveal_strlit("backup");
    reveal_strlit("daily");
    lemma_graphic_setting("backup"@, "daily"@);
}

proof fn lemma_compr_is_valid()
    ensures
        is_valid_setting("compr"@, "enabled"@),
{
    reveal_strlit("compr");
    reveal_strlit("enabled");
    lemma_graphic_setting("compr"@, "enabled"@);
}

proof fn lemma_encr_key_is_valid()
    ensures
        is_valid_setting("encrKey"@, "s3cr3tK3y123!"@),
{
    reveal_strlit("encrKey");
    reveal_strlit("s3cr3tK3y123!");
    lemma_graphic_setting("encrKey"@, "s3cr3tK3y123!"@);
}

proof fn lemma_max_upload_size_is_valid()
    ensures
        is_valid_setting("maxUploadSize"@, "50MB"@),
{
    reveal_strlit("maxUploadSize");
    reveal_strlit("50MB");
    lemma_graphic_setting("maxUploadSize"@, "50MB"@);
}

proof fn lemma_session_timeout_is_valid()
    ensures
        is_valid_setting("sessionTimeout"@, "15m"@),
{
    reveal_strlit("sessionTimeout");
    reveal_strlit("15m");
    lemma_graphic_setting("sessionTimeout"@, "15m"@);
}

/// The request that stores a setting of the load data is accepted under
/// the default limits, and under any that are at least as wide.
pub proof fn lemma_valid_pairs_are_accepted(i: int, config: &Configuration)
    requires
        0 <= i < valid_pairs().len(),
        config.max_key_length >= MAX_KEY_LENGTH,
        config.max_value_length >= DEFAULT_MAX_VALUE_LENGTH,
        config.forbidden_keys@ == forbidden_key_chars(),
    ensures
        parsed(line(set_text(valid_pairs()[i].0, valid_pairs()[i].1))) == (CommandView::Put {
            key: valid_pairs()[i].0,
            value: valid_pairs()[i].1,
        }),
        rejection(parsed(line(set_text(valid_pairs()[i].0, valid_pairs()[i].1))), config) is None,
{
    lemma_valid_pairs_are_valid();
    let pair = valid_pairs()[i];
    assert(is_valid_setting(pair.0, pair.1));
    lemma_set_text_accepted(pair.0, pair.1, config);
    lemma_line_parsed(set_text(pair.0, pair.1));
}

/// Settings to store, and requests that the server must refuse.
#[derive(Debug, Clone)]
pub struct DataSet {
    /// Pairs of key and value, each a valid `SET`; no key occurs twice.
    pub valid_store: Vec<(&'static str, &'static str)>,
    /// Requests that are no commands.
    pub invalid_commands: Vec<&'static str>,
}

/// The settings as they are stored in the data set.
fn settings() -> (pairs: Vec<(&'static str, &'static str)>)
    ensures
        pair_views(pairs@) == valid_pairs(),
{
    let pairs = vec![
        ("dbConn", "data source=localhost;Initial Catalog=kiwi;User ID=sa;Password"),
        ("logLevel", "Verbose"),
        ("theme", "dark"),
        ("maxConnections", "100"),
        ("timeout", "30"),
        ("cacheSize", "256MB"),
        ("retry", "3"),
        ("caching", "off"),
        ("loginapi", "https://api.azon.com/v1/login"),
        ("apiKey", "12345-abcde-67890-fghij"),
        ("apiSec", "s3cr"),
        ("lang", "tr-TR"),
        ("timezone", "Europe/Istanbul"),
        ("dateFormat", "dd/MM/yyyy"),
        ("currency", "TRY"),
        ("smtpSrv", "smtp.azon.com"),
        ("smtpPrt", "587"),
        ("smtpUsr", "noreply@azon.com"),
        ("mntcMode", "false"),
        ("backup", "daily"),
        ("compr", "enabled"),
        ("encrKey", "s3cr3tK3y123!"),
        ("maxUploadSize", "50MB"),
        ("sessionTimeout", "15m"),
    ];
    assert(pair_views(pairs@) =~= valid_pairs());
    pairs
}

/// The invalid requests as they are stored in the data set.
fn invalid_requests() -> (lines: Vec<&'static str>)
    ensures
        line_views(lines@) == invalid_lines(),
{
    let lines = vec![
        "INSERT username john password secret",
        "UPDATE userSettings theme light",
        "SELECT * FROM users WHERE id = 1",
        "RETREIVE username",
        "DELETE username",
        "CREATE TABLE newTable (id INT, name VARCHAR(100))",
        "CHECK health",
    ];
    assert(line_views(lines@) =~= invalid_lines());
    lines
}

impl DataSet {
    /// The data set that the runs use.
    pub fn new() -> (data: DataSet)
        ensures
            pair_views(data.valid_store@) == valid_pairs(),
            line_views(data.invalid_commands@) == invalid_lines(),
            distinct_keys(pair_views(data.valid_store@)),
            all_valid(pair_views(data.valid_store@)),
    {
        proof {
            lemma_valid_pairs_distinct();
            lemma_valid_pairs_are_valid();
        }
        DataSet { valid_store: settings(), invalid_commands: invalid_requests() }
    }
}

} // verus!
