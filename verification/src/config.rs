//! Server configuration: where to listen and which limits requests must keep.

use crate::decimal::{decimal, decimal_string};
use crate::text::{byte_len, lemma_chars_le_bytes, str_eq};
use vstd::prelude::*;
use vstd::std_specs::iter::IteratorSpec;
use vstd::string::StringExecFns;

verus! {

/// Host used when none is configured.
pub open spec fn default_host() -> Seq<char> {
    "127.0.0.1"@
}

/// Port used when none is configured, or when the configured text is not a
/// port number.
pub const DEFAULT_PORT: u16 = 5544;

/// Longest key, in bytes, in every mode.
pub const MAX_KEY_LENGTH: usize = 20;

/// Longest value, in bytes, in cache mode.
pub const CACHE_MAX_VALUE_LENGTH: usize = 255;

/// Longest value, in bytes, in vault mode.
pub const VAULT_MAX_VALUE_LENGTH: usize = 40;

/// Longest value, in bytes, in any other mode.
pub const DEFAULT_MAX_VALUE_LENGTH: usize = 100;

/// The characters no key may hold: line feed, carriage return and NUL.
pub open spec fn forbidden_key_chars() -> Seq<char> {
    seq!['\n', '\r', '\0']
}

/// The pair (longest key, longest value) that a mode name selects.
pub open spec fn limits_for_mode(mode: Seq<char>) -> (usize, usize) {
    if mode == "CACHE_MODE"@ {
        (MAX_KEY_LENGTH, CACHE_MAX_VALUE_LENGTH)
    } else if mode == "VAULT_MODE"@ {
        (MAX_KEY_LENGTH, VAULT_MAX_VALUE_LENGTH)
    } else {
        (MAX_KEY_LENGTH, DEFAULT_MAX_VALUE_LENGTH)
    }
}

/// Whether `c` is one of `0` to `9`.
pub open spec fn is_digit(c: char) -> bool {
    '0' <= c <= '9'
}

/// The number that a run of decimal digits writes.
pub open spec fn digits_value(s: Seq<char>) -> nat
    decreases s.len(),
{
    if s.len() == 0 {
        0
    } else {
        10 * digits_value(s.drop_last()) + (s.last() as u32 - 48) as nat
    }
}

/// The digits of a port number: `s` without a leading `+`.
pub open spec fn port_digits(s: Seq<char>) -> Seq<char> {
    if s.len() > 0 && s[0] == '+' {
        s.drop_first()
    } else {
        s
    }
}

/// The port that `s` writes: an optional `+`, then one or more decimal
/// digits whose value fits in 16 bits. `None` for any other text.
pub open spec fn port_number(s: Seq<char>) -> Option<u16> {
    let digits = port_digits(s);
    if digits.len() > 0 && (forall|i: int| 0 <= i < digits.len() ==> is_digit(#[trigger] digits[i]))
        && digits_value(digits) <= u16::MAX {
        Some(digits_value(digits) as u16)
    } else {
        None
    }
}

/// A longer run of digits never writes a smaller number than its prefix.
proof fn lemma_digits_value_grows(s: Seq<char>, n: int)
    requires
        0 <= n <= s.len(),
        forall|i: int| 0 <= i < s.len() ==> is_digit(#[trigger] s[i]),
    ensures
        digits_value(s.take(n)) <= digits_value(s),
    decreases s.len() - n,
{
    if n == s.len() {
        assert(s.take(n) =~= s);
    } else {
        lemma_digits_value_grows(s, n + 1);
        assert(s.take(n + 1).drop_last() =~= s.take(n));
    }
}

/// Reads a port number.
pub fn parse_port(s: &str) -> (port: Option<u16>)
    ensures
        port == port_number(s@),
{
    let bound = byte_len(s);
    let mut it = s.chars();
    let ghost digits = port_digits(s@);
    let mut pos: usize = 0;
    let mut sign: usize = 0;
    let mut value: u32 = 0;
    proof {
        lemma_chars_le_bytes(s@);
        assert(s@.skip(0) =~= s@);
        assert(digits.take(0) =~= Seq::<char>::empty());
    }
    loop
        invariant
            s@.len() <= bound,
            digits == port_digits(s@),
            it.remaining() == s@.skip(pos as int),
            sign <= pos <= s@.len(),
            sign <= 1,
            pos > 0 ==> digits == s@.skip(sign as int),
            forall|i: int| 0 <= i < pos - sign ==> is_digit(#[trigger] digits[i]),
            value == digits_value(digits.take(pos - sign)),
            value <= u16::MAX,
        ensures
            pos == s@.len(),
        decreases s@.len() - pos,
    {
        match it.next() {
            None => {
                break ;
            },
            Some(c) => {
                proof {
                    assert(c == s@[pos as int]);
                    assert(s@.skip(pos as int).drop_first() =~= s@.skip(pos + 1));
                    assert(s@.drop_first() =~= s@.skip(1));
                }
                if pos == 0 && c == '+' {
                    sign = 1;
                } else {
                    if !('0' <= c && c <= '9') {
                        assert(!is_digit(digits[pos - sign]));
                        return None;
                    }
                    let d: u32 = c as u32 - 48;
                    proof {
                        let seen = pos - sign;
                        assert(digits.take(seen + 1).drop_last() =~= digits.take(seen));
                        assert(digits.take(seen + 1).last() == c);
                    }
                    value = value * 10 + d;
                    if value > 65535 {
                        proof {
                            if forall|i: int|
                                0 <= i < digits.len() ==> is_digit(#[trigger] digits[i]) {
                                lemma_digits_value_grows(digits, pos - sign + 1);
                            }
                        }
                        return None;
                    }
                }
                pos = pos + 1;
            },
        }
    }
    proof {
        assert(digits.take(digits.len() as int) =~= digits);
    }
    if pos == sign {
        None
    } else {
        Some(value as u16)
    }
}

/// The limits that a mode name selects.
pub fn mode_limits(mode: &str) -> (limits: (usize, usize))
    ensures
        limits == limits_for_mode(mode@),
{
    if str_eq(mode, "CACHE_MODE") {
        (MAX_KEY_LENGTH, CACHE_MAX_VALUE_LENGTH)
    } else if str_eq(mode, "VAULT_MODE") {
        (MAX_KEY_LENGTH, VAULT_MAX_VALUE_LENGTH)
    } else {
        (MAX_KEY_LENGTH, DEFAULT_MAX_VALUE_LENGTH)
    }
}

/// What the server is configured with. Fixed once loaded.
#[derive(Debug, Clone)]
pub struct Configuration {
    /// Host to listen on.
    pub host: String,
    /// Port to listen on.
    pub port: u16,
    /// Longest key accepted, in bytes.
    pub max_key_length: usize,
    /// Longest value accepted, in bytes.
    pub max_value_length: usize,
    /// Characters that no stored key may hold.
    pub forbidden_keys: Vec<char>,
}

/// The list of characters that no key may hold.
fn forbidden_keys() -> (chars: Vec<char>)
    ensures
        chars@ == forbidden_key_chars(),
{
    let mut chars: Vec<char> = Vec::new();
    chars.push('\n');
    chars.push('\r');
    chars.push('\0');
    assert(chars@ =~= forbidden_key_chars());
    chars
}

impl Configuration {
    /// Builds the configuration from the three settings as they were found,
    /// each `None` when it is not set: the host (default `127.0.0.1`), the
    /// port (default 5544, also taken when the text is no port number) and
    /// the mode, which selects the length limits.
    pub fn from_settings(
        host: Option<String>,
        port: Option<String>,
        mode: Option<String>,
    ) -> (config: Configuration)
        ensures
            config.host@ == (match host {
                Some(h) => h@,
                None => default_host(),
            }),
            config.port == (match port {
                Some(p) => match port_number(p@) {
                    Some(n) => n,
                    None => DEFAULT_PORT,
                },
                None => DEFAULT_PORT,
            }),
            (config.max_key_length, config.max_value_length) == (match mode {
                Some(m) => limits_for_mode(m@),
                None => (MAX_KEY_LENGTH, DEFAULT_MAX_VALUE_LENGTH),
            }),
            config.forbidden_keys@ == forbidden_key_chars(),
    {
        let host = match host {
            Some(h) => h,
            None => String::from_str("127.0.0.1"),
        };
        let port = match port {
            Some(p) => match parse_port(p.as_str()) {
                Some(n) => n,
                None => DEFAULT_PORT,
            },
            None => DEFAULT_PORT,
        };
        let (max_key_length, max_value_length) = match mode {
            Some(m) => mode_limits(m.as_str()),
            None => (MAX_KEY_LENGTH, DEFAULT_MAX_VALUE_LENGTH),
        };
        Configuration {
            host,
            port,
            max_key_length,
            max_value_length,
            forbidden_keys: forbidden_keys(),
        }
    }

    /// The address to bind: host, a colon, and the port in decimal.
    pub fn get_listen_address(&self) -> (address: String)
        ensures
            address@ == self.host@ + seq![':'] + decimal(self.port as nat),
    {
        let mut address = self.host.clone();
        proof {
            reveal_strlit(":");
            assert(":"@ =~= seq![':']);
        }
        address.append(":");
        let port = decimal_string(self.port as u128);
        address.append(port.as_str());
        address
    }
}

impl Default for Configuration {
    /// Host `127.0.0.1`, port 5544, keys of up to 20 bytes, values of up to
    /// 100 bytes, and the usual forbidden characters.
    fn default() -> (config: Configuration)
        ensures
            config.host@ == default_host(),
            config.port == DEFAULT_PORT,
            config.max_key_length == MAX_KEY_LENGTH,
            config.max_value_length == DEFAULT_MAX_VALUE_LENGTH,
            config.forbidden_keys@ == forbidden_key_chars(),
    {
        Configuration {
            host: String::from_str("127.0.0.1"),
            port: DEFAULT_PORT,
            max_key_length: MAX_KEY_LENGTH,
            max_value_length: DEFAULT_MAX_VALUE_LENGTH,
            forbidden_keys: forbidden_keys(),
        }
    }
}

} // verus!
