//! The commands of the protocol: how a request line is read, and which
//! commands the configured limits let through.

use crate::config::Configuration;
use crate::decimal::{decimal, decimal_string};
use crate::text::{
    byte_len, contains_any, holds_any, is_single_spaced, is_word, join, join_strs,
    lemma_single_spaced, lemma_words_after_space, lemma_words_after_word, lemma_words_of_line,
    line, split_words, str_eq, str_views, to_line, utf8_len, words,
};
use crate::unicode::{lemma_uppercase_unchanged, uppercase, uppercase_string};
use vstd::prelude::*;
use vstd::slice::slice_subrange;
use vstd::string::StringExecFns;

verus! {

/// One request, as read from a line.
#[derive(Debug, Clone, PartialEq, Eq)]
pub enum Command {
    /// Store `value` under `key` (the verb `SET`).
    Put { key: String, value: String },
    /// Look `key` up.
    Get { key: String },
    /// Delete `key`.
    Remove { key: String },
    /// List every key.
    List,
    /// Ask whether the server is there.
    Ping,
    /// Ask for the store's statistics.
    Stats,
    /// Anything else; holds the verb as it was read, in uppercase.
    Invalid(String),
}

/// A [`Command`] with its strings as character sequences.
pub enum CommandView {
    Put { key: Seq<char>, value: Seq<char> },
    Get { key: Seq<char> },
    Remove { key: Seq<char> },
    List,
    Ping,
    Stats,
    Invalid(Seq<char>),
}

impl View for Command {
    type V = CommandView;

    open spec fn view(&self) -> CommandView {
        match *self {
            Command::Put { key, value } => CommandView::Put { key: key@, value: value@ },
            Command::Get { key } => CommandView::Get { key: key@ },
            Command::Remove { key } => CommandView::Remove { key: key@ },
            Command::List => CommandView::List,
            Command::Ping => CommandView::Ping,
            Command::Stats => CommandView::Stats,
            Command::Invalid(verb) => CommandView::Invalid(verb@),
        }
    }
}

/// The first of `parts`, or the empty text when there is none.
pub open spec fn first_or_empty(parts: Seq<Seq<char>>) -> Seq<char> {
    if parts.len() > 0 {
        parts[0]
    } else {
        Seq::empty()
    }
}

/// All of `parts` but the first.
pub open spec fn after_first(parts: Seq<Seq<char>>) -> Seq<Seq<char>> {
    if parts.len() > 0 {
        parts.drop_first()
    } else {
        Seq::empty()
    }
}

/// The command that an uppercase verb and the words after it make.
///
/// `SET` takes the first word as key and the remaining words, joined by
/// single spaces, as value. `GET` and `REMOVE` take the first word as key
/// and ignore the rest. `LIST`, `STATS` and `PING` take nothing. A missing
/// word is the empty text. Any other verb is invalid.
pub open spec fn command_of(verb: Seq<char>, args: Seq<Seq<char>>) -> CommandView {
    if verb == "SET"@ {
        CommandView::Put { key: first_or_empty(args), value: join(after_first(args), " "@) }
    } else if verb == "GET"@ {
        CommandView::Get { key: first_or_empty(args) }
    } else if verb == "REMOVE"@ {
        CommandView::Remove { key: first_or_empty(args) }
    } else if verb == "LIST"@ {
        CommandView::List
    } else if verb == "STATS"@ {
        CommandView::Stats
    } else if verb == "PING"@ {
        CommandView::Ping
    } else {
        CommandView::Invalid(verb)
    }
}

/// The command that the request text `input` stands for: its first word in
/// uppercase is the verb, the other words are the arguments.
pub open spec fn parsed(input: Seq<char>) -> CommandView {
    command_of(uppercase(first_or_empty(words(input))), after_first(words(input)))
}

/// Why a command was refused: the message to report, which names the
/// failure.
pub type ValidationError = String;

/// Message for a `SET` without key or without value.
pub open spec fn empty_field_message() -> Seq<char> {
    "Key or value cannot be empty"@
}

/// Message for a key of `len` bytes, more than allowed.
pub open spec fn key_too_long_message(len: nat) -> Seq<char> {
    "Key exceeds maximum length: "@ + decimal(len)
}

/// Message for a value of `len` bytes, more than allowed.
pub open spec fn value_too_long_message(len: nat) -> Seq<char> {
    "Value exceeds maximum length: "@ + decimal(len)
}

/// Message for a key that holds a forbidden character.
pub open spec fn forbidden_key_message(key: Seq<char>) -> Seq<char> {
    "Key contains forbidden characters: "@ + key
}

/// Message for a verb that is no command.
pub open spec fn invalid_command_message(verb: Seq<char>) -> Seq<char> {
    "Invalid command: "@ + verb
}

/// Why `config` refuses `cmd`, as the message to report, or `None` when it
/// lets the command through. Of several violations the first in this order
/// is reported: an empty key or value, a key that is too long, a value that
/// is too long, a forbidden character in the key. Lengths are in bytes.
pub open spec fn rejection(cmd: CommandView, config: &Configuration) -> Option<Seq<char>> {
    match cmd {
        CommandView::Put { key, value } => {
            if key.len() == 0 || value.len() == 0 {
                Some(empty_field_message())
            } else if utf8_len(key) > config.max_key_length {
                Some(key_too_long_message(utf8_len(key)))
            } else if utf8_len(value) > config.max_value_length {
                Some(value_too_long_message(utf8_len(value)))
            } else if holds_any(key, config.forbidden_keys@) {
                Some(forbidden_key_message(key))
            } else {
                None
            }
        },
        CommandView::Get { key } | CommandView::Remove { key } => {
            if utf8_len(key) > config.max_key_length {
                Some(key_too_long_message(utf8_len(key)))
            } else {
                None
            }
        },
        CommandView::List | CommandView::Stats | CommandView::Ping => None,
        CommandView::Invalid(verb) => Some(invalid_command_message(verb)),
    }
}

/// The text of the request that stores `value` under `key`.
pub open spec fn set_text(key: Seq<char>, value: Seq<char>) -> Seq<char> {
    "SET "@ + key + " "@ + value
}

/// The text of a request that names `key` after the verb `verb`.
pub open spec fn key_text(verb: Seq<char>, key: Seq<char>) -> Seq<char> {
    verb + " "@ + key
}

/// Reading the request `SET key value` gives back the key and the value,
/// provided the key is one word and the only whitespace in the value is
/// single spaces between words. (A key with whitespace in it would be cut
/// at the whitespace, and other whitespace in the value would be dropped
/// or become single spaces.)
pub proof fn lemma_set_text_parsed(key: Seq<char>, value: Seq<char>)
    requires
        is_word(key),
        is_single_spaced(value),
    ensures
        parsed(set_text(key, value)) == (CommandView::Put { key, value }),
{
    lemma_single_spaced(value);
    reveal_strlit("SET ");
    reveal_strlit("SET");
    reveal_strlit(" ");
    let verb = "SET"@;
    let tail2 = seq![' '] + value;
    let tail1 = key + tail2;
    let tail0 = seq![' '] + tail1;
    assert("SET "@ =~= verb + seq![' ']);
    assert(" "@ =~= seq![' ']);
    assert(set_text(key, value) =~= verb + tail0);
    assert(tail0[0] == ' ');
    assert(tail2[0] == ' ');
    lemma_words_after_word(verb, tail0);
    lemma_words_after_space(' ', tail1);
    lemma_words_after_word(key, tail2);
    lemma_words_after_space(' ', value);
    let all = words(set_text(key, value));
    assert(all =~= seq![verb, key] + words(value));
    assert(all[0] == verb);
    lemma_uppercase_unchanged(verb);
    let args = after_first(all);
    assert(args =~= seq![key] + words(value));
    assert(args[0] == key);
    assert(after_first(args) =~= words(value));
}

/// `PING`, `LIST` and `STATS`, each alone, are read as the commands of
/// those names.
pub proof fn lemma_bare_verb_parsed(verb: Seq<char>)
    requires
        verb == "PING"@ || verb == "LIST"@ || verb == "STATS"@,
    ensures
        verb == "PING"@ ==> parsed(verb) == CommandView::Ping,
        verb == "LIST"@ ==> parsed(verb) == CommandView::List,
        verb == "STATS"@ ==> parsed(verb) == CommandView::Stats,
{
    reveal_strlit("PING");
    reveal_strlit("LIST");
    reveal_strlit("STATS");
    reveal_strlit("SET");
    reveal_strlit("GET");
    reveal_strlit("REMOVE");
    lemma_words_after_word(verb, Seq::empty());
    assert(verb + Seq::<char>::empty() =~= verb);
    assert(words(Seq::<char>::empty()) =~= Seq::<Seq<char>>::empty());
    let all = words(verb);
    assert(all =~= seq![verb]);
    assert(all[0] == verb);
    assert(after_first(all) =~= Seq::<Seq<char>>::empty());
    lemma_uppercase_unchanged(verb);
}

/// `GET key` and `REMOVE key` are read as the lookup and the removal of
/// `key`, provided the key is one word.
pub proof fn lemma_key_text_parsed(verb: Seq<char>, key: Seq<char>)
    requires
        verb == "GET"@ || verb == "REMOVE"@,
        is_word(key),
    ensures
        verb == "GET"@ ==> parsed(key_text(verb, key)) == (CommandView::Get { key }),
        verb == "REMOVE"@ ==> parsed(key_text(verb, key)) == (CommandView::Remove { key }),
{
    reveal_strlit("SET");
    reveal_strlit("GET");
    reveal_strlit("REMOVE");
    reveal_strlit(" ");
    let tail = seq![' '] + key;
    assert(" "@ =~= seq![' ']);
    assert(key_text(verb, key) =~= verb + tail);
    assert(tail[0] == ' ');
    lemma_words_after_word(verb, tail);
    lemma_words_after_space(' ', key);
    lemma_words_after_word(key, Seq::empty());
    assert(key + Seq::<char>::empty() =~= key);
    assert(words(Seq::<char>::empty()) =~= Seq::<Seq<char>>::empty());
    let all = words(key_text(verb, key));
    assert(all =~= seq![verb, key]);
    assert(all[0] == verb);
    let args = after_first(all);
    assert(args =~= seq![key]);
    assert(args[0] == key);
    lemma_uppercase_unchanged(verb);
}

/// A request reads the same with and without the line feed that ends it.
pub proof fn lemma_line_parsed(request: Seq<char>)
    ensures
        parsed(line(request)) == parsed(request),
{
    lemma_words_of_line(request);
}

/// A `SET` request whose key and value keep the limits of `config` is
/// accepted as the command that stores that value under that key.
pub proof fn lemma_set_text_accepted(key: Seq<char>, value: Seq<char>, config: &Configuration)
    requires
        is_word(key),
        is_single_spaced(value),
        utf8_len(key) <= config.max_key_length,
        utf8_len(value) <= config.max_value_length,
        !holds_any(key, config.forbidden_keys@),
    ensures
        parsed(set_text(key, value)) == (CommandView::Put { key, value }),
        rejection(parsed(set_text(key, value)), config) is None,
{
    lemma_set_text_parsed(key, value);
}

/// Writes the request that stores `value` under `key`, as a line.
pub fn set_line(key: &str, value: &str) -> (request: String)
    ensures
        request@ == line(set_text(key@, value@)),
{
    let mut request = String::from_str("SET ");
    request.append(key);
    request.append(" ");
    request.append(value);
    to_line(request.as_str())
}

/// Writes the request that names `key` after the verb `verb`, as a line.
pub fn key_line(verb: &str, key: &str) -> (request: String)
    ensures
        request@ == line(key_text(verb@, key@)),
{
    let mut request = String::from_str(verb);
    request.append(" ");
    request.append(key);
    to_line(request.as_str())
}

fn key_too_long(len: usize) -> (message: String)
    ensures
        message@ == key_too_long_message(len as nat),
{
    let mut message = String::from_str("Key exceeds maximum length: ");
    message.append(decimal_string(len as u128).as_str());
    message
}

impl Command {
    /// Reads a request. Never fails: text that is no command becomes
    /// [`Command::Invalid`], and a missing argument becomes an empty string.
    pub fn parse(input: &str) -> (cmd: Command)
        ensures
            cmd@ == parsed(input@),
    {
        let parts = split_words(input);
        if parts.len() == 0 {
            proof {
                reveal_strlit("");
                assert(""@ =~= Seq::<char>::empty());
            }
            let none: Vec<&str> = Vec::new();
            assert(str_views(none@) =~= Seq::<Seq<char>>::empty());
            Command::from_words(uppercase_string(""), none.as_slice())
        } else {
            let verb = uppercase_string(parts[0]);
            let args = slice_subrange(parts.as_slice(), 1, parts.len());
            assert(str_views(args@) =~= words(input@).drop_first());
            Command::from_words(verb, args)
        }
    }

    /// Builds the command from its verb, already in uppercase, and the words
    /// that followed it.
    pub fn from_words(verb: String, args: &[&str]) -> (cmd: Command)
        ensures
            cmd@ == command_of(verb@, str_views(args@)),
    {
        let key = if args.len() > 0 {
            String::from_str(args[0])
        } else {
            String::new()
        };
        if str_eq(verb.as_str(), "SET") {
            let value = if args.len() > 0 {
                let tail = slice_subrange(args, 1, args.len());
                assert(str_views(tail@) =~= str_views(args@).drop_first());
                join_strs(tail, " ")
            } else {
                assert(join(Seq::<Seq<char>>::empty(), " "@) =~= Seq::<char>::empty());
                String::new()
            };
            Command::Put { key, value }
        } else if str_eq(verb.as_str(), "GET") {
            Command::Get { key }
        } else if str_eq(verb.as_str(), "REMOVE") {
            Command::Remove { key }
        } else if str_eq(verb.as_str(), "LIST") {
            Command::List
        } else if str_eq(verb.as_str(), "STATS") {
            Command::Stats
        } else if str_eq(verb.as_str(), "PING") {
            Command::Ping
        } else {
            Command::Invalid(verb)
        }
    }

    /// Holds the command against the limits of `config`: hands it back when
    /// they let it through, and otherwise reports the first violation.
    pub fn validate(self, config: &Configuration) -> (checked: Result<Command, ValidationError>)
        ensures
            match checked {
                Ok(cmd) => rejection(self@, config) is None && cmd == self,
                Err(message) => rejection(self@, config) == Some(message@),
            },
    {
        match &self {
            Command::Put { key, value } => {
                if key.as_str().is_empty() || value.as_str().is_empty() {
                    return Err(String::from_str("Key or value cannot be empty"));
                }
                if byte_len(key.as_str()) > config.max_key_length {
                    return Err(key_too_long(byte_len(key.as_str())));
                }
                if byte_len(value.as_str()) > config.max_value_length {
                    let mut message = String::from_str("Value exceeds maximum length: ");
                    message.append(decimal_string(byte_len(value.as_str()) as u128).as_str());
                    return Err(message);
                }
                if contains_any(key.as_str(), &config.forbidden_keys) {
                    let mut message = String::from_str("Key contains forbidden characters: ");
                    message.append(key.as_str());
                    return Err(message);
                }
            },
            Command::Get { key } | Command::Remove { key } => {
                if byte_len(key.as_str()) > config.max_key_length {
                    return Err(key_too_long(byte_len(key.as_str())));
                }
            },
            Command::List | Command::Stats | Command::Ping => {},
            Command::Invalid(verb) => {
                let mut message = String::from_str("Invalid command: ");
                message.append(verb.as_str());
                return Err(message);
            },
        }
        Ok(self)
    }
}

} // verus!
