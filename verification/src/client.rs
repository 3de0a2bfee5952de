//! The command-line client: what it was asked to do, and the request that
//! it sends for it.

use crate::command::{
    key_line, key_text, lemma_bare_verb_parsed, lemma_key_text_parsed, lemma_line_parsed,
    lemma_set_text_parsed, parsed, set_line, set_text, CommandView,
};
use crate::text::{is_single_spaced, is_word, line, to_line};
use vstd::prelude::*;

verus! {

/// What the client was asked to do.
#[derive(Debug, Clone, PartialEq, Eq)]
pub enum Arguments {
    /// Store `value` under `key` (the subcommand `set`).
    Put { key: String, value: String },
    /// Look `key` up.
    Get { key: String },
    /// Delete `key`.
    Remove { key: String },
    /// Ask whether the server is there.
    Ping,
    /// List every key.
    List,
    /// Ask for the store's statistics.
    Stats,
}

/// The arguments of the client: the server's address and what to ask of it.
#[derive(Debug, Clone)]
pub struct Cli {
    pub address: String,
    pub argument: Arguments,
}

impl Arguments {
    /// The command that these arguments ask for.
    pub open spec fn command(self) -> CommandView {
        match self {
            Arguments::Put { key, value } => CommandView::Put { key: key@, value: value@ },
            Arguments::Get { key } => CommandView::Get { key: key@ },
            Arguments::Remove { key } => CommandView::Remove { key: key@ },
            Arguments::Ping => CommandView::Ping,
            Arguments::List => CommandView::List,
            Arguments::Stats => CommandView::Stats,
        }
    }

    /// The text of the request for these arguments.
    pub open spec fn request_text(self) -> Seq<char> {
        match self {
            Arguments::Put { key, value } => set_text(key@, value@),
            Arguments::Get { key } => key_text("GET"@, key@),
            Arguments::Remove { key } => key_text("REMOVE"@, key@),
            Arguments::Ping => "PING"@,
            Arguments::List => "LIST"@,
            Arguments::Stats => "STATS"@,
        }
    }

    /// Whether the request for these arguments carries them unchanged: a
    /// key must be one word, and the only whitespace in a value must be
    /// single spaces between words.
    pub open spec fn survives_sending(self) -> bool {
        match self {
            Arguments::Put { key, value } => is_word(key@) && is_single_spaced(value@),
            Arguments::Get { key } => is_word(key@),
            Arguments::Remove { key } => is_word(key@),
            _ => true,
        }
    }

    /// The server reads the request line of the client as the command that
    /// the client was asked for.
    pub proof fn lemma_request_is_understood(self)
        requires
            self.survives_sending(),
        ensures
            parsed(line(self.request_text())) == self.command(),
    {
        lemma_line_parsed(self.request_text());
        match self {
            Arguments::Put { key, value } => {
                lemma_set_text_parsed(key@, value@);
            },
            Arguments::Get { key } => {
                lemma_key_text_parsed("GET"@, key@);
            },
            Arguments::Remove { key } => {
                lemma_key_text_parsed("REMOVE"@, key@);
            },
            Arguments::Ping => {
                lemma_bare_verb_parsed("PING"@);
            },
            Arguments::List => {
                lemma_bare_verb_parsed("LIST"@);
            },
            Arguments::Stats => {
                lemma_bare_verb_parsed("STATS"@);
            },
        }
    }

    /// Writes the line to send to the server.
    pub fn request_line(&self) -> (request: String)
        ensures
            request@ == line(self.request_text()),
    {
        match self {
            Arguments::Put { key, value } => set_line(key.as_str(), value.as_str()),
            Arguments::Get { key } => key_line("GET", key.as_str()),
            Arguments::Remove { key } => key_line("REMOVE", key.as_str()),
            Arguments::Ping => to_line("PING"),
            Arguments::List => to_line("LIST"),
            Arguments::Stats => to_line("STATS"),
        }
    }
}

} // verus!
