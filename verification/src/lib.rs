//! An in-memory key-value service spoken to over a line-oriented text
//! protocol.
//!
//! A request is one line: `SET <key> <value...>`, `GET <key>`,
//! `REMOVE <key>`, `LIST`, `PING` or `STATS`, the verb in any case. The
//! server reads it ([`command::Command::parse`]), holds it against the
//! configured limits ([`command::Command::validate`]), runs it on the store
//! ([`store::DataStore`]) and answers with one reply
//! ([`handler::handle_request`]). [`handler::advance`] takes a connection
//! through its events, one request per read.
//!
//! Each function states what it returns and changes over plain models:
//! texts are sequences of characters, the store is a finite map. What holds
//! across several requests is stated and proved next to the functions it
//! speaks of, as `lemma_` functions.
//!
//! Besides the server, the crate holds what its companions compute: the
//! request line of the command-line client ([`client`]) and the data, the
//! choice of requests and the counting of a load or fuzz run
//! ([`loadtest`]). Sockets, the lock around the store, clocks and databases
//! are left to the program that uses the crate.

pub mod client;
pub mod command;
pub mod config;
pub mod decimal;
pub mod handler;
pub mod loadtest;
pub mod size;
pub mod store;
pub mod text;
pub mod unicode;
