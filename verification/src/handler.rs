//! What the server answers: the reply to each command, the effect on the
//! store, and the steps of one connection.

use crate::command::{
    lemma_bare_verb_parsed, lemma_line_parsed, lemma_set_text_accepted, parsed, rejection,
    set_text, Command, CommandView,
};
use crate::config::Configuration;
use crate::store::{
    lemma_stats_of, lists_keys, stats_of, stats_text, total_value_bytes, DataStore,
};
use crate::text::{
    as_strs, holds_any, is_single_spaced, is_word, join, join_strs, line, string_views, to_line,
    utf8_len,
};
use crate::unicode::{decode_text, text_of};
use vstd::prelude::*;
use vstd::string::StringExecFns;

verus! {

/// The reply that reports a refused request.
pub open spec fn error_line(message: Seq<char>) -> Seq<char> {
    "ERROR: "@ + line(message)
}

/// The store after the accepted command `cmd` has run on the store `m`.
pub open spec fn store_after(m: Map<Seq<char>, Seq<char>>, cmd: CommandView) -> Map<
    Seq<char>,
    Seq<char>,
> {
    match cmd {
        CommandView::Put { key, value } => m.insert(key, value),
        CommandView::Remove { key } => m.remove(key),
        _ => m,
    }
}

/// Whether `reply` answers the accepted command `cmd`, run on the store `m`.
///
/// Every reply ends with a line feed. The reply to `LIST` names the keys,
/// one on each line, in an order that is not fixed; every other reply is
/// determined.
pub open spec fn answers(m: Map<Seq<char>, Seq<char>>, cmd: CommandView, reply: Seq<char>) -> bool {
    match cmd {
        CommandView::Ping => reply == line("PONG"@),
        CommandView::Put { key, value } => reply == line("OK"@),
        CommandView::Get { key } => reply == if m.contains_key(key) {
            line(m[key])
        } else {
            line("NOT FOUND"@)
        },
        CommandView::Remove { key } => reply == if m.contains_key(key) {
            line("OK"@)
        } else {
            line("NOT FOUND"@)
        },
        CommandView::List => if m.len() == 0 {
            reply == line("EMPTY STORE"@)
        } else {
            exists|keys: Seq<Seq<char>>| lists_keys(keys, m) && reply == line(join(keys, "\n"@))
        },
        CommandView::Stats => reply == "STATS: "@ + line(stats_of(m)),
        CommandView::Invalid(_) => false,
    }
}

/// Whether a server that holds the store `before` may answer the request
/// text `request` with `reply` and then hold the store `after`.
///
/// A request that the limits refuse is answered with the error and leaves
/// the store as it was.
pub open spec fn serves(
    before: Map<Seq<char>, Seq<char>>,
    request: Seq<char>,
    config: &Configuration,
    reply: Seq<char>,
    after: Map<Seq<char>, Seq<char>>,
) -> bool {
    match rejection(parsed(request), config) {
        Some(message) => after == before && reply == error_line(message),
        None => after == store_after(before, parsed(request)) && answers(
            before,
            parsed(request),
            reply,
        ),
    }
}

/// A `SET` request that keeps the limits is answered with `OK`, and a
/// lookup of its key on the store that it leaves finds its value.
pub proof fn lemma_set_then_get(
    before: Map<Seq<char>, Seq<char>>,
    key: Seq<char>,
    value: Seq<char>,
    config: &Configuration,
    reply: Seq<char>,
    after: Map<Seq<char>, Seq<char>>,
    found: Seq<char>,
)
    requires
        is_word(key),
        is_single_spaced(value),
        utf8_len(key) <= config.max_key_length,
        utf8_len(value) <= config.max_value_length,
        !holds_any(key, config.forbidden_keys@),
        serves(before, set_text(key, value), config, reply, after),
        answers(after, CommandView::Get { key }, found),
    ensures
        reply == line("OK"@),
        after == before.insert(key, value),
        after.contains_key(key) && after[key] == value,
        found == line(value),
{
    lemma_set_text_accepted(key, value, config);
}

/// Removing a key that is absent is answered with `NOT FOUND` and changes
/// nothing.
pub proof fn lemma_remove_absent(m: Map<Seq<char>, Seq<char>>, key: Seq<char>, reply: Seq<char>)
    requires
        !m.contains_key(key),
        answers(m, CommandView::Remove { key }, reply),
    ensures
        reply == line("NOT FOUND"@),
        store_after(m, CommandView::Remove { key }) == m,
{
    assert(m.remove(key) =~= m);
}

/// Removing a key right after it was stored is answered with `OK`, and a
/// lookup after that is answered with `NOT FOUND`.
pub proof fn lemma_remove_after_set(
    m: Map<Seq<char>, Seq<char>>,
    key: Seq<char>,
    value: Seq<char>,
    removed: Seq<char>,
    found: Seq<char>,
)
    requires
        answers(
            store_after(m, CommandView::Put { key, value }),
            CommandView::Remove { key },
            removed,
        ),
        answers(
            store_after(
                store_after(m, CommandView::Put { key, value }),
                CommandView::Remove { key },
            ),
            CommandView::Get { key },
            found,
        ),
    ensures
        removed == line("OK"@),
        !store_after(
            store_after(m, CommandView::Put { key, value }),
            CommandView::Remove { key },
        ).contains_key(key),
        found == line("NOT FOUND"@),
{
}

/// When the same key is stored twice, with `first` and then with `second`,
/// it holds `second` afterwards, and every other key is as it was. So of
/// two writers to one key, whose commands the store takes one after the
/// other in either order, one value wins whole.
pub proof fn lemma_last_set_wins(
    m: Map<Seq<char>, Seq<char>>,
    key: Seq<char>,
    first: Seq<char>,
    second: Seq<char>,
)
    ensures
        store_after(
            store_after(m, CommandView::Put { key, value: first }),
            CommandView::Put { key, value: second },
        ) == m.insert(key, second),
        store_after(
            store_after(m, CommandView::Put { key, value: second }),
            CommandView::Put { key, value: first },
        ) == m.insert(key, first),
{
    assert(m.insert(key, first).insert(key, second) =~= m.insert(key, second));
    assert(m.insert(key, second).insert(key, first) =~= m.insert(key, first));
}

/// `PING` is answered with `PONG` and leaves the store as it was.
pub proof fn lemma_ping(
    before: Map<Seq<char>, Seq<char>>,
    config: &Configuration,
    reply: Seq<char>,
    after: Map<Seq<char>, Seq<char>>,
)
    requires
        serves(before, line("PING"@), config, reply, after),
    ensures
        reply == line("PONG"@),
        after == before,
{
    lemma_line_parsed("PING"@);
    lemma_bare_verb_parsed("PING"@);
}

/// `STATS` is answered with the number of keys that the store holds at
/// that moment and the bytes of their values, and leaves the store as it
/// was.
pub proof fn lemma_stats(
    before: Map<Seq<char>, Seq<char>>,
    config: &Configuration,
    reply: Seq<char>,
    after: Map<Seq<char>, Seq<char>>,
)
    requires
        before.dom().finite(),
        serves(before, line("STATS"@), config, reply, after),
    ensures
        reply == "STATS: "@ + line(stats_text(before.len(), total_value_bytes(before))),
        after == before,
{
    lemma_line_parsed("STATS"@);
    lemma_bare_verb_parsed("STATS"@);
    lemma_stats_of(before);
}

/// `LIST` on a store without keys is answered with `EMPTY STORE`; on any
/// other store the reply is the keys, each once and each on a line of its
/// own.
pub proof fn lemma_list(
    before: Map<Seq<char>, Seq<char>>,
    config: &Configuration,
    reply: Seq<char>,
    after: Map<Seq<char>, Seq<char>>,
)
    requires
        serves(before, line("LIST"@), config, reply, after),
    ensures
        after == before,
        before.len() == 0 ==> reply == line("EMPTY STORE"@),
        before.len() != 0 ==> exists|keys: Seq<Seq<char>>|
            lists_keys(keys, before) && reply == line(join(keys, "\n"@)),
{
    lemma_line_parsed("LIST"@);
    lemma_bare_verb_parsed("LIST"@);
}

/// Every reply ends with a line feed, whatever the request was.
pub proof fn lemma_reply_is_a_line(
    before: Map<Seq<char>, Seq<char>>,
    request: Seq<char>,
    config: &Configuration,
    reply: Seq<char>,
    after: Map<Seq<char>, Seq<char>>,
)
    requires
        serves(before, request, config, reply, after),
    ensures
        reply.len() > 0,
        reply.last() == '\n',
{
}

/// Whether `config` lets `value` be stored under `key`.
pub open spec fn admits(config: &Configuration, key: Seq<char>, value: Seq<char>) -> bool {
    &&& key.len() > 0
    &&& value.len() > 0
    &&& utf8_len(key) <= config.max_key_length
    &&& utf8_len(value) <= config.max_value_length
    &&& !holds_any(key, config.forbidden_keys@)
}

/// Whether every key of `m`, with its value, is one that `config` lets in.
pub open spec fn keeps_limits(m: Map<Seq<char>, Seq<char>>, config: &Configuration) -> bool {
    forall|key: Seq<char>| m.contains_key(key) ==> admits(config, key, #[trigger] m[key])
}

/// The limits are held against a request before the store is touched: a
/// store whose entries all keep the limits still does so after any
/// request, whatever the request was.
pub proof fn lemma_limits_are_kept(
    before: Map<Seq<char>, Seq<char>>,
    request: Seq<char>,
    config: &Configuration,
    reply: Seq<char>,
    after: Map<Seq<char>, Seq<char>>,
)
    requires
        keeps_limits(before, config),
        serves(before, request, config, reply, after),
    ensures
        keeps_limits(after, config),
{
    assert forall|key: Seq<char>| after.contains_key(key) implies admits(
        config,
        key,
        #[trigger] after[key],
    ) by {
        if before.contains_key(key) {
            assert(admits(config, key, before[key]));
        }
    }
}

/// `message` and a line feed.
pub fn respond(message: &str) -> (reply: String)
    ensures
        reply@ == line(message@),
{
    to_line(message)
}

/// The reply that reports a refused request.
pub fn error_reply(message: &str) -> (reply: String)
    ensures
        reply@ == error_line(message@),
{
    let mut reply = String::from_str("ERROR: ");
    reply.append(respond(message).as_str());
    reply
}

/// Runs an accepted command on the store and gives the reply.
pub fn perform(cmd: Command, store: &mut DataStore) -> (reply: String)
    requires
        !(cmd@ is Invalid),
    ensures
        final(store)@ == store_after(old(store)@, cmd@),
        answers(old(store)@, cmd@, reply@),
{
    match cmd {
        Command::Ping => respond("PONG"),
        Command::Put { key, value } => {
            store.set(key.as_str(), value.as_str());
            respond("OK")
        },
        Command::Get { key } => match store.get(key.as_str()) {
            Some(value) => respond(value.as_str()),
            None => respond("NOT FOUND"),
        },
        Command::Remove { key } => {
            if store.remove(key.as_str()) {
                respond("OK")
            } else {
                respond("NOT FOUND")
            }
        },
        Command::List => {
            if store.is_empty() {
                respond("EMPTY STORE")
            } else {
                let keys = store.keys();
                let names = as_strs(&keys);
                let listing = join_strs(names.as_slice(), "\n");
                assert(lists_keys(string_views(keys@), store@));
                respond(listing.as_str())
            }
        },
        Command::Stats => {
            let mut reply = String::from_str("STATS: ");
            reply.append(respond(store.stats().as_str()).as_str());
            reply
        },
        Command::Invalid(_) => unreached(),
    }
}

/// Answers one request: reads it, holds it against the limits, and runs it
/// on the store if they let it through.
pub fn handle_request(request: &str, store: &mut DataStore, config: &Configuration) -> (reply:
    String)
    ensures
        serves(old(store)@, request@, config, reply@, final(store)@),
{
    match Command::parse(request).validate(config) {
        Ok(cmd) => perform(cmd, store),
        Err(message) => error_reply(message.as_str()),
    }
}

/// Whether a connection goes on.
#[derive(Debug, Clone, Copy, PartialEq, Eq, Structural)]
pub enum ConnectionState {
    /// The next request is awaited, or a reply is being sent.
    Open,
    /// The connection has ended.
    Closed,
}

/// What happened on the connection.
#[derive(Debug, Clone, Copy)]
pub enum Event<'a> {
    /// A read brought these bytes; none at all when the peer has closed.
    Received(&'a [u8]),
    /// A read failed.
    ReadFailed,
    /// The reply was sent.
    Sent,
    /// Sending the reply failed.
    SendFailed,
}

/// What follows an event: the state of the connection and, after a
/// request, the reply to send before the next read.
#[derive(Debug, Clone)]
pub struct Step {
    pub state: ConnectionState,
    pub reply: Option<String>,
}

/// Whether `step`, with the store going from `before` to `after`, is what
/// follows `event`.
///
/// The bytes of one read are one request. A read without bytes, a failed
/// read and a failed send close the connection; nothing is sent then, and
/// the store stays as it was. After a reply is sent the connection stays
/// open for the next read.
pub open spec fn follows(
    event: Event<'_>,
    before: Map<Seq<char>, Seq<char>>,
    config: &Configuration,
    step: Step,
    after: Map<Seq<char>, Seq<char>>,
) -> bool {
    match event {
        Event::Received(bytes) => if bytes@.len() == 0 {
            step.state == ConnectionState::Closed && step.reply is None && after == before
        } else {
            &&& step.state == ConnectionState::Open
            &&& step.reply is Some
            &&& serves(before, text_of(bytes@), config, step.reply.unwrap()@, after)
        },
        Event::ReadFailed | Event::SendFailed => step.state == ConnectionState::Closed
            && step.reply is None && after == before,
        Event::Sent => step.state == ConnectionState::Open && step.reply is None && after
            == before,
    }
}

/// A read without bytes, a failed read and a failed send close the
/// connection: nothing is sent, and the store stays as it was.
pub proof fn lemma_closing_events(
    event: Event<'_>,
    before: Map<Seq<char>, Seq<char>>,
    config: &Configuration,
    step: Step,
    after: Map<Seq<char>, Seq<char>>,
)
    requires
        follows(event, before, config, step, after),
        event is ReadFailed || event is SendFailed || (event matches Event::Received(bytes)
            && bytes@.len() == 0),
    ensures
        step.state == ConnectionState::Closed,
        step.reply is None,
        after == before,
{
}

/// A read that brought bytes is answered with one reply, which ends with a
/// line feed, and the connection stays open.
pub proof fn lemma_request_is_answered(
    event: Event<'_>,
    before: Map<Seq<char>, Seq<char>>,
    config: &Configuration,
    step: Step,
    after: Map<Seq<char>, Seq<char>>,
)
    requires
        follows(event, before, config, step, after),
        event matches Event::Received(bytes) && bytes@.len() > 0,
    ensures
        step.state == ConnectionState::Open,
        step.reply is Some,
        step.reply.unwrap()@.len() > 0,
        step.reply.unwrap()@.last() == '\n',
{
}

/// Takes an open connection through one event.
pub fn advance(event: Event<'_>, store: &mut DataStore, config: &Configuration) -> (step: Step)
    ensures
        follows(event, old(store)@, config, step, final(store)@),
{
    match event {
        Event::Received(bytes) => {
            if bytes.len() == 0 {
                Step { state: ConnectionState::Closed, reply: None }
            } else {
                let request = decode_text(bytes);
                let reply = handle_request(request.as_str(), store, config);
                Step { state: ConnectionState::Open, reply: Some(reply) }
            }
        },
        Event::ReadFailed | Event::SendFailed => Step {
            state: ConnectionState::Closed,
            reply: None,
        },
        Event::Sent => Step { state: ConnectionState::Open, reply: None },
    }
}

} // verus!
