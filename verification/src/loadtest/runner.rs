//! The next request of a run, picked at random from the data set.

use crate::command::{set_line, set_text};
use crate::loadtest::data::DataSet;
use crate::text::{line, to_line};
use rand::rngs::StdRng;
use rand::seq::IndexedRandom;
use vstd::prelude::*;

verus! {

/// rand's `StdRng`, the generator that the runs pick with. It is handed
/// through as it is; nothing is known of what it holds.
#[verifier::external_type_specification]
#[verifier::external_body]
pub struct ExStdRng(StdRng);

/// Calls `choose` of rand's `IndexedRandom` on a slice. Trusted: the
/// result is `None` for an empty slice and otherwise one of its items,
/// whichever the generator picks.
#[verifier::external_body]
fn pick<'a, T>(items: &'a [T], rng: &mut StdRng) -> (picked: Option<&'a T>)
    ensures
        match picked {
            Some(item) => items@.contains(*item),
            None => items@.len() == 0,
        },
{
    items.choose(rng)
}

/// The next request of a load run: one of the settings, picked at random,
/// as a `SET` request. `None` when there are no settings.
pub fn load_command(data: &DataSet, rng: &mut StdRng) -> (request: Option<String>)
    ensures
        match request {
            Some(r) => exists|i: int|
                0 <= i < data.valid_store@.len() && r@ == line(
                    set_text((#[trigger] data.valid_store@[i]).0@, data.valid_store@[i].1@),
                ),
            None => data.valid_store@.len() == 0,
        },
{
    match pick(data.valid_store.as_slice(), rng) {
        Some(pair) => Some(set_line(pair.0, pair.1)),
        None => None,
    }
}

/// The next request of a fuzz run: one of the invalid requests, picked at
/// random, as a line. `None` when there are none.
pub fn fuzz_command(data: &DataSet, rng: &mut StdRng) -> (request: Option<String>)
    ensures
        match request {
            Some(r) => exists|i: int|
                0 <= i < data.invalid_commands@.len() && r@ == line(
                    (#[trigger] data.invalid_commands@[i])@,
                ),
            None => data.invalid_commands@.len() == 0,
        },
{
    match pick(data.invalid_commands.as_slice(), rng) {
        Some(command) => Some(to_line(command)),
        None => None,
    }
}

} // verus!
