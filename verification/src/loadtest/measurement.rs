//! The kind of a run, and the count of its outcomes.

use crate::text::str_eq;
use vstd::prelude::*;

verus! {

/// The kind of run.
#[derive(Debug, Clone, Copy, PartialEq, Eq, Structural)]
pub enum TestType {
    /// Requests that the server accepts.
    Load,
    /// Requests that the server must refuse.
    Fuzz,
}

impl Default for TestType {
    fn default() -> (kind: TestType)
        ensures
            kind == TestType::Load,
    {
        TestType::Load
    }
}

impl TestType {
    /// The name of the kind as it is written in a record of the run.
    pub open spec fn name_text(self) -> Seq<char> {
        match self {
            TestType::Load => "Load"@,
            TestType::Fuzz => "Fuzz"@,
        }
    }

    /// The kind that the word `kind` asks for, if it names one.
    pub open spec fn named(kind: Seq<char>) -> Option<TestType> {
        if kind == "fuzz"@ {
            Some(TestType::Fuzz)
        } else if kind == "load"@ {
            Some(TestType::Load)
        } else {
            None
        }
    }

    /// The name of the kind as it is written in a record of the run.
    pub fn name(&self) -> (name: &'static str)
        ensures
            name@ == self.name_text(),
    {
        match self {
            TestType::Load => "Load",
            TestType::Fuzz => "Fuzz",
        }
    }

    /// Reads the kind of run from the word `fuzz` or `load`.
    pub fn from_kind(kind: &str) -> (found: Option<TestType>)
        ensures
            found == TestType::named(kind@),
    {
        if str_eq(kind, "fuzz") {
            Some(TestType::Fuzz)
        } else if str_eq(kind, "load") {
            Some(TestType::Load)
        } else {
            None
        }
    }
}

/// How one request ended. The milliseconds are the time from the moment
/// the connection stood to the moment the outcome was known.
#[derive(Debug, Clone, Copy, PartialEq, Eq)]
pub enum Outcome {
    /// No connection could be made.
    Unreachable,
    /// The request could not be sent.
    SendFailed { millis: u128 },
    /// The request was sent and no reply could be read.
    ReceiveFailed { millis: u128 },
    /// A reply was read.
    Answered { millis: u128 },
}

impl Outcome {
    /// Whether the request counts as successful: a reply was read.
    pub open spec fn succeeded(self) -> bool {
        self is Answered
    }

    /// Whether a reply was read.
    pub fn is_success(&self) -> (success: bool)
        ensures
            success == self.succeeded(),
    {
        match self {
            Outcome::Answered { .. } => true,
            _ => false,
        }
    }

    /// The time measured for the request, if a connection was made.
    pub open spec fn duration(self) -> Option<u128> {
        match self {
            Outcome::Unreachable => None,
            Outcome::SendFailed { millis } => Some(millis),
            Outcome::ReceiveFailed { millis } => Some(millis),
            Outcome::Answered { millis } => Some(millis),
        }
    }
}

/// The sum of `durations`.
pub open spec fn sum(durations: Seq<u128>) -> nat
    decreases durations.len(),
{
    if durations.len() == 0 {
        0
    } else {
        sum(durations.drop_last()) + durations.last() as nat
    }
}

/// The count of a run so far: requests that succeeded, requests that
/// failed, and the time measured for each request that got a connection.
#[derive(Debug, Clone, PartialEq, Eq)]
pub struct Tally {
    pub successful: usize,
    pub failed: usize,
    pub durations: Vec<u128>,
}

impl Tally {
    /// The count before any request.
    pub fn new() -> (tally: Tally)
        ensures
            tally.successful == 0,
            tally.failed == 0,
            tally.durations@ == Seq::<u128>::empty(),
    {
        Tally { successful: 0, failed: 0, durations: Vec::new() }
    }

    /// Counts one request. The counter that grows must not be at its limit.
    pub fn record(&mut self, outcome: Outcome)
        requires
            outcome.succeeded() ==> old(self).successful < usize::MAX,
            !outcome.succeeded() ==> old(self).failed < usize::MAX,
        ensures
            final(self).successful == old(self).successful + (if outcome.succeeded() {
                1int
            } else {
                0int
            }),
            final(self).failed == old(self).failed + (if outcome.succeeded() {
                0int
            } else {
                1int
            }),
            final(self).durations@ == (match outcome.duration() {
                Some(millis) => old(self).durations@.push(millis),
                None => old(self).durations@,
            }),
    {
        match outcome {
            Outcome::Unreachable => {
                self.failed = self.failed + 1;
            },
            Outcome::SendFailed { millis } => {
                self.failed = self.failed + 1;
                self.durations.push(millis);
            },
            Outcome::ReceiveFailed { millis } => {
                self.failed = self.failed + 1;
                self.durations.push(millis);
            },
            Outcome::Answered { millis } => {
                self.successful = self.successful + 1;
                self.durations.push(millis);
            },
        }
    }

    /// Adds the count of another client to this one.
    pub fn merge(&mut self, other: Tally)
        requires
            old(self).successful + other.successful <= usize::MAX,
            old(self).failed + other.failed <= usize::MAX,
        ensures
            final(self).successful == old(self).successful + other.successful,
            final(self).failed == old(self).failed + other.failed,
            final(self).durations@ == old(self).durations@ + other.durations@,
    {
        let mut other = other;
        self.successful = self.successful + other.successful;
        self.failed = self.failed + other.failed;
        self.durations.append(&mut other.durations);
    }

    /// How many requests were counted, if the number fits.
    pub fn total_commands(&self) -> (total: Option<usize>)
        ensures
            match total {
                Some(n) => n == self.successful + self.failed,
                None => self.successful + self.failed > usize::MAX,
            },
    {
        self.successful.checked_add(self.failed)
    }

    /// The sum of the measured times, if it fits.
    pub fn total_millis(&self) -> (total: Option<u128>)
        ensures
            match total {
                Some(n) => n == sum(self.durations@),
                None => sum(self.durations@) > u128::MAX,
            },
    {
        let mut total: u128 = 0;
        let mut i: usize = 0;
        while i < self.durations.len()
            invariant
                i <= self.durations@.len(),
                total == sum(self.durations@.take(i as int)),
            decreases self.durations@.len() - i,
        {
            proof {
                assert(self.durations@.take(i + 1).drop_last() =~= self.durations@.take(i as int));
                lemma_sum_grows(self.durations@, i + 1);
            }
            match total.checked_add(self.durations[i]) {
                Some(next) => {
                    total = next;
                },
                None => {
                    return None;
                },
            }
            i = i + 1;
        }
        proof {
            assert(self.durations@.take(self.durations@.len() as int) =~= self.durations@);
        }
        Some(total)
    }
}

/// The sum of the first `n` durations is at most the sum of all.
proof fn lemma_sum_grows(durations: Seq<u128>, n: int)
    requires
        0 <= n <= durations.len(),
    ensures
        sum(durations.take(n)) <= sum(durations),
    decreases durations.len() - n,
{
    if n == durations.len() {
        assert(durations.take(n) =~= durations);
    } else {
        lemma_sum_grows(durations, n + 1);
        assert(durations.take(n + 1).drop_last() =~= durations.take(n));
    }
}

} // verus!
