//! The arguments of a run.

use crate::loadtest::measurement::TestType;
use vstd::prelude::*;

verus! {

/// What a run was asked to do.
#[derive(Debug, Clone)]
pub struct Cli {
    /// The kind of run: `load` or `fuzz`.
    pub kind: String,
    /// How many clients send requests at the same time.
    pub client_count: usize,
    /// How many requests each client sends.
    pub sample_count: usize,
}

impl Cli {
    /// The kind of run that was asked for, if `kind` names one.
    pub fn test_type(&self) -> (found: Option<TestType>)
        ensures
            found == TestType::named(self.kind@),
    {
        TestType::from_kind(self.kind.as_str())
    }
}

} // verus!
