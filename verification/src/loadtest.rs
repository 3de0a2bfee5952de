//! What a load or fuzz run against the server needs: the data it sends,
//! the choice of the next request, and the count of what came back.

pub mod cli;
pub mod data;
pub mod measurement;
pub mod runner;
