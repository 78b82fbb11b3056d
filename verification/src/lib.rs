//! Symbol lookup for code search: the `find_impact` budget and envelopes,
//! the SCIP symbol index tables and how queries resolve against them.
pub mod text;
pub mod references;
pub mod tables;
pub mod codec;
pub mod resolve;
pub mod constants;
pub mod warnings;
pub mod envelopes;
pub mod budget;
pub mod handler;
pub mod fixtures;
pub mod git;

pub use fixtures::{find_impact_request, populate_ambiguity_fixture, sample_state};
