//! Diffing of a new command batch against the current Bakery state.
pub mod sites;
pub mod circuits;
