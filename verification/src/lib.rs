//! A command-line annotation registry: asset references tagged with
//! entities, asset types and principle-based quality reviews, driven by a
//! two-surface command grammar (a colon-prefixed functional syntax and a
//! dash-prefixed flag syntax).
//!
//! The registry store owns all mutation and cascade logic; the grammar
//! module classifies one input line into a typed command; the dispatch
//! module binds a parsed command to a store operation and reports the
//! outcome as plain data.

pub mod strutil;
pub mod errors;
pub mod store;
pub mod laws;
pub mod rating;
pub mod grammar;
pub mod dispatch;
pub mod paths;
pub mod config;
pub mod notation;
