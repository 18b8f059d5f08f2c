//! Git: commands, their output parsers and the commit graph.
pub mod blame;
pub mod diagnose;
pub mod diff;
pub mod error;
pub mod flow;
pub mod graph;
pub mod history;
pub mod hunk;
pub mod mutation;
pub mod preview;
pub mod query;
pub mod stats;
pub mod types;
