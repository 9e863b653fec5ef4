//! Diff orchestration for two version-control backends: a linear commit VCS
//! and a revset-based VCS.
//!
//! The library decides what to ask each backend for (ranges, content
//! addresses, statistics queries), parses what the backends print (rename
//! listings, numeric statistics, commit identifiers, arrow-encoded paths),
//! and reconciles the per-file change list so that moves show up once, as
//! additions with history, in the order the diff listing gave.

pub mod text;
pub mod pathkey;
pub mod paths;
pub mod range;
pub mod pathmap;
pub mod renames;
pub mod commit;
pub mod stats;
pub mod reconcile;
pub mod plan;
