//! Walks a directory tree and tells a visitor what it meets, leaving out
//! what an ordered list of ignore patterns excludes.
//!
//! The library holds the rules and is verified; it does not touch the file
//! system. [`filter`] compiles ignore patterns and judges paths by them.
//! [`walk`] is the walk itself, as a machine that a loop of the caller
//! feeds; [`walk_model`] describes the same walk as one recursion, and
//! [`walk_proof`], [`walk_laws`] and [`walk_ends`] prove what holds of it.
//! [`collect_stats`] and [`find`] are two visitors, [`output`] renders
//! their reports, and [`matcher`] scores names by edit distance.

pub mod collect_stats;
pub mod error;
pub mod filter;
pub mod find;
pub mod glob;
pub mod matcher;
pub mod output;
pub mod test_utils;
pub mod text;
pub mod walk;
pub mod walk_ends;
pub mod walk_laws;
pub mod walk_model;
pub mod walk_proof;

pub use filter::{GitIgnoreFilter, PathFilter};
pub use find::FindReport;
pub use walk::FsVisitor;
