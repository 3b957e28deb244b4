//! Inspects a resolved package dependency graph and derives, for a chosen
//! root package and optionally its direct dependencies, a classification of
//! which features and optional dependencies are active, available, or
//! active only elsewhere in the build tree.

pub mod cargo_features;
pub mod export_info;
pub mod graph;
pub mod names;
pub mod print;
pub mod resolver;
pub mod seqs;
pub mod versions;
