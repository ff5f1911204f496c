//! Fault localization over a stored dependency graph, and pattern-based
//! source repair: the verified core of a repair tool.

pub mod bt;
pub mod database;
pub mod fault_localization;
pub mod fx;
pub mod graph;
pub mod patch_generation;
pub mod utils;
