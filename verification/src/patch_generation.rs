//! Pattern-based rewriting of expression trees.

pub mod ast;
pub mod meaning;
pub mod patch;
pub mod patterns;
pub mod transform;
