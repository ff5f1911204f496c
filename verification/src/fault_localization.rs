//! From a failure trace to a ranked list of suspicious locations.

pub mod extract;
pub mod rank;
pub mod text;
