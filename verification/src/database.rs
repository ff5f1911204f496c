//! The records of the graph store.

pub mod model;
