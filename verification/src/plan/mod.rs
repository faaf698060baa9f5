//! Query planning against the supergraph.

pub mod planner;
pub mod render;
pub mod types;
