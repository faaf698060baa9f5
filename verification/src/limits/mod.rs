//! Query depth and complexity limits.

pub mod cost;
