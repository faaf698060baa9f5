//! The composed federation supergraph the planner routes against.

pub mod catalog;
