//! A federated GraphQL router: supergraph catalog, query planning, cost
//! limits, response merging and the reliability policies around subgraph
//! calls, with their contracts proved by Verus.

pub mod auth;
pub mod cache;
pub mod config;
pub mod digest;
pub mod error;
pub mod execute;
pub mod graphql;
pub mod http;
pub mod json;
pub mod limits;
pub mod logging;
pub mod merge;
pub mod metrics;
pub mod persisted_queries;
pub mod plan;
pub mod rate_limit;
pub mod registry;
pub mod reliability;
pub mod server;
pub mod strmap;
pub mod supergraph;
pub mod text;
pub mod usage;
