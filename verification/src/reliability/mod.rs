//! Reliability around subgraph calls: a circuit breaker per subgraph, and
//! retries with exponential backoff for idempotent reads.

pub mod circuit;
pub mod dispatch;
