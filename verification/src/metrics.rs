//! The router's Prometheus metrics: which counters and histograms each event
//! updates, with which labels. The exporter records them.

use vstd::prelude::*;
use crate::text::str_eq;

verus! {

/// A value recorded into a histogram.
#[derive(Debug, Clone, Copy, PartialEq, Eq, Structural)]
pub enum Observation {
    /// A duration in nanoseconds, recorded in milliseconds.
    DurationNanos(u64),
    /// A count recorded as it is.
    Amount(u64),
}

/// One metric update.
#[derive(Debug)]
pub enum MetricUpdate {
    /// Add 1 to a counter.
    Increment { name: &'static str, labels: Vec<(&'static str, String)> },
    /// Record an observation into a histogram.
    Record { name: &'static str, labels: Vec<(&'static str, String)>, observation: Observation },
}

pub enum UpdateView {
    Increment { name: Seq<char>, labels: Seq<(Seq<char>, Seq<char>)> },
    Record { name: Seq<char>, labels: Seq<(Seq<char>, Seq<char>)>, observation: Observation },
}

pub open spec fn labels_view(l: Seq<(&'static str, String)>) -> Seq<(Seq<char>, Seq<char>)> {
    l.map_values(|p: (&'static str, String)| (p.0@, p.1@))
}

impl View for MetricUpdate {
    type V = UpdateView;

    open spec fn view(&self) -> UpdateView {
        match self {
            MetricUpdate::Increment { name, labels } => UpdateView::Increment {
                name: name@,
                labels: labels_view(labels@),
            },
            MetricUpdate::Record { name, labels, observation } => UpdateView::Record {
                name: name@,
                labels: labels_view(labels@),
                observation: *observation,
            },
        }
    }
}

pub open spec fn updates_view(v: Seq<MetricUpdate>) -> Seq<UpdateView> {
    v.map_values(|u: MetricUpdate| u@)
}

fn one_label(key: &'static str, value: &str) -> (r: Vec<(&'static str, String)>)
    ensures
        labels_view(r@) == seq![(key@, value@)],
{
    let mut l: Vec<(&'static str, String)> = Vec::new();
    l.push((key, value.to_owned()));
    assert(labels_view(l@) =~= seq![(key@, value@)]);
    l
}

fn no_labels() -> (r: Vec<(&'static str, String)>)
    ensures
        labels_view(r@) == Seq::<(Seq<char>, Seq<char>)>::empty(),
{
    let l: Vec<(&'static str, String)> = Vec::new();
    assert(labels_view(l@) =~= Seq::<(Seq<char>, Seq<char>)>::empty());
    l
}

fn single(u: MetricUpdate) -> (r: Vec<MetricUpdate>)
    ensures
        updates_view(r@) == seq![u@],
{
    let mut v: Vec<MetricUpdate> = Vec::new();
    let ghost uv = u@;
    v.push(u);
    assert(updates_view(v@) =~= seq![uv]);
    v
}

/// A response-cache lookup: `result` is `hit` or `miss`.
pub fn record_cache(result: &str) -> (r: Vec<MetricUpdate>)
    ensures
        updates_view(r@) == seq![
            UpdateView::Increment {
                name: "graphql_response_cache_total"@,
                labels: seq![("result"@, result@)],
            },
        ] + if result@ == "hit"@ {
            seq![UpdateView::Increment { name: "graphql_cache_hits_total"@, labels: Seq::empty() }]
        } else if result@ == "miss"@ {
            seq![UpdateView::Increment { name: "graphql_cache_misses_total"@, labels: Seq::empty() }]
        } else {
            Seq::<UpdateView>::empty()
        },
{
    let mut v = single(
        MetricUpdate::Increment { name: "graphql_response_cache_total", labels: one_label("result", result) },
    );
    let ghost first = updates_view(v@);
    if str_eq(result, "hit") {
        let u = MetricUpdate::Increment { name: "graphql_cache_hits_total", labels: no_labels() };
        let ghost uv = u@;
        v.push(u);
        assert(updates_view(v@) =~= first + seq![uv]);
    } else if str_eq(result, "miss") {
        let u = MetricUpdate::Increment { name: "graphql_cache_misses_total", labels: no_labels() };
        let ghost uv = u@;
        v.push(u);
        assert(updates_view(v@) =~= first + seq![uv]);
    } else {
        assert(updates_view(v@) =~= first + Seq::<UpdateView>::empty());
    }
    v
}

/// A request refused by the rate limiter.
pub fn record_rate_limited(client: &str) -> (r: Vec<MetricUpdate>)
    ensures
        updates_view(r@) == seq![
            UpdateView::Increment { name: "graphql_rate_limited_total"@, labels: seq![("client"@, client@)] },
        ],
{
    single(MetricUpdate::Increment { name: "graphql_rate_limited_total", labels: one_label("client", client) })
}

/// A finished `/graphql` request: its outcome and how long it took.
pub fn record_graphql_request(operation: &str, status: &str, duration_nanos: u64) -> (r: Vec<MetricUpdate>)
    ensures
        updates_view(r@) == seq![
            UpdateView::Increment {
                name: "graphql_requests_total"@,
                labels: seq![("operation"@, operation@), ("status"@, status@)],
            },
            UpdateView::Record {
                name: "graphql_request_duration_ms"@,
                labels: seq![("operation"@, operation@)],
                observation: Observation::DurationNanos(duration_nanos),
            },
        ],
{
    let mut labels: Vec<(&'static str, String)> = Vec::new();
    labels.push(("operation", operation.to_owned()));
    labels.push(("status", status.to_owned()));
    assert(labels_view(labels@) =~= seq![("operation"@, operation@), ("status"@, status@)]);
    let mut v = single(MetricUpdate::Increment { name: "graphql_requests_total", labels });
    let ghost first = updates_view(v@);
    let u = MetricUpdate::Record {
        name: "graphql_request_duration_ms",
        labels: one_label("operation", operation),
        observation: Observation::DurationNanos(duration_nanos),
    };
    let ghost uv = u@;
    v.push(u);
    assert(updates_view(v@) =~= first.push(uv));
    v
}

/// One subgraph call's duration.
pub fn record_subgraph_duration(subgraph: &str, duration_nanos: u64) -> (r: Vec<MetricUpdate>)
    ensures
        updates_view(r@) == seq![
            UpdateView::Record {
                name: "graphql_subgraph_duration_ms"@,
                labels: seq![("subgraph"@, subgraph@)],
                observation: Observation::DurationNanos(duration_nanos),
            },
        ],
{
    single(
        MetricUpdate::Record {
            name: "graphql_subgraph_duration_ms",
            labels: one_label("subgraph", subgraph),
            observation: Observation::DurationNanos(duration_nanos),
        },
    )
}

/// A failed subgraph call.
pub fn record_subgraph_error(subgraph: &str) -> (r: Vec<MetricUpdate>)
    ensures
        updates_view(r@) == seq![
            UpdateView::Increment {
                name: "graphql_subgraph_errors_total"@,
                labels: seq![("subgraph"@, subgraph@)],
            },
        ],
{
    single(
        MetricUpdate::Increment { name: "graphql_subgraph_errors_total", labels: one_label("subgraph", subgraph) },
    )
}

/// A call refused by an open circuit breaker.
pub fn record_circuit_breaker_open(subgraph: &str) -> (r: Vec<MetricUpdate>)
    ensures
        updates_view(r@) == seq![
            UpdateView::Increment {
                name: "graphql_circuit_breaker_open"@,
                labels: seq![("subgraph"@, subgraph@)],
            },
        ],
{
    single(
        MetricUpdate::Increment { name: "graphql_circuit_breaker_open", labels: one_label("subgraph", subgraph) },
    )
}

/// The complexity score of an admitted operation.
pub fn record_query_complexity(cost: u32) -> (r: Vec<MetricUpdate>)
    ensures
        updates_view(r@) == seq![
            UpdateView::Record {
                name: "graphql_query_complexity"@,
                labels: Seq::empty(),
                observation: Observation::Amount(cost as u64),
            },
        ],
{
    single(
        MetricUpdate::Record {
            name: "graphql_query_complexity",
            labels: no_labels(),
            observation: Observation::Amount(cost as u64),
        },
    )
}

} // verus!
