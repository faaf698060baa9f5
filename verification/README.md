# travelgraph_router

A federated GraphQL router. The library (`src/`) holds the router's logic
with Verus contracts; `app/` is the HTTP server around it.

## Library layout

- `supergraph::catalog` — reads a composed federation supergraph (SDL) into
  routes, root-field owners, entity types and their extenders.
- `plan` — plans an operation against the catalog: one initial call per root
  field and one batched `_entities` call per extending subgraph
  (`planner`), with the GraphQL text it forwards (`render`).
- `limits::cost` — depth and complexity scoring with limits.
- `graphql` — the request/response envelope, parsing and schema-less
  validation, and registry-based routing (`project`).
- `execute`, `merge` — the subgraph calls a plan makes and the merge of the
  root fields' initial answers into one response. The `_entities` follow-ups
  are sent, but their answers are not merged into the response.
- `reliability` — per-subgraph circuit breakers and retry/backoff decisions.
- `persisted_queries`, `auth`, `cache`, `rate_limit`, `usage`, `metrics`,
  `registry`, `config` — the request pipeline's policies.
- `server` — the decisions of a `POST /graphql` request, in order.
- `json`, `strmap`, `text`, `http`, `digest` — plain-data building blocks.

`apollo-compiler` parses and serializes GraphQL, `serde_json` reads and
writes JSON, and `sha2`/`hmac`/`hex` compute digests; these calls sit behind
small wrappers whose contracts state what the library relies on. Bearer
tokens are verified in `app/` (`jsonwebtoken` reads the claims with serde
into their typed copy); the library takes the claims it found.

## Running

`app/` reads `config/router.toml` (or `$ROUTER_CONFIG`), applies the
environment overrides (`Config::apply_env_overrides`), loads the
supergraph and the persisted-query manifest, and serves `/graphql`,
`/health` and `/metrics`.
