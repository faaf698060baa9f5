//! Request-scoped logging: each `/graphql` request runs inside its own span,
//! identified by a request id.

use vstd::prelude::*;

verus! {

#[verifier::external_type_specification]
#[verifier::external_body]
pub struct ExTracingSpan(tracing::Span);

/// A request's span and the id it is logged under.
pub struct RequestSpanGuard {
    pub span: tracing::Span,
    pub request_id: String,
}

} // verus!
