//! GraphQL documents, the request/response envelope, parsing and
//! schema-independent validation.

pub mod ast;
pub mod parse;
pub mod project;
pub mod types;
pub mod validate;
