//! Type requirements and gradual typing for a configuration language.
//!
//! The typechecker infers a [`types::Type`] for every expression. A
//! [`type_req::TypeReq`] is a demand that such a type must meet, together
//! with the reason the demand exists. Checking a requirement against an
//! inferred type either succeeds, fails with a structured error, or is
//! deferred to runtime, where the real value is walked instead.

pub mod source;
pub mod types;
pub mod runtime;
pub mod error;
pub mod type_req;
