//! Bridge between a runtime-discovered object-type system and a relational
//! backing store, together with the session-token subsystem and the routing
//! layer that serves the authentication endpoints.
//!
//! The library builds parameterized SQL statements, classifies the rows that
//! come back, mints and resolves opaque session tokens, and decides how each
//! request is answered.  Executing statements against a real database and
//! listening for HTTP traffic are left to the surrounding program, which
//! hands this library plain values and carries its decisions out.

pub mod auth;
pub mod error;
pub mod http;
pub mod query;
pub mod routes;
pub mod session;
pub mod sqlval;
pub mod strkit;
pub mod types;
