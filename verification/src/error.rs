//! The failure taxonomy shared by every component: client input errors,
//! internal consistency errors, lookup failures, and backing-store failures.

use vstd::prelude::*;

verus! {

/// Every way a component of this library can fail.
///
/// Client input errors (`MissingParameter`, `EmptyParameter`,
/// `MalformedRequest`) are answered with a 400-class response; internal
/// consistency errors (`TypeNotFound`, `SchemaMismatch`) and `StorageError`
/// are 500-class; `TokenNotFound`, `AmbiguousResult` and `NotFound` are
/// lookup failures whose treatment depends on the caller.  `RouteConflict`
/// reports a duplicate route registration, which is a configuration error
/// raised at startup, never during dispatch.
#[derive(Debug, Clone, PartialEq, Eq)]
pub enum Error {
    MissingParameter,
    EmptyParameter,
    MalformedRequest,
    TypeNotFound,
    SchemaMismatch,
    TokenNotFound,
    AmbiguousResult,
    NotFound,
    StorageError(String),
    RouteConflict,
}

impl Error {
    /// What `message` returns for each variant.
    pub open spec fn spec_message(self) -> Seq<char> {
        match self {
            Error::MissingParameter => "parameter missing"@,
            Error::EmptyParameter => "parameter value empty"@,
            Error::MalformedRequest => "malformed request"@,
            Error::TypeNotFound => "type not found"@,
            Error::SchemaMismatch => "schema mismatch"@,
            Error::TokenNotFound => "token not found"@,
            Error::AmbiguousResult => "ambiguous result"@,
            Error::NotFound => "not found"@,
            Error::StorageError(m) => m@,
            Error::RouteConflict => "route conflict"@,
        }
    }

    /// A short plain-text description, usable as a response body.
    pub fn message(&self) -> (r: String)
        ensures
            r@ == self.spec_message(),
    {
        match self {
            Error::MissingParameter => String::from_str("parameter missing"),
            Error::EmptyParameter => String::from_str("parameter value empty"),
            Error::MalformedRequest => String::from_str("malformed request"),
            Error::TypeNotFound => String::from_str("type not found"),
            Error::SchemaMismatch => String::from_str("schema mismatch"),
            Error::TokenNotFound => String::from_str("token not found"),
            Error::AmbiguousResult => String::from_str("ambiguous result"),
            Error::NotFound => String::from_str("not found"),
            Error::StorageError(m) => m.clone(),
            Error::RouteConflict => String::from_str("route conflict"),
        }
    }
}

} // verus!
