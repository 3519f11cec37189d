//! Verified core of a minimal HTTP user-lookup service.
//!
//! The library holds the request-handling logic: resolving a path against the
//! service's route table, substituting the default lookup name, mapping a
//! store outcome to an HTTP status and body, and rendering a user record as
//! its exact JSON text with RFC 3339 timestamps. The surrounding process
//! (socket, HTTP framework, database driver) lives outside the library and
//! hands it plain values.

pub mod json;
pub mod num;
pub mod routes;
pub mod timestamp;
pub mod user;
