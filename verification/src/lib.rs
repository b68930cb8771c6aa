//! Client-side core for a cryptocurrency exchange's REST API.
//!
//! The crate turns an abstract API call (endpoint plus parameters) into a
//! canonically ordered, HMAC-signed query string, and maps the exchange's
//! JSON response or error envelope into typed results. Network dispatch
//! itself is left to the caller: every function here is a pure computation
//! over bytes and plain values.

pub mod encoding;
pub mod params;
pub mod json;
pub mod errors;
pub mod endpoint;
pub mod sign;
pub mod model;
pub mod response;
pub mod general;
pub mod account;
