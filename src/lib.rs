//! Schema encoding for RPC endpoints: resolves generic type declarations into
//! concrete types and splits struct fields over the body, query string,
//! headers and cookies of a request or response.
pub mod error;
pub mod model;
pub mod resolve;
pub mod registry;
pub mod encoding;
pub mod method;
pub mod endpoint;
