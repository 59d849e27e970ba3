use vstd::prelude::*;

verus! {

/// Why an endpoint's schemas could not be computed.
#[derive(Debug, PartialEq, Eq)]
pub enum EncodingError {
    /// A required part of the metadata is absent or out of range.
    MalformedMetadata,
    /// A type that has no wire form (a config type) was met.
    UnsupportedType,
    /// The named field has no placement the context offers, and the context
    /// gives no default.
    MissingLocation { field: String },
    /// An HTTP method name could not be parsed.
    InvalidMethod,
}

} // verus!
