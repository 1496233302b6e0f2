//! The error taxonomy of the pipeline.
//!
//! Every failure the core can produce is one of these variants; all of them
//! surface to the caller and none is retried internally.

use vstd::prelude::*;

verus! {

/// An error produced by the request pipeline.
#[derive(Debug, PartialEq, Eq)]
pub enum Error {
    /// A calendar computation stepped outside the representable date range.
    DateArithmetic,
    /// The normalized request target could not be rebuilt into a valid URL.
    MalformedUri,
    /// The signed query string is not a valid query component.
    InvalidQueryEncoding,
    /// The upstream answered "not modified" although no entry is cached.
    CacheInconsistency,
    /// The upstream returned a non-success status other than "not modified",
    /// or the transport failed outright (`status` is then `None`).
    UpstreamFailure { status: Option<u16> },
    /// The response body did not match the expected envelope shape.
    DecodeFailure,
}

} // verus!
