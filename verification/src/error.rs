//! The failures a call can end in.

use vstd::prelude::*;

verus! {

/// The coarse kind of failure that a caller sees. The underlying cause is
/// not carried along.
#[derive(Clone, Copy, Debug, PartialEq, Eq, Structural)]
pub enum LLMServiceError {
    /// The service answered with success, but the body did not have the
    /// expected structure.
    ApiParseError,
    /// Model discovery was answered with a non-success status.
    InvalidAPIKey,
    /// The request could not be delivered, or a completion request was
    /// answered with a non-success status.
    NetworkError,
    /// The feature is switched off in the configuration.
    NotEnabled,
    /// A completion was decoded and held no choice.
    NoResponse,
}

} // verus!
