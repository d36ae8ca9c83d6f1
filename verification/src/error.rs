//! What can go wrong in the library.

use vstd::prelude::*;

verus! {

/// The error of `serde_json`, carried through as it is.
#[verifier::external_type_specification]
#[verifier::external_body]
pub struct ExJsonError(serde_json::Error);

/// An error of the library.
#[derive(Debug)]
pub enum StatsError {
    /// The configuration cannot be used; `message` says why.
    ConfigInvalid { message: String },
    /// A text could not be written as JSON.
    Json(serde_json::Error),
}

} // verus!
