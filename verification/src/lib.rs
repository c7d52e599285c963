//! Core of a small appointment-queue service: token acquisition decisions,
//! document-store response interpretation, and the filter/sort/limit pipeline
//! over the documents of one collection.

use vstd::prelude::*;

pub mod auth;
pub mod config;
pub mod json;
pub mod pipeline;
pub mod store;
pub mod time;

verus! {

/// The failure kinds of the core: credential or token-exchange failure,
/// network failure, a resource the remote store reports absent, a response
/// missing its expected structure, and an unparseable response body.
#[derive(Clone, Copy, Debug, PartialEq, Eq, Structural)]
pub enum CoreError {
    Auth,
    Transport,
    NotFound,
    Shape,
    Decode,
}

/// The human-readable message each error kind carries to the wire.
pub open spec fn spec_error_message(e: CoreError) -> Seq<char> {
    match e {
        CoreError::Auth => "Error fetching OAuth token"@,
        CoreError::Transport => "Error fetching document"@,
        CoreError::NotFound => "Firestore request failed with non-success status"@,
        CoreError::Shape => "Error fetching documents"@,
        CoreError::Decode => "Error decoding response body"@,
    }
}

impl CoreError {
    /// The message the request-handler boundary serializes for this error.
    pub fn message(&self) -> (r: String)
        ensures
            r@ == spec_error_message(*self),
    {
        match self {
            CoreError::Auth => String::from_str("Error fetching OAuth token"),
            CoreError::Transport => String::from_str("Error fetching document"),
            CoreError::NotFound => String::from_str(
                "Firestore request failed with non-success status",
            ),
            CoreError::Shape => String::from_str("Error fetching documents"),
            CoreError::Decode => String::from_str("Error decoding response body"),
        }
    }
}

} // verus!
