//! Errors of the application state layer, which owns the lazily opened
//! store connection.

use vstd::prelude::*;

verus! {

/// Why the application state could not produce a working session manager.
/// The embedding maps the underlying failures to their text.
#[derive(Debug, PartialEq, Eq)]
pub enum StateError {
    /// Opening or initializing the store failed.
    Database(String),
    /// Setting the session layer up failed.
    Session(String),
}

impl StateError {
    /// The text of the underlying failure.
    pub fn message(&self) -> (r: String)
        ensures
            self matches StateError::Database(m) ==> r == m,
            self matches StateError::Session(m) ==> r == m,
    {
        match self {
            StateError::Database(m) => m.clone(),
            StateError::Session(m) => m.clone(),
        }
    }
}

} // verus!
