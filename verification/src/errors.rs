//! Errors surfaced by the enrollment engine.

use vstd::prelude::*;

verus! {

/// The errors that the public operations can return.
///
/// `NoSuchExperiment` and `NoSuchBranch` are surfaced by the explicit
/// opt-in / opt-out operations; `InternalError` reports a violated store
/// invariant, in which case the pending changes are discarded.
#[derive(Debug, PartialEq)]
pub enum NimbusError {
    /// The requested experiment slug is not in the store.
    NoSuchExperiment(String),
    /// The requested branch (first field) is not a branch of the
    /// experiment (second field).
    NoSuchBranch(String, String),
    /// A store invariant was violated; the message says which.
    InternalError(&'static str),
}

impl NimbusError {
    /// A human-readable description of the error.
    pub fn message(&self) -> (r: String)
        ensures
            match self {
                NimbusError::NoSuchExperiment(slug) => r@ == "no such experiment: "@ + slug@,
                NimbusError::NoSuchBranch(branch, slug) => r@ == "no such branch: "@ + branch@
                    + " in experiment "@ + slug@,
                NimbusError::InternalError(msg) => r@ == "internal error: "@ + msg@,
            },
    {
        match self {
            NimbusError::NoSuchExperiment(slug) => {
                let mut r = String::from_str("no such experiment: ");
                r.append(slug.as_str());
                r
            },
            NimbusError::NoSuchBranch(branch, slug) => {
                let mut r = String::from_str("no such branch: ");
                r.append(branch.as_str());
                r.append(" in experiment ");
                r.append(slug.as_str());
                r
            },
            NimbusError::InternalError(msg) => {
                let mut r = String::from_str("internal error: ");
                r.append(msg);
                r
            },
        }
    }
}

} // verus!
