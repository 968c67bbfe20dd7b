//! Errors of the pipeline stages.  Stages return a single result value;
//! errors bubble to the driver without recovery.  Location-bearing kinds
//! carry the first offending token's location.

use vstd::prelude::*;
use crate::ast::{Location, LocationModel};

verus! {

/// Model of an [`Error`].
pub enum ErrorModel {
    ClassNotFound { path: Seq<char> },
    Unimplemented { construct: Seq<char>, location: LocationModel },
    MalformedInput { reason: Seq<char>, location: LocationModel },
    DanglingReference { name: Seq<char> },
    Aborted,
}

/// An error of one of the pipeline stages.
#[derive(Debug, PartialEq, Eq)]
pub enum Error {
    /// A class lookup missed during flattening.
    ClassNotFound { path: String },
    /// A recognized construct the crate deliberately does not handle.
    Unimplemented { construct: String, location: Location },
    /// Grammar-shaped but semantically invalid input.
    MalformedInput { reason: String, location: Location },
    /// A partitioned equation refers to an unbound identifier.
    DanglingReference { name: String },
    /// Cooperative cancellation.
    Aborted,
}

pub open spec fn error_model(e: Error) -> ErrorModel {
    match e {
        Error::ClassNotFound { path } => ErrorModel::ClassNotFound { path: path@ },
        Error::Unimplemented { construct, location } => ErrorModel::Unimplemented {
            construct: construct@,
            location: location@,
        },
        Error::MalformedInput { reason, location } => ErrorModel::MalformedInput {
            reason: reason@,
            location: location@,
        },
        Error::DanglingReference { name } => ErrorModel::DanglingReference { name: name@ },
        Error::Aborted => ErrorModel::Aborted,
    }
}

impl View for Error {
    type V = ErrorModel;

    open spec fn view(&self) -> ErrorModel {
        error_model(*self)
    }
}

} // verus!
