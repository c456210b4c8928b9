//! The error taxonomy of the client: failed calls are classified by their
//! HTTP status code into `Permission`, `NotFound` or `Other`, each carrying
//! a textual description of the underlying failure.

use vstd::prelude::*;

verus! {

/// How a call to the remote platform failed. Each variant carries the
/// context text of the underlying transport or status failure.
#[derive(Debug)]
pub enum Error {
    /// The platform refused the credentials (HTTP 401 or 403).
    Permission(String),
    /// The requested resource does not exist (HTTP 404).
    NotFound(String),
    /// Any other failure: another status code, or a transport-level
    /// failure that produced no status at all.
    Other(String),
}

/// Mathematical image of an [`Error`]: the same variants over character
/// sequences.
pub enum ErrorModel {
    Permission(Seq<char>),
    NotFound(Seq<char>),
    Other(Seq<char>),
}

impl View for Error {
    type V = ErrorModel;

    open spec fn view(&self) -> ErrorModel {
        match self {
            Error::Permission(m) => ErrorModel::Permission(m@),
            Error::NotFound(m) => ErrorModel::NotFound(m@),
            Error::Other(m) => ErrorModel::Other(m@),
        }
    }
}

impl ErrorModel {
    /// The context text carried by the error, whatever its variant.
    pub open spec fn context(self) -> Seq<char> {
        match self {
            ErrorModel::Permission(m) => m,
            ErrorModel::NotFound(m) => m,
            ErrorModel::Other(m) => m,
        }
    }
}

/// The three-way classification of a failed call: 401 and 403 mean the
/// credentials were refused, 404 means the resource is unknown, and every
/// other status — or the absence of one, as after a connection failure —
/// is an unclassified failure.
pub open spec fn classify(status: Option<u16>, context: Seq<char>) -> ErrorModel {
    match status {
        Some(code) => if code == 401 || code == 403 {
            ErrorModel::Permission(context)
        } else if code == 404 {
            ErrorModel::NotFound(context)
        } else {
            ErrorModel::Other(context)
        },
        None => ErrorModel::Other(context),
    }
}

impl Error {
    /// Classify a failure by the HTTP status code it produced, if any.
    /// A transport-level failure that never reached the server passes
    /// `None` and is always classified `Other`.
    pub fn classify(status: Option<u16>, context: String) -> (e: Error)
        ensures
            e@ == classify(status, context@),
    {
        match status {
            Some(code) => {
                if code == 401 || code == 403 {
                    Error::Permission(context)
                } else if code == 404 {
                    Error::NotFound(context)
                } else {
                    Error::Other(context)
                }
            },
            None => Error::Other(context),
        }
    }

    /// The context text carried by the error.
    pub fn context(&self) -> (m: &String)
        ensures
            m@ == self@.context(),
    {
        match self {
            Error::Permission(m) => m,
            Error::NotFound(m) => m,
            Error::Other(m) => m,
        }
    }
}

} // verus!
