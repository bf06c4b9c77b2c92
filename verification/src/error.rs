//! Why a connection did not end in a stored file.
//!
//! A rejection has a response code that the client is told; a local failure
//! of the socket has none, because the socket is presumed unusable.

use vstd::prelude::*;
use crate::response::Response;

verus! {

/// A protocol-level refusal, each with its own response code.
#[derive(Clone, Copy, Debug, PartialEq, Eq, Structural)]
pub enum Rejection {
    /// The name is empty, is not text, or does not stay under the root; or
    /// the file could not be created for a reason other than its existence.
    PathInvalid,
    /// A file already stands at the target.
    FileAlreadyExists,
    /// Writing or flushing the file failed during the upload.
    OperationAborted,
}

impl Rejection {
    /// The response code that reports this rejection.
    pub open spec fn code(self) -> Response {
        match self {
            Rejection::PathInvalid => Response::PathInvalid,
            Rejection::FileAlreadyExists => Response::FileAlreadyExists,
            Rejection::OperationAborted => Response::OperationAborted,
        }
    }

    /// The response code that reports this rejection; never `Success`.
    pub fn response(self) -> (r: Response)
        ensures
            r == self.code(),
            r != Response::Success,
    {
        match self {
            Rejection::PathInvalid => Response::PathInvalid,
            Rejection::FileAlreadyExists => Response::FileAlreadyExists,
            Rejection::OperationAborted => Response::OperationAborted,
        }
    }
}

/// What stopped a connection.
#[derive(Clone, Copy, Debug, PartialEq, Eq, Structural)]
pub enum Failure {
    /// Reading from the socket failed.
    CantRead,
    /// Writing to the socket failed.
    CantWrite,
    /// The request was refused; the client is owed the code.
    Rejected { rejection: Rejection },
}

impl Failure {
    /// The code owed to the client: one for a rejection, none for a failure
    /// of the socket itself.
    pub open spec fn owed(self) -> Option<Response> {
        match self {
            Failure::Rejected { rejection } => Some(rejection.code()),
            Failure::CantRead => None,
            Failure::CantWrite => None,
        }
    }

    /// The terminal response code to send for this failure, if any.
    pub fn response(self) -> (r: Option<Response>)
        ensures
            r == self.owed(),
            r != Some(Response::Success),
    {
        match self {
            Failure::Rejected { rejection } => Some(rejection.response()),
            Failure::CantRead => None,
            Failure::CantWrite => None,
        }
    }
}

/// How a connection ended.
#[derive(Clone, Copy, Debug, PartialEq, Eq, Structural)]
pub enum Outcome {
    /// The whole file was received, flushed and acknowledged.
    Completed,
    /// The connection stopped on `failure`. `cleanup_failed` tells that a
    /// partially written file was to be removed and the removal failed; it
    /// never changes what the client is told.
    Failed { failure: Failure, cleanup_failed: bool },
    /// The deadline passed first. Nothing is sent and nothing is removed.
    TimedOut,
}

} // verus!
