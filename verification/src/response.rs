//! The single-byte response codes the server sends to a client.

use vstd::prelude::*;

verus! {

/// Outcome signal sent from server to client, one byte on the wire.
#[derive(Clone, Copy, Debug, PartialEq, Eq, Structural)]
pub enum Response {
    Success,
    PathInvalid,
    FileAlreadyExists,
    OperationAborted,
}

impl Response {
    /// The byte that stands for this code on the wire.
    pub open spec fn code(self) -> u8 {
        match self {
            Response::Success => 0u8,
            Response::PathInvalid => 1u8,
            Response::FileAlreadyExists => 2u8,
            Response::OperationAborted => 3u8,
        }
    }

    /// The code that a wire byte stands for, if any.
    pub open spec fn of_code(byte: u8) -> Option<Response> {
        if byte == 0 {
            Some(Response::Success)
        } else if byte == 1 {
            Some(Response::PathInvalid)
        } else if byte == 2 {
            Some(Response::FileAlreadyExists)
        } else if byte == 3 {
            Some(Response::OperationAborted)
        } else {
            None
        }
    }

    /// Encodes the code as its wire byte.
    pub fn to_byte(self) -> (byte: u8)
        ensures
            byte == self.code(),
    {
        match self {
            Response::Success => 0,
            Response::PathInvalid => 1,
            Response::FileAlreadyExists => 2,
            Response::OperationAborted => 3,
        }
    }

    /// Decodes a wire byte; `None` for a byte that is no response code.
    pub fn from_byte(byte: u8) -> (r: Option<Response>)
        ensures
            r == Self::of_code(byte),
    {
        if byte == 0 {
            Some(Response::Success)
        } else if byte == 1 {
            Some(Response::PathInvalid)
        } else if byte == 2 {
            Some(Response::FileAlreadyExists)
        } else if byte == 3 {
            Some(Response::OperationAborted)
        } else {
            None
        }
    }
}

/// Every response code survives the wire: the byte it is sent as decodes to
/// the same code, and no two codes share a byte.
pub proof fn lemma_response_round_trip(response: Response, other: Response)
    ensures
        Response::of_code(response.code()) == Some(response),
        response.code() == other.code() ==> response == other,
{
}

/// A byte that decodes to a response code is the byte of that code.
pub proof fn lemma_code_round_trip(byte: u8)
    ensures
        Response::of_code(byte) matches Some(response) ==> response.code() == byte,
{
}

} // verus!
