//! The filename frame: the first frame of a connection, read as text.

use vstd::prelude::*;
use vstd::utf8::{decode_utf8, encode_utf8, valid_utf8, encode_utf8_decode_utf8, encode_utf8_valid_utf8};
use crate::error::{Failure, Rejection};

verus! {

/// The name that a filename frame carries: its payload decoded as UTF-8.
/// An empty payload carries none, and neither does one that is not UTF-8.
pub open spec fn file_name(payload: Seq<u8>) -> Option<Seq<char>> {
    if payload.len() > 0 && valid_utf8(payload) {
        Some(decode_utf8(payload))
    } else {
        None
    }
}

/// `String::from_utf8` of the standard library, with the error dropped.
/// Believed, not proved: the call succeeds exactly on well-formed UTF-8, and
/// the string it returns is made of the very bytes it was given.
#[verifier::external_body]
fn string_from_utf8(bytes: Vec<u8>) -> (r: Option<String>)
    ensures
        r is Some <==> valid_utf8(bytes@),
        r matches Some(text) ==> encode_utf8(text@) == bytes@,
{
    String::from_utf8(bytes).ok()
}

/// Reads the client's file name out of the payload of the filename frame.
///
/// An empty payload and a payload that is not UTF-8 are both refused as
/// `PathInvalid`.
pub fn read_file_name(payload: Vec<u8>) -> (r: Result<String, Failure>)
    ensures
        match r {
            Ok(name) => file_name(payload@) == Some(name@),
            Err(failure) => file_name(payload@) is None && failure == (Failure::Rejected {
                rejection: Rejection::PathInvalid,
            }),
        },
{
    if payload.len() == 0 {
        return Err(Failure::Rejected { rejection: Rejection::PathInvalid });
    }
    match string_from_utf8(payload) {
        Some(name) => {
            proof {
                encode_utf8_decode_utf8(name@);
            }
            Ok(name)
        },
        None => Err(Failure::Rejected { rejection: Rejection::PathInvalid }),
    }
}

/// A name that is sent as its UTF-8 bytes is read back unchanged.
pub proof fn lemma_file_name_round_trip(name: Seq<char>)
    requires
        name.len() > 0,
    ensures
        file_name(encode_utf8(name)) == Some(name),
{
    encode_utf8_valid_utf8(name);
    encode_utf8_decode_utf8(name);
    assert(encode_utf8(name).len() > 0) by {
        if encode_utf8(name).len() == 0 {
            assert(decode_utf8(encode_utf8(name)) =~= Seq::<char>::empty());
        }
    }
}

} // verus!
