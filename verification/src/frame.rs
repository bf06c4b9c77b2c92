//! The wire framing: one length byte, then that many payload bytes.
//!
//! A frame carries at most 255 bytes. A length byte of zero is a frame with
//! an empty payload; what that means is for the reader's caller to say.

use vstd::prelude::*;

verus! {

/// The longest payload one frame can carry.
pub const MAX_PAYLOAD: usize = 255;

/// The bytes of the frame that carries `payload`.
pub open spec fn frame_of(payload: Seq<u8>) -> Seq<u8>
    recommends
        payload.len() <= MAX_PAYLOAD,
{
    seq![payload.len() as u8] + payload
}

/// The first frame of `input`: its payload and the bytes that follow it.
/// `None` while `input` is shorter than its length byte announces.
pub open spec fn parse_frame(input: Seq<u8>) -> Option<(Seq<u8>, Seq<u8>)> {
    if input.len() >= 1 && input.len() >= 1 + input[0] {
        Some((input.subrange(1, 1 + input[0]), input.skip(1 + input[0])))
    } else {
        None
    }
}

/// Builds the frame for `payload`, or `None` if it is too long for one.
pub fn encode_frame(payload: &[u8]) -> (r: Option<Vec<u8>>)
    ensures
        match r {
            Some(frame) => payload@.len() <= MAX_PAYLOAD && frame@ == frame_of(payload@),
            None => payload@.len() > MAX_PAYLOAD,
        },
{
    let n: usize = payload.len();
    if n > MAX_PAYLOAD {
        return None;
    }
    let mut frame: Vec<u8> = Vec::with_capacity(n + 1);
    frame.push(n as u8);
    let mut i: usize = 0;
    while i < n
        invariant
            n == payload@.len(),
            n <= MAX_PAYLOAD,
            i <= n,
            frame@ == seq![n as u8] + payload@.take(i as int),
        decreases n - i,
    {
        frame.push(payload[i]);
        i = i + 1;
    }
    assert(payload@.take(n as int) == payload@);
    Some(frame)
}

/// Takes the first frame off `input`: its payload and the number of bytes
/// the frame occupied. `None` if `input` does not yet hold a whole frame.
pub fn decode_frame(input: &[u8]) -> (r: Option<(Vec<u8>, usize)>)
    ensures
        match r {
            Some((payload, used)) => used == 1 + payload@.len() && parse_frame(input@) == Some(
                (payload@, input@.skip(used as int)),
            ),
            None => parse_frame(input@) is None,
        },
{
    if input.len() < 1 {
        return None;
    }
    let n: usize = input[0] as usize;
    if input.len() - 1 < n {
        return None;
    }
    let mut payload: Vec<u8> = Vec::with_capacity(n);
    let mut i: usize = 0;
    while i < n
        invariant
            n == input@[0],
            1 + n <= input@.len(),
            i <= n,
            payload@ == input@.subrange(1, 1 + i),
        decreases n - i,
    {
        payload.push(input[i + 1]);
        i = i + 1;
    }
    Some((payload, n + 1))
}

/// What a reader of one frame is waiting for.
#[derive(Clone, Copy, Debug, PartialEq, Eq, Structural)]
pub enum Pending {
    /// The length byte.
    Length,
    /// The `len` payload bytes that the length byte announced.
    Payload { len: u8 },
}

impl Pending {
    /// How many bytes the reader asks for next.
    pub open spec fn count(self) -> u8 {
        match self {
            Pending::Length => 1u8,
            Pending::Payload { len } => len,
        }
    }

    /// How many bytes to read next.
    pub fn wanted(self) -> (n: u8)
        ensures
            n == self.count(),
    {
        match self {
            Pending::Length => 1,
            Pending::Payload { len } => len,
        }
    }
}

/// Where a reader stands after it was handed the bytes it asked for.
#[derive(Debug, PartialEq, Eq)]
pub enum Fed {
    /// The length byte came and announces a payload; read on.
    Incomplete { pending: Pending },
    /// The frame is whole.
    Complete { payload: Vec<u8> },
    /// The bytes handed over are not as many as were asked for.
    Broken,
}

/// `Fed` over mathematical sequences.
pub enum FedView {
    Incomplete { pending: Pending },
    Complete { payload: Seq<u8> },
    Broken,
}

impl View for Fed {
    type V = FedView;

    open spec fn view(&self) -> FedView {
        match self {
            Fed::Incomplete { pending } => FedView::Incomplete { pending: *pending },
            Fed::Complete { payload } => FedView::Complete { payload: payload@ },
            Fed::Broken => FedView::Broken,
        }
    }
}

/// One step of reading a frame. A length byte of zero completes the frame
/// at once, with an empty payload; any other length byte asks for that many
/// bytes more, and they complete it.
pub open spec fn feed(pending: Pending, bytes: Seq<u8>) -> FedView {
    if bytes.len() != pending.count() {
        FedView::Broken
    } else {
        match pending {
            Pending::Length => if bytes[0] == 0 {
                FedView::Complete { payload: Seq::empty() }
            } else {
                FedView::Incomplete { pending: Pending::Payload { len: bytes[0] } }
            },
            Pending::Payload { len } => FedView::Complete { payload: bytes },
        }
    }
}

/// Hands a frame reader the bytes that were read for it.
pub fn read_frame(pending: Pending, bytes: Vec<u8>) -> (r: Fed)
    ensures
        r@ == feed(pending, bytes@),
{
    match pending {
        Pending::Length => {
            if bytes.len() != 1 {
                Fed::Broken
            } else if bytes[0] == 0 {
                Fed::Complete { payload: Vec::new() }
            } else {
                Fed::Incomplete { pending: Pending::Payload { len: bytes[0] } }
            }
        },
        Pending::Payload { len } => {
            if bytes.len() != len as usize {
                Fed::Broken
            } else {
                Fed::Complete { payload: bytes }
            }
        },
    }
}

/// Framing round trip: a payload of up to 255 bytes, framed and followed by
/// anything, parses back to that payload and what followed.
pub proof fn lemma_frame_round_trip(payload: Seq<u8>, rest: Seq<u8>)
    requires
        payload.len() <= MAX_PAYLOAD,
    ensures
        parse_frame(frame_of(payload) + rest) == Some((payload, rest)),
{
    let input = frame_of(payload) + rest;
    assert(input[0] == payload.len() as u8);
    assert(input.subrange(1, 1 + input[0]) =~= payload);
    assert(input.skip(1 + input[0]) =~= rest);
}

/// A frame has one encoding: whatever parses is the frame of its payload
/// followed by the remainder.
pub proof fn lemma_parse_is_framed(input: Seq<u8>)
    requires
        parse_frame(input) is Some,
    ensures
        ({
            let (payload, rest) = parse_frame(input).unwrap();
            &&& payload.len() <= MAX_PAYLOAD
            &&& input == frame_of(payload) + rest
        }),
{
    let (payload, rest) = parse_frame(input).unwrap();
    assert(input =~= frame_of(payload) + rest);
}

/// Reading in two steps agrees with the format: handed the length byte and
/// then the announced bytes of a framed payload, the reader yields exactly
/// that payload.
pub proof fn lemma_read_frame_round_trip(payload: Seq<u8>)
    requires
        payload.len() <= MAX_PAYLOAD,
    ensures
        payload.len() == 0 ==> feed(Pending::Length, frame_of(payload).take(1))
            == (FedView::Complete { payload }),
        payload.len() > 0 ==> feed(Pending::Length, frame_of(payload).take(1))
            == (FedView::Incomplete { pending: Pending::Payload { len: payload.len() as u8 } }),
        feed(Pending::Payload { len: payload.len() as u8 }, frame_of(payload).skip(1))
            == (FedView::Complete { payload }),
{
    let frame = frame_of(payload);
    assert(frame.take(1)[0] == payload.len() as u8);
    assert(frame.skip(1) =~= payload);
    if payload.len() == 0 {
        assert(payload =~= Seq::<u8>::empty());
    }
}

} // verus!
