//! Receiving the chunks of a file, once the file is open.
//!
//! Each chunk is a frame. A chunk with a payload is written to the file and
//! then acknowledged with `Success`; the client waits for that byte before
//! it sends the next chunk. An empty chunk ends the upload: the file is
//! flushed and a last `Success` is sent. There is no limit on the number of
//! chunks.

use vstd::prelude::*;
use crate::driver::{Action, ActionView, Event, EventView};
use crate::error::{Failure, Rejection};
use crate::frame::{feed, read_frame, Fed, FedView, Pending};
use crate::response::Response;

verus! {

/// What the receiver is waiting for.
#[derive(Clone, Copy, Debug, PartialEq, Eq, Structural)]
pub enum Receiving {
    /// Bytes of the next chunk frame.
    Frame { pending: Pending },
    /// The chunk to be written to the file.
    Write,
    /// The acknowledgement of the chunk to be sent.
    Acknowledge,
    /// The file to be flushed, after the empty chunk.
    Flush,
    /// The final acknowledgement to be sent.
    Finish,
}

/// Where the receiver stands after an event.
#[derive(Debug, PartialEq, Eq)]
pub enum Progress {
    /// Still receiving: do `action` and come back with its event.
    Next { state: Receiving, action: Action },
    /// Done, with the whole file stored or with the failure that stopped it.
    Done { result: Result<(), Failure> },
}

/// `Progress` over mathematical sequences.
pub enum ProgressView {
    Next { state: Receiving, action: ActionView },
    Done { result: Result<(), Failure> },
}

impl View for Progress {
    type V = ProgressView;

    open spec fn view(&self) -> ProgressView {
        match self {
            Progress::Next { state, action } => ProgressView::Next {
                state: *state,
                action: action@,
            },
            Progress::Done { result } => ProgressView::Done { result: *result },
        }
    }
}

/// The state in which receiving begins, and the action that state waits for.
pub open spec fn begin() -> (Receiving, ActionView) {
    (Receiving::Frame { pending: Pending::Length }, ActionView::Read { count: 1 })
}

/// One step of receiving.
///
/// Only the success of the action that the state waits for leads on. Any
/// other event counts as that action's failure: `CantRead` for a read,
/// `CantWrite` for an acknowledgement, and `OperationAborted` for writing or
/// flushing the file.
pub open spec fn receive(state: Receiving, event: EventView) -> ProgressView {
    match state {
        Receiving::Frame { pending } => match event {
            EventView::Data { bytes } => match feed(pending, bytes) {
                FedView::Incomplete { pending } => ProgressView::Next {
                    state: Receiving::Frame { pending },
                    action: ActionView::Read { count: pending.count() },
                },
                FedView::Complete { payload } => if payload.len() == 0 {
                    ProgressView::Next { state: Receiving::Flush, action: ActionView::Flush }
                } else {
                    ProgressView::Next {
                        state: Receiving::Write,
                        action: ActionView::Write { bytes: payload },
                    }
                },
                FedView::Broken => ProgressView::Done { result: Err(Failure::CantRead) },
            },
            _ => ProgressView::Done { result: Err(Failure::CantRead) },
        },
        Receiving::Write => match event {
            EventView::Done => ProgressView::Next {
                state: Receiving::Acknowledge,
                action: ActionView::Send { code: Response::Success },
            },
            _ => ProgressView::Done {
                result: Err(Failure::Rejected { rejection: Rejection::OperationAborted }),
            },
        },
        Receiving::Acknowledge => match event {
            EventView::Done => ProgressView::Next { state: begin().0, action: begin().1 },
            _ => ProgressView::Done { result: Err(Failure::CantWrite) },
        },
        Receiving::Flush => match event {
            EventView::Done => ProgressView::Next {
                state: Receiving::Finish,
                action: ActionView::Send { code: Response::Success },
            },
            _ => ProgressView::Done {
                result: Err(Failure::Rejected { rejection: Rejection::OperationAborted }),
            },
        },
        Receiving::Finish => match event {
            EventView::Done => ProgressView::Done { result: Ok(()) },
            _ => ProgressView::Done { result: Err(Failure::CantWrite) },
        },
    }
}

/// Begins receiving: the first thing to do is to read a length byte.
pub fn start_receiving() -> (r: (Receiving, Action))
    ensures
        (r.0, r.1@) == begin(),
{
    (Receiving::Frame { pending: Pending::Length }, Action::Read { count: 1 })
}

/// Advances the receiver by the event that its last action led to.
pub fn receiving_file(state: Receiving, event: Event) -> (r: Progress)
    ensures
        r@ == receive(state, event@),
{
    match state {
        Receiving::Frame { pending } => match event {
            Event::Data { bytes } => match read_frame(pending, bytes) {
                Fed::Incomplete { pending } => Progress::Next {
                    state: Receiving::Frame { pending },
                    action: Action::Read { count: pending.wanted() },
                },
                Fed::Complete { payload } => if payload.len() == 0 {
                    Progress::Next { state: Receiving::Flush, action: Action::Flush }
                } else {
                    Progress::Next {
                        state: Receiving::Write,
                        action: Action::Write { bytes: payload },
                    }
                },
                Fed::Broken => Progress::Done { result: Err(Failure::CantRead) },
            },
            _ => Progress::Done { result: Err(Failure::CantRead) },
        },
        Receiving::Write => match event {
            Event::Done => Progress::Next {
                state: Receiving::Acknowledge,
                action: Action::Send { code: Response::Success },
            },
            _ => Progress::Done {
                result: Err(Failure::Rejected { rejection: Rejection::OperationAborted }),
            },
        },
        Receiving::Acknowledge => match event {
            Event::Done => {
                let (state, action) = start_receiving();
                Progress::Next { state, action }
            },
            _ => Progress::Done { result: Err(Failure::CantWrite) },
        },
        Receiving::Flush => match event {
            Event::Done => Progress::Next {
                state: Receiving::Finish,
                action: Action::Send { code: Response::Success },
            },
            _ => Progress::Done {
                result: Err(Failure::Rejected { rejection: Rejection::OperationAborted }),
            },
        },
        Receiving::Finish => match event {
            Event::Done => Progress::Done { result: Ok(()) },
            _ => Progress::Done { result: Err(Failure::CantWrite) },
        },
    }
}

} // verus!
