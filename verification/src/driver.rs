//! What passes between the protocol and whoever does its I/O.
//!
//! The protocol hands its driver one `Action` at a time. The driver carries
//! it out and reports how that went as an `Event`, which yields the next
//! action, until the action is `Close`.

use vstd::prelude::*;
use crate::error::Outcome;
use crate::path::UploadTarget;
use crate::response::Response;

verus! {

/// How the action that was asked for went.
#[derive(Debug, PartialEq, Eq)]
pub enum Event {
    /// A read delivered these bytes.
    Data { bytes: Vec<u8> },
    /// The action succeeded. For a read, use `Data`.
    Done,
    /// The file could not be created because it exists.
    AlreadyExists,
    /// The action failed in any other way.
    Failed,
}

/// `Event` over mathematical sequences.
pub enum EventView {
    Data { bytes: Seq<u8> },
    Done,
    AlreadyExists,
    Failed,
}

impl View for Event {
    type V = EventView;

    open spec fn view(&self) -> EventView {
        match self {
            Event::Data { bytes } => EventView::Data { bytes: bytes@ },
            Event::Done => EventView::Done,
            Event::AlreadyExists => EventView::AlreadyExists,
            Event::Failed => EventView::Failed,
        }
    }
}

/// What the driver is to do next.
#[derive(Debug, PartialEq, Eq)]
pub enum Action {
    /// Read exactly `count` bytes from the client.
    Read { count: u8 },
    /// Send the one byte of `code` to the client.
    Send { code: Response },
    /// Create the file at `target` for writing. It must not exist: creating
    /// and failing on an existing file are one atomic operation.
    Open { target: UploadTarget },
    /// Append `bytes` to the file.
    Write { bytes: Vec<u8> },
    /// Flush the file.
    Flush,
    /// Remove the partially written file at `target`.
    Remove { target: UploadTarget },
    /// Close the connection; it ended as `outcome` says.
    Close { outcome: Outcome },
}

/// `Action` over mathematical sequences.
pub enum ActionView {
    Read { count: u8 },
    Send { code: Response },
    Open { path: Seq<char> },
    Write { bytes: Seq<u8> },
    Flush,
    Remove { path: Seq<char> },
    Close { outcome: Outcome },
}

impl View for Action {
    type V = ActionView;

    open spec fn view(&self) -> ActionView {
        match self {
            Action::Read { count } => ActionView::Read { count: *count },
            Action::Send { code } => ActionView::Send { code: *code },
            Action::Open { target } => ActionView::Open { path: target@ },
            Action::Write { bytes } => ActionView::Write { bytes: bytes@ },
            Action::Flush => ActionView::Flush,
            Action::Remove { target } => ActionView::Remove { path: target@ },
            Action::Close { outcome } => ActionView::Close { outcome: *outcome },
        }
    }
}

} // verus!
