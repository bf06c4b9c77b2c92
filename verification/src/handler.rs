//! One connection from its first byte to its close.
//!
//! The client first sends the filename frame. The name is validated against
//! the root directory and the file is created, which must fail if it exists.
//! The server answers `Success` and receives the chunks. If receiving fails,
//! the partially written file is removed before anything else happens. A
//! rejection is then reported to the client as a single terminal byte; a
//! failure of the socket itself is not, since the socket is presumed
//! unusable.

use vstd::prelude::*;
use crate::config::Config;
use crate::driver::{Action, ActionView, Event, EventView};
use crate::error::{Failure, Outcome, Rejection};
use crate::frame::{feed, read_frame, Fed, FedView, Pending};
use crate::name::{file_name, read_file_name};
use crate::path::{validate, validate_spec, UploadTarget};
use crate::receiver::{begin, receive, receiving_file, start_receiving, Progress, ProgressView, Receiving};
use crate::response::Response;

verus! {

/// How far the attempt to store the client's file has come.
#[derive(Debug, PartialEq, Eq)]
pub enum Phase {
    /// Bytes of the filename frame are awaited.
    Name { pending: Pending },
    /// The file is being created.
    Open { target: UploadTarget },
    /// The file is open, and `Success` is being sent to say so.
    Accept { target: UploadTarget },
    /// The chunks are being received.
    Receive { target: UploadTarget, state: Receiving },
    /// Receiving failed, and the partial file is being removed.
    Cleanup { failure: Failure },
}

/// `Phase` over mathematical sequences.
pub enum PhaseView {
    Name { pending: Pending },
    Open { path: Seq<char> },
    Accept { path: Seq<char> },
    Receive { path: Seq<char>, state: Receiving },
    Cleanup { failure: Failure },
}

impl View for Phase {
    type V = PhaseView;

    open spec fn view(&self) -> PhaseView {
        match self {
            Phase::Name { pending } => PhaseView::Name { pending: *pending },
            Phase::Open { target } => PhaseView::Open { path: target@ },
            Phase::Accept { target } => PhaseView::Accept { path: target@ },
            Phase::Receive { target, state } => PhaseView::Receive { path: target@, state: *state },
            Phase::Cleanup { failure } => PhaseView::Cleanup { failure: *failure },
        }
    }
}

/// Where the attempt stands after an event.
#[derive(Debug, PartialEq, Eq)]
pub enum Attempt {
    /// Under way: do `action` and come back with its event.
    Next { phase: Phase, action: Action },
    /// Over. `cleanup_failed` tells that a partial file was to be removed
    /// and could not be.
    Ended { result: Result<(), Failure>, cleanup_failed: bool },
}

/// `Attempt` over mathematical sequences.
pub enum AttemptView {
    Next { phase: PhaseView, action: ActionView },
    Ended { result: Result<(), Failure>, cleanup_failed: bool },
}

impl View for Attempt {
    type V = AttemptView;

    open spec fn view(&self) -> AttemptView {
        match self {
            Attempt::Next { phase, action } => AttemptView::Next { phase: phase@, action: action@ },
            Attempt::Ended { result, cleanup_failed } => AttemptView::Ended {
                result: *result,
                cleanup_failed: *cleanup_failed,
            },
        }
    }
}

/// The state of a connection.
#[derive(Debug, PartialEq, Eq)]
pub enum Connection {
    /// The attempt to store the file is under way.
    Serving { phase: Phase },
    /// The attempt was rejected, and the client is being told.
    Rejecting { rejection: Rejection, cleanup_failed: bool },
    /// The connection is over.
    Closed { outcome: Outcome },
}

/// `Connection` over mathematical sequences.
pub enum ConnectionView {
    Serving { phase: PhaseView },
    Rejecting { rejection: Rejection, cleanup_failed: bool },
    Closed { outcome: Outcome },
}

impl View for Connection {
    type V = ConnectionView;

    open spec fn view(&self) -> ConnectionView {
        match self {
            Connection::Serving { phase } => ConnectionView::Serving { phase: phase@ },
            Connection::Rejecting { rejection, cleanup_failed } => ConnectionView::Rejecting {
                rejection: *rejection,
                cleanup_failed: *cleanup_failed,
            },
            Connection::Closed { outcome } => ConnectionView::Closed { outcome: *outcome },
        }
    }
}

/// The attempt failed before any file was created.
pub open spec fn refused(failure: Failure) -> AttemptView {
    AttemptView::Ended { result: Err(failure), cleanup_failed: false }
}

/// What a whole filename frame leads to: the file at the validated target
/// is to be created, or the name is refused.
pub open spec fn named(root: Seq<char>, payload: Seq<u8>) -> AttemptView {
    match file_name(payload) {
        Some(name) => match validate_spec(root, name) {
            Ok(path) => AttemptView::Next {
                phase: PhaseView::Open { path },
                action: ActionView::Open { path },
            },
            Err(rejection) => refused(Failure::Rejected { rejection }),
        },
        None => refused(Failure::Rejected { rejection: Rejection::PathInvalid }),
    }
}

/// One step of the attempt to store the client's file under `root`.
///
/// Only the success of the action that the phase waits for leads on. Any
/// other event counts as that action's failure. A failure before the chunks
/// are received ends the attempt at once. A failure while they are received
/// leads to the removal of the file first, and the attempt ends with that
/// failure whether or not the removal succeeds.
pub open spec fn attempt(root: Seq<char>, phase: PhaseView, event: EventView) -> AttemptView {
    match phase {
        PhaseView::Name { pending } => match event {
            EventView::Data { bytes } => match feed(pending, bytes) {
                FedView::Incomplete { pending } => AttemptView::Next {
                    phase: PhaseView::Name { pending },
                    action: ActionView::Read { count: pending.count() },
                },
                FedView::Complete { payload } => named(root, payload),
                FedView::Broken => refused(Failure::CantRead),
            },
            _ => refused(Failure::CantRead),
        },
        PhaseView::Open { path } => match event {
            EventView::Done => AttemptView::Next {
                phase: PhaseView::Accept { path },
                action: ActionView::Send { code: Response::Success },
            },
            EventView::AlreadyExists => refused(
                Failure::Rejected { rejection: Rejection::FileAlreadyExists },
            ),
            _ => refused(Failure::Rejected { rejection: Rejection::PathInvalid }),
        },
        PhaseView::Accept { path } => match event {
            EventView::Done => AttemptView::Next {
                phase: PhaseView::Receive { path, state: begin().0 },
                action: begin().1,
            },
            _ => refused(Failure::CantWrite),
        },
        PhaseView::Receive { path, state } => match receive(state, event) {
            ProgressView::Next { state, action } => AttemptView::Next {
                phase: PhaseView::Receive { path, state },
                action,
            },
            ProgressView::Done { result: Ok(_) } => AttemptView::Ended {
                result: Ok(()),
                cleanup_failed: false,
            },
            ProgressView::Done { result: Err(failure) } => AttemptView::Next {
                phase: PhaseView::Cleanup { failure },
                action: ActionView::Remove { path },
            },
        },
        PhaseView::Cleanup { failure } => AttemptView::Ended {
            result: Err(failure),
            cleanup_failed: !(event is Done),
        },
    }
}

/// The state in which a connection begins, and the action that state waits
/// for: the length byte of the filename frame.
pub open spec fn opening() -> (ConnectionView, ActionView) {
    (
        ConnectionView::Serving { phase: PhaseView::Name { pending: Pending::Length } },
        ActionView::Read { count: 1 },
    )
}

/// The connection is over.
pub open spec fn closed(outcome: Outcome) -> (ConnectionView, ActionView) {
    (ConnectionView::Closed { outcome }, ActionView::Close { outcome })
}

/// What the end of the attempt leads to. Success closes the connection. A
/// rejection is first sent to the client. A failure of the socket closes the
/// connection with nothing sent.
pub open spec fn concluded(result: Result<(), Failure>, cleanup_failed: bool) -> (
    ConnectionView,
    ActionView,
) {
    match result {
        Ok(_) => closed(Outcome::Completed),
        Err(Failure::Rejected { rejection }) => (
            ConnectionView::Rejecting { rejection, cleanup_failed },
            ActionView::Send { code: rejection.code() },
        ),
        Err(failure) => closed(Outcome::Failed { failure, cleanup_failed }),
    }
}

/// One step of a connection.
///
/// While the attempt is under way the connection follows it. When the
/// terminal response was sent the connection closes with the rejection;
/// when it could not be sent, with `CantWrite`. A closed connection stays
/// closed whatever comes.
pub open spec fn serve(root: Seq<char>, state: ConnectionView, event: EventView) -> (
    ConnectionView,
    ActionView,
) {
    match state {
        ConnectionView::Serving { phase } => match attempt(root, phase, event) {
            AttemptView::Next { phase, action } => (ConnectionView::Serving { phase }, action),
            AttemptView::Ended { result, cleanup_failed } => concluded(result, cleanup_failed),
        },
        ConnectionView::Rejecting { rejection, cleanup_failed } => match event {
            EventView::Done => closed(
                Outcome::Failed { failure: Failure::Rejected { rejection }, cleanup_failed },
            ),
            _ => closed(Outcome::Failed { failure: Failure::CantWrite, cleanup_failed }),
        },
        ConnectionView::Closed { outcome } => closed(outcome),
    }
}

/// What the passing of the deadline leads to: the connection closes as
/// timed out, unless it was closed already. Nothing is sent to the client
/// and no file is removed.
pub open spec fn expired(state: ConnectionView) -> (ConnectionView, ActionView) {
    match state {
        ConnectionView::Closed { outcome } => closed(outcome),
        _ => closed(Outcome::TimedOut),
    }
}

/// Advances the attempt to store the client's file by the event that its
/// last action led to.
pub fn try_serve_client(config: &Config, phase: Phase, event: Event) -> (r: Attempt)
    ensures
        r@ == attempt(config.directory_path@, phase@, event@),
{
    match phase {
        Phase::Name { pending } => match event {
            Event::Data { bytes } => match read_frame(pending, bytes) {
                Fed::Incomplete { pending } => Attempt::Next {
                    phase: Phase::Name { pending },
                    action: Action::Read { count: pending.wanted() },
                },
                Fed::Complete { payload } => match read_file_name(payload) {
                    Ok(name) => match validate(config.directory_path.as_str(), name.as_str()) {
                        Ok(target) => Attempt::Next {
                            phase: Phase::Open { target: target.clone() },
                            action: Action::Open { target },
                        },
                        Err(rejection) => Attempt::Ended {
                            result: Err(Failure::Rejected { rejection }),
                            cleanup_failed: false,
                        },
                    },
                    Err(failure) => Attempt::Ended { result: Err(failure), cleanup_failed: false },
                },
                Fed::Broken => Attempt::Ended {
                    result: Err(Failure::CantRead),
                    cleanup_failed: false,
                },
            },
            _ => Attempt::Ended { result: Err(Failure::CantRead), cleanup_failed: false },
        },
        Phase::Open { target } => match event {
            Event::Done => Attempt::Next {
                phase: Phase::Accept { target },
                action: Action::Send { code: Response::Success },
            },
            Event::AlreadyExists => Attempt::Ended {
                result: Err(Failure::Rejected { rejection: Rejection::FileAlreadyExists }),
                cleanup_failed: false,
            },
            _ => Attempt::Ended {
                result: Err(Failure::Rejected { rejection: Rejection::PathInvalid }),
                cleanup_failed: false,
            },
        },
        Phase::Accept { target } => match event {
            Event::Done => {
                let (state, action) = start_receiving();
                Attempt::Next { phase: Phase::Receive { target, state }, action }
            },
            _ => Attempt::Ended { result: Err(Failure::CantWrite), cleanup_failed: false },
        },
        Phase::Receive { target, state } => match receiving_file(state, event) {
            Progress::Next { state, action } => Attempt::Next {
                phase: Phase::Receive { target, state },
                action,
            },
            Progress::Done { result: Ok(_) } => Attempt::Ended {
                result: Ok(()),
                cleanup_failed: false,
            },
            Progress::Done { result: Err(failure) } => Attempt::Next {
                phase: Phase::Cleanup { failure },
                action: Action::Remove { target },
            },
        },
        Phase::Cleanup { failure } => {
            let cleanup_failed = match event {
                Event::Done => false,
                _ => true,
            };
            Attempt::Ended { result: Err(failure), cleanup_failed }
        },
    }
}

/// Begins a connection: the first thing to do is to read the length byte of
/// the filename frame.
pub fn accept() -> (r: (Connection, Action))
    ensures
        (r.0@, r.1@) == opening(),
{
    (
        Connection::Serving { phase: Phase::Name { pending: Pending::Length } },
        Action::Read { count: 1 },
    )
}

/// Advances a connection by the event that its last action led to, and
/// says what to do next.
pub fn serve_client(config: &Config, state: Connection, event: Event) -> (r: (Connection, Action))
    ensures
        (r.0@, r.1@) == serve(config.directory_path@, state@, event@),
{
    match state {
        Connection::Serving { phase } => match try_serve_client(config, phase, event) {
            Attempt::Next { phase, action } => (Connection::Serving { phase }, action),
            Attempt::Ended { result, cleanup_failed } => match result {
                Ok(_) => close(Outcome::Completed),
                Err(failure) => match failure {
                    Failure::Rejected { rejection } => (
                        Connection::Rejecting { rejection, cleanup_failed },
                        Action::Send { code: rejection.response() },
                    ),
                    _ => close(Outcome::Failed { failure, cleanup_failed }),
                },
            },
        },
        Connection::Rejecting { rejection, cleanup_failed } => match event {
            Event::Done => close(
                Outcome::Failed { failure: Failure::Rejected { rejection }, cleanup_failed },
            ),
            _ => close(Outcome::Failed { failure: Failure::CantWrite, cleanup_failed }),
        },
        Connection::Closed { outcome } => close(outcome),
    }
}

/// Ends a connection whose deadline has passed.
pub fn expire(state: Connection) -> (r: (Connection, Action))
    ensures
        (r.0@, r.1@) == expired(state@),
{
    match state {
        Connection::Closed { outcome } => close(outcome),
        _ => close(Outcome::TimedOut),
    }
}

/// The closed connection and the action that closes it.
fn close(outcome: Outcome) -> (r: (Connection, Action))
    ensures
        (r.0@, r.1@) == closed(outcome),
{
    (Connection::Closed { outcome }, Action::Close { outcome })
}

} // verus!
