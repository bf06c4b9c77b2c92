//! Whole connections: what a connection does over a run of events.
//!
//! `run` feeds a connection one event after another and collects the
//! actions it answers with. The laws below are stated over such runs.

use vstd::prelude::*;
use vstd::utf8::encode_utf8;
use crate::driver::{ActionView, EventView};
use crate::error::{Failure, Outcome, Rejection};
use crate::frame::{feed, FedView, Pending, MAX_PAYLOAD};
use crate::handler::{
    closed, concluded, expired, named, opening, serve, AttemptView, ConnectionView, PhaseView,
};
use crate::name::{file_name, lemma_file_name_round_trip};
use crate::path::{
    has_parent_segment, is_relative, join, lemma_plain_relative_name_is_accepted,
    lemma_target_stays_under_root, stays_under, validate_spec,
};
use crate::receiver::{begin, receive, ProgressView, Receiving};
use crate::response::Response;

verus! {

/// The state a connection is in after `events`, and the actions it answered
/// them with, one for each event.
pub open spec fn run(root: Seq<char>, state: ConnectionView, events: Seq<EventView>) -> (
    ConnectionView,
    Seq<ActionView>,
)
    decreases events.len(),
{
    if events.len() == 0 {
        (state, Seq::empty())
    } else {
        let (next, action) = serve(root, state, events[0]);
        let (end, actions) = run(root, next, events.drop_first());
        (end, seq![action] + actions)
    }
}

/// All that `actions` append to the file, in order.
pub open spec fn written(actions: Seq<ActionView>) -> Seq<u8>
    decreases actions.len(),
{
    if actions.len() == 0 {
        Seq::empty()
    } else {
        match actions[0] {
            ActionView::Write { bytes } => bytes + written(actions.drop_first()),
            _ => written(actions.drop_first()),
        }
    }
}

/// The action leaves every file as it is.
pub open spec fn touches_no_file(action: ActionView) -> bool {
    action is Read || action is Send || action is Close
}

/// The action names no file but one under the root.
pub open spec fn action_under(root: Seq<char>, action: ActionView) -> bool {
    match action {
        ActionView::Open { path } => stays_under(root, path),
        ActionView::Remove { path } => stays_under(root, path),
        _ => true,
    }
}

/// The connection holds no target but one under the root.
pub open spec fn state_under(root: Seq<char>, state: ConnectionView) -> bool {
    match state {
        ConnectionView::Serving { phase } => match phase {
            PhaseView::Open { path } => stays_under(root, path),
            PhaseView::Accept { path } => stays_under(root, path),
            PhaseView::Receive { path, state } => stays_under(root, path),
            _ => true,
        },
        _ => true,
    }
}

/// The attempt to store a file is over for this connection.
pub open spec fn settled(state: ConnectionView) -> bool {
    state is Rejecting || state is Closed
}

/// The events of a frame with a payload: its length byte is read, then the
/// payload.
pub open spec fn frame_events(payload: Seq<u8>) -> Seq<EventView> {
    seq![
        EventView::Data { bytes: seq![payload.len() as u8] },
        EventView::Data { bytes: payload },
    ]
}

/// The events of one chunk that goes well: the frame is read, the payload
/// is written, and the acknowledgement is sent.
pub open spec fn chunk_events(chunk: Seq<u8>) -> Seq<EventView> {
    frame_events(chunk) + seq![EventView::Done, EventView::Done]
}

/// The events of several chunks that go well, one after another.
pub open spec fn chunks_events(chunks: Seq<Seq<u8>>) -> Seq<EventView>
    decreases chunks.len(),
{
    if chunks.len() == 0 {
        Seq::empty()
    } else {
        chunk_events(chunks.first()) + chunks_events(chunks.drop_first())
    }
}

/// The events of the end of an upload that goes well: the empty chunk is
/// read, the file is flushed, and the final acknowledgement is sent.
pub open spec fn end_events() -> Seq<EventView> {
    seq![EventView::Data { bytes: seq![0u8] }, EventView::Done, EventView::Done]
}

/// The events of a whole upload in which nothing fails: the filename frame
/// is read, the file is created, the acceptance is sent, and the chunks and
/// the end follow.
pub open spec fn upload_events(name: Seq<u8>, chunks: Seq<Seq<u8>>) -> Seq<EventView> {
    frame_events(name) + seq![EventView::Done, EventView::Done] + chunks_events(chunks)
        + end_events()
}

/// What the server does for one chunk: it asks for the payload, writes it,
/// acknowledges it, and asks for the next length byte.
pub open spec fn chunk_actions(chunk: Seq<u8>) -> Seq<ActionView> {
    seq![
        ActionView::Read { count: chunk.len() as u8 },
        ActionView::Write { bytes: chunk },
        ActionView::Send { code: Response::Success },
        ActionView::Read { count: 1 },
    ]
}

/// What the server does for several chunks.
pub open spec fn chunks_actions(chunks: Seq<Seq<u8>>) -> Seq<ActionView>
    decreases chunks.len(),
{
    if chunks.len() == 0 {
        Seq::empty()
    } else {
        chunk_actions(chunks.first()) + chunks_actions(chunks.drop_first())
    }
}

/// What the server does at the end of an upload: it flushes the file, sends
/// the final `Success`, and closes.
pub open spec fn end_actions() -> Seq<ActionView> {
    seq![
        ActionView::Flush,
        ActionView::Send { code: Response::Success },
        ActionView::Close { outcome: Outcome::Completed },
    ]
}

/// What the server does over a whole upload in which nothing fails.
pub open spec fn upload_actions(path: Seq<char>, name: Seq<u8>, chunks: Seq<Seq<u8>>) -> Seq<
    ActionView,
> {
    seq![
        ActionView::Read { count: name.len() as u8 },
        ActionView::Open { path },
        ActionView::Send { code: Response::Success },
        ActionView::Read { count: 1 },
    ] + chunks_actions(chunks) + end_actions()
}

/// Every chunk has a payload, and one that fits a frame.
pub open spec fn chunks_fit(chunks: Seq<Seq<u8>>) -> bool {
    forall|i: int| 0 <= i < chunks.len() ==> 0 < (#[trigger] chunks[i]).len() <= MAX_PAYLOAD
}

/// A run over two stretches of events is the run over the first, followed
/// by the run over the second from where the first ended.
pub proof fn lemma_run_append(
    root: Seq<char>,
    state: ConnectionView,
    first: Seq<EventView>,
    second: Seq<EventView>,
)
    ensures
        run(root, state, first + second) == ({
            let (middle, before) = run(root, state, first);
            let (end, after) = run(root, middle, second);
            (end, before + after)
        }),
    decreases first.len(),
{
    if first.len() == 0 {
        assert(first + second =~= second);
        let (end, after) = run(root, state, second);
        assert(Seq::<ActionView>::empty() + after =~= after);
    } else {
        let (next, action) = serve(root, state, first[0]);
        assert((first + second)[0] == first[0]);
        assert((first + second).drop_first() =~= first.drop_first() + second);
        lemma_run_append(root, next, first.drop_first(), second);
        let (middle, before) = run(root, next, first.drop_first());
        let (end, after) = run(root, middle, second);
        assert(seq![action] + (before + after) =~= (seq![action] + before) + after);
    }
}

/// A run over one event is one step.
pub proof fn lemma_run_one(root: Seq<char>, state: ConnectionView, event: EventView)
    ensures
        run(root, state, seq![event]) == (
            serve(root, state, event).0,
            seq![serve(root, state, event).1],
        ),
{
    let (next, action) = serve(root, state, event);
    assert(seq![event].drop_first() =~= Seq::<EventView>::empty());
    assert(run(root, next, Seq::<EventView>::empty()) == (next, Seq::<ActionView>::empty()));
    assert(seq![action] + Seq::<ActionView>::empty() =~= seq![action]);
}

/// A run has one action for each event.
pub proof fn lemma_run_len(root: Seq<char>, state: ConnectionView, events: Seq<EventView>)
    ensures
        run(root, state, events).1.len() == events.len(),
    decreases events.len(),
{
    if events.len() > 0 {
        lemma_run_len(root, serve(root, state, events[0]).0, events.drop_first());
    }
}

/// What is written over two stretches of actions is what is written over
/// the first, followed by what is written over the second.
pub proof fn lemma_written_append(first: Seq<ActionView>, second: Seq<ActionView>)
    ensures
        written(first + second) == written(first) + written(second),
    decreases first.len(),
{
    if first.len() == 0 {
        assert(first + second =~= second);
        assert(Seq::<u8>::empty() + written(second) =~= written(second));
    } else {
        assert((first + second)[0] == first[0]);
        assert((first + second).drop_first() =~= first.drop_first() + second);
        lemma_written_append(first.drop_first(), second);
        match first[0] {
            ActionView::Write { bytes } => {
                assert(bytes + (written(first.drop_first()) + written(second)) =~= (bytes
                    + written(first.drop_first())) + written(second));
            },
            _ => {},
        }
    }
}

/// The connection that receives chunks into the file at `path` and waits
/// for the length byte of the next one.
pub open spec fn receiving(path: Seq<char>) -> ConnectionView {
    ConnectionView::Serving { phase: PhaseView::Receive { path, state: begin().0 } }
}

/// One chunk that goes well is written as it came, acknowledged once, and
/// leaves the connection waiting for the next chunk.
pub proof fn lemma_chunk_is_written(root: Seq<char>, path: Seq<char>, chunk: Seq<u8>)
    requires
        0 < chunk.len() <= MAX_PAYLOAD,
    ensures
        run(root, receiving(path), chunk_events(chunk)) == (receiving(path), chunk_actions(chunk)),
{
    let e0 = EventView::Data { bytes: seq![chunk.len() as u8] };
    let e1 = EventView::Data { bytes: chunk };
    let s0 = receiving(path);
    let s1 = ConnectionView::Serving {
        phase: PhaseView::Receive {
            path,
            state: Receiving::Frame { pending: Pending::Payload { len: chunk.len() as u8 } },
        },
    };
    let s2 = ConnectionView::Serving { phase: PhaseView::Receive { path, state: Receiving::Write } };
    let s3 = ConnectionView::Serving {
        phase: PhaseView::Receive { path, state: Receiving::Acknowledge },
    };
    let a = chunk_actions(chunk);
    assert(serve(root, s0, e0) == (s1, a[0]));
    assert(serve(root, s1, e1) == (s2, a[1]));
    assert(serve(root, s2, EventView::Done) == (s3, a[2]));
    assert(serve(root, s3, EventView::Done) == (s0, a[3]));
    lemma_run_one(root, s0, e0);
    lemma_run_one(root, s1, e1);
    lemma_run_one(root, s2, EventView::Done);
    lemma_run_one(root, s3, EventView::Done);
    lemma_run_append(root, s0, seq![e0], seq![e1]);
    lemma_run_append(root, s0, seq![e0] + seq![e1], seq![EventView::Done]);
    lemma_run_append(root, s0, seq![e0] + seq![e1] + seq![EventView::Done], seq![EventView::Done]);
    assert(chunk_events(chunk) =~= seq![e0] + seq![e1] + seq![EventView::Done] + seq![
        EventView::Done,
    ]);
    assert(a =~= seq![a[0]] + seq![a[1]] + seq![a[2]] + seq![a[3]]);
}

/// Chunks that go well are written in the order they came, each
/// acknowledged once, and leave the connection waiting for the next chunk.
pub proof fn lemma_chunks_are_written(root: Seq<char>, path: Seq<char>, chunks: Seq<Seq<u8>>)
    requires
        chunks_fit(chunks),
    ensures
        run(root, receiving(path), chunks_events(chunks)) == (
            receiving(path),
            chunks_actions(chunks),
        ),
    decreases chunks.len(),
{
    if chunks.len() > 0 {
        let rest = chunks.drop_first();
        assert(chunks_fit(rest)) by {
            assert forall|i: int| 0 <= i < rest.len() implies 0 < (#[trigger] rest[i]).len()
                <= MAX_PAYLOAD by {
                assert(rest[i] == chunks[i + 1]);
            }
        }
        assert(chunks.first() == chunks[0]);
        lemma_chunk_is_written(root, path, chunks.first());
        lemma_chunks_are_written(root, path, rest);
        lemma_run_append(root, receiving(path), chunk_events(chunks.first()), chunks_events(rest));
    }
}

/// What the server writes for chunks that go well is their payloads, end
/// to end.
pub proof fn lemma_written_chunks(chunks: Seq<Seq<u8>>)
    ensures
        written(chunks_actions(chunks)) == chunks.flatten(),
    decreases chunks.len(),
{
    if chunks.len() > 0 {
        let chunk = chunks.first();
        let rest = chunks.drop_first();
        lemma_written_chunks(rest);
        lemma_written_append(chunk_actions(chunk), chunks_actions(rest));
        let a = chunk_actions(chunk);
        assert(written(a) =~= chunk) by {
            reveal_with_fuel(written, 5);
            assert(a.drop_first() =~= seq![a[1], a[2], a[3]]);
            assert(a.drop_first().drop_first() =~= seq![a[2], a[3]]);
            assert(a.drop_first().drop_first().drop_first() =~= seq![a[3]]);
            assert(a.drop_first().drop_first().drop_first().drop_first() =~= Seq::<
                ActionView,
            >::empty());
        }
    }
}

/// The end of an upload that goes well: the file is flushed, one final
/// `Success` is sent, and the connection closes as completed.
pub proof fn lemma_end_completes(root: Seq<char>, path: Seq<char>)
    ensures
        run(root, receiving(path), end_events()) == (
            ConnectionView::Closed { outcome: Outcome::Completed },
            end_actions(),
        ),
{
    let e0 = EventView::Data { bytes: seq![0u8] };
    let s0 = receiving(path);
    let s1 = ConnectionView::Serving { phase: PhaseView::Receive { path, state: Receiving::Flush } };
    let s2 = ConnectionView::Serving { phase: PhaseView::Receive { path, state: Receiving::Finish } };
    let s3 = ConnectionView::Closed { outcome: Outcome::Completed };
    let a = end_actions();
    assert(serve(root, s0, e0) == (s1, a[0]));
    assert(serve(root, s1, EventView::Done) == (s2, a[1]));
    assert(serve(root, s2, EventView::Done) == (s3, a[2]));
    lemma_run_one(root, s0, e0);
    lemma_run_one(root, s1, EventView::Done);
    lemma_run_one(root, s2, EventView::Done);
    lemma_run_append(root, s0, seq![e0], seq![EventView::Done]);
    lemma_run_append(root, s0, seq![e0] + seq![EventView::Done], seq![EventView::Done]);
    assert(end_events() =~= seq![e0] + seq![EventView::Done] + seq![EventView::Done]);
    assert(a =~= seq![a[0]] + seq![a[1]] + seq![a[2]]);
}

/// An upload in which nothing fails stores the file.
///
/// For every root, every non-empty relative name without `..` whose UTF-8
/// form fits a frame, and all chunks that fit a frame: the server creates
/// the file at the name joined onto the root and no other, appends the
/// payloads of the chunks in the order they came and nothing else, removes
/// nothing, acknowledges the name and each chunk once, sends one final
/// `Success`, and closes as completed.
pub proof fn lemma_upload_is_stored(root: Seq<char>, name: Seq<char>, chunks: Seq<Seq<u8>>)
    requires
        name.len() > 0,
        !has_parent_segment(name),
        is_relative(name),
        encode_utf8(name).len() <= MAX_PAYLOAD,
        chunks_fit(chunks),
    ensures
        run(root, opening().0, upload_events(encode_utf8(name), chunks)) == (
            ConnectionView::Closed { outcome: Outcome::Completed },
            upload_actions(join(root, name), encode_utf8(name), chunks),
        ),
        written(upload_actions(join(root, name), encode_utf8(name), chunks)) == chunks.flatten(),
{
    let payload = encode_utf8(name);
    let path = join(root, name);
    lemma_file_name_round_trip(name);
    lemma_plain_relative_name_is_accepted(root, name);
    assert(payload.len() > 0);
    let e0 = EventView::Data { bytes: seq![payload.len() as u8] };
    let e1 = EventView::Data { bytes: payload };
    let done = EventView::Done;
    let s0 = opening().0;
    let s1 = ConnectionView::Serving {
        phase: PhaseView::Name { pending: Pending::Payload { len: payload.len() as u8 } },
    };
    let s2 = ConnectionView::Serving { phase: PhaseView::Open { path } };
    let s3 = ConnectionView::Serving { phase: PhaseView::Accept { path } };
    let s4 = receiving(path);
    let head = seq![
        ActionView::Read { count: payload.len() as u8 },
        ActionView::Open { path },
        ActionView::Send { code: Response::Success },
        ActionView::Read { count: 1 },
    ];
    assert(serve(root, s0, e0) == (s1, head[0]));
    assert(named(root, payload) == AttemptView::Next {
        phase: PhaseView::Open { path },
        action: ActionView::Open { path },
    });
    assert(serve(root, s1, e1) == (s2, head[1]));
    assert(serve(root, s2, done) == (s3, head[2]));
    assert(serve(root, s3, done) == (s4, head[3]));
    lemma_run_one(root, s0, e0);
    lemma_run_one(root, s1, e1);
    lemma_run_one(root, s2, done);
    lemma_run_one(root, s3, done);
    lemma_run_append(root, s0, seq![e0], seq![e1]);
    lemma_run_append(root, s0, seq![e0] + seq![e1], seq![done]);
    lemma_run_append(root, s0, seq![e0] + seq![e1] + seq![done], seq![done]);
    let first = frame_events(payload) + seq![done, done];
    assert(first =~= seq![e0] + seq![e1] + seq![done] + seq![done]);
    assert(head =~= seq![head[0]] + seq![head[1]] + seq![head[2]] + seq![head[3]]);
    assert(run(root, s0, first) == (s4, head));
    lemma_chunks_are_written(root, path, chunks);
    lemma_end_completes(root, path);
    lemma_run_append(root, s0, first, chunks_events(chunks));
    lemma_run_append(root, s0, first + chunks_events(chunks), end_events());

    lemma_written_chunks(chunks);
    lemma_written_append(head, chunks_actions(chunks));
    lemma_written_append(head + chunks_actions(chunks), end_actions());
    assert(written(head) =~= Seq::<u8>::empty()) by {
        reveal_with_fuel(written, 5);
        assert(head.drop_first() =~= seq![head[1], head[2], head[3]]);
        assert(head.drop_first().drop_first() =~= seq![head[2], head[3]]);
        assert(head.drop_first().drop_first().drop_first() =~= seq![head[3]]);
        assert(head.drop_first().drop_first().drop_first().drop_first() =~= Seq::<
            ActionView,
        >::empty());
    }
    let tail = end_actions();
    assert(written(tail) =~= Seq::<u8>::empty()) by {
        reveal_with_fuel(written, 4);
        assert(tail.drop_first() =~= seq![tail[1], tail[2]]);
        assert(tail.drop_first().drop_first() =~= seq![tail[2]]);
        assert(tail.drop_first().drop_first().drop_first() =~= Seq::<ActionView>::empty());
    }
    assert(Seq::<u8>::empty() + chunks.flatten() + Seq::<u8>::empty() =~= chunks.flatten());
}

/// One step keeps the connection under the root: if it holds no target but
/// one under the root, neither does the next state, and the action names no
/// file but one under the root.
pub proof fn lemma_step_stays_under_root(
    root: Seq<char>,
    state: ConnectionView,
    event: EventView,
)
    requires
        state_under(root, state),
    ensures
        state_under(root, serve(root, state, event).0),
        action_under(root, serve(root, state, event).1),
{
    match state {
        ConnectionView::Serving { phase: PhaseView::Name { pending } } => {
            match event {
                EventView::Data { bytes } => {
                    match feed(pending, bytes) {
                        FedView::Complete { payload } => {
                            match file_name(payload) {
                                Some(name) => {
                                    if validate_spec(root, name) is Ok {
                                        lemma_target_stays_under_root(root, name);
                                    }
                                },
                                None => {},
                            }
                        },
                        _ => {},
                    }
                },
                _ => {},
            }
        },
        _ => {},
    }
}

/// No connection creates or removes a file outside the root: over any run
/// of events from the start of a connection, every file that an action
/// names is the root followed by a non-empty remainder without `..`.
pub proof fn lemma_run_stays_under_root(root: Seq<char>, events: Seq<EventView>)
    ensures
        forall|i: int|
            0 <= i < events.len() ==> action_under(
                root,
                #[trigger] run(root, opening().0, events).1[i],
            ),
{
    lemma_run_from_stays_under_root(root, opening().0, events);
    lemma_run_len(root, opening().0, events);
}

/// From any state that holds no target but one under the root, every file
/// that an action of a run names lies under the root.
pub proof fn lemma_run_from_stays_under_root(
    root: Seq<char>,
    state: ConnectionView,
    events: Seq<EventView>,
)
    requires
        state_under(root, state),
    ensures
        state_under(root, run(root, state, events).0),
        forall|i: int|
            0 <= i < run(root, state, events).1.len() ==> action_under(
                root,
                #[trigger] run(root, state, events).1[i],
            ),
    decreases events.len(),
{
    if events.len() > 0 {
        let (next, action) = serve(root, state, events[0]);
        lemma_step_stays_under_root(root, state, events[0]);
        lemma_run_from_stays_under_root(root, next, events.drop_first());
        let rest = run(root, next, events.drop_first()).1;
        let all = run(root, state, events).1;
        assert(all == seq![action] + rest);
        assert forall|i: int| 0 <= i < all.len() implies action_under(root, #[trigger] all[i]) by {
            if i > 0 {
                assert(all[i] == rest[i - 1]);
            }
        }
    }
}

/// Once the attempt to store a file is over, no file is touched again:
/// whatever events follow, the connection only sends and closes.
pub proof fn lemma_settled_touches_no_file(
    root: Seq<char>,
    state: ConnectionView,
    events: Seq<EventView>,
)
    requires
        settled(state),
    ensures
        settled(run(root, state, events).0),
        forall|i: int|
            0 <= i < run(root, state, events).1.len() ==> touches_no_file(
                #[trigger] run(root, state, events).1[i],
            ),
    decreases events.len(),
{
    if events.len() > 0 {
        let (next, action) = serve(root, state, events[0]);
        lemma_settled_touches_no_file(root, next, events.drop_first());
        let rest = run(root, next, events.drop_first()).1;
        let all = run(root, state, events).1;
        assert(all == seq![action] + rest);
        assert forall|i: int| 0 <= i < all.len() implies touches_no_file(#[trigger] all[i]) by {
            if i > 0 {
                assert(all[i] == rest[i - 1]);
            }
        }
    }
}

/// A refused name creates no file.
///
/// If the payload of the filename frame is no text, or is a name that the
/// validation refuses (one that holds `..`, one that is not relative, one
/// whose joined path does not begin with the root), the server answers the
/// frame with `PathInvalid`, and whatever events follow, no action of the
/// connection touches a file.
pub proof fn lemma_refused_name_creates_no_file(
    root: Seq<char>,
    payload: Seq<u8>,
    later: Seq<EventView>,
)
    requires
        0 < payload.len() <= MAX_PAYLOAD,
        file_name(payload) matches Some(name) ==> validate_spec(root, name) is Err,
    ensures
        ({
            let actions = run(root, opening().0, frame_events(payload) + later).1;
            &&& actions.len() == 2 + later.len()
            &&& actions[0] == ActionView::Read { count: payload.len() as u8 }
            &&& actions[1] == ActionView::Send { code: Response::PathInvalid }
            &&& forall|i: int| 0 <= i < actions.len() ==> touches_no_file(#[trigger] actions[i])
        }),
{
    let e0 = EventView::Data { bytes: seq![payload.len() as u8] };
    let e1 = EventView::Data { bytes: payload };
    let s0 = opening().0;
    let s1 = ConnectionView::Serving {
        phase: PhaseView::Name { pending: Pending::Payload { len: payload.len() as u8 } },
    };
    let s2 = ConnectionView::Rejecting {
        rejection: Rejection::PathInvalid,
        cleanup_failed: false,
    };
    let a0 = ActionView::Read { count: payload.len() as u8 };
    let a1 = ActionView::Send { code: Response::PathInvalid };
    assert(serve(root, s0, e0) == (s1, a0));
    assert(serve(root, s1, e1) == (s2, a1));
    lemma_run_one(root, s0, e0);
    lemma_run_one(root, s1, e1);
    lemma_run_append(root, s0, seq![e0], seq![e1]);
    assert(frame_events(payload) =~= seq![e0] + seq![e1]);
    assert(run(root, s0, frame_events(payload)) == (s2, seq![a0] + seq![a1]));
    lemma_run_append(root, s0, frame_events(payload), later);
    lemma_settled_touches_no_file(root, s2, later);
    lemma_run_len(root, s2, later);
    let rest = run(root, s2, later).1;
    let actions = run(root, s0, frame_events(payload) + later).1;
    assert(actions == (seq![a0] + seq![a1]) + rest);
    assert forall|i: int| 0 <= i < actions.len() implies touches_no_file(#[trigger] actions[i]) by {
        if i >= 2 {
            assert(actions[i] == rest[i - 2]);
        }
    }
}

/// An empty filename frame creates no file: the server answers its length
/// byte of zero with `PathInvalid`, and whatever events follow, no action
/// of the connection touches a file.
pub proof fn lemma_empty_name_creates_no_file(root: Seq<char>, later: Seq<EventView>)
    ensures
        ({
            let first = seq![EventView::Data { bytes: seq![0u8] }];
            let actions = run(root, opening().0, first + later).1;
            &&& actions.len() == 1 + later.len()
            &&& actions[0] == ActionView::Send { code: Response::PathInvalid }
            &&& forall|i: int| 0 <= i < actions.len() ==> touches_no_file(#[trigger] actions[i])
        }),
{
    let e0 = EventView::Data { bytes: seq![0u8] };
    let s0 = opening().0;
    let s1 = ConnectionView::Rejecting {
        rejection: Rejection::PathInvalid,
        cleanup_failed: false,
    };
    let a0 = ActionView::Send { code: Response::PathInvalid };
    assert(file_name(Seq::<u8>::empty()) is None);
    assert(serve(root, s0, e0) == (s1, a0));
    lemma_run_one(root, s0, e0);
    lemma_run_append(root, s0, seq![e0], later);
    lemma_settled_touches_no_file(root, s1, later);
    lemma_run_len(root, s1, later);
    let rest = run(root, s1, later).1;
    let actions = run(root, s0, seq![e0] + later).1;
    assert(actions == seq![a0] + rest);
    assert forall|i: int| 0 <= i < actions.len() implies touches_no_file(#[trigger] actions[i]) by {
        if i >= 1 {
            assert(actions[i] == rest[i - 1]);
        }
    }
}

/// A file that exists is left alone: when creating the target fails
/// because it exists, the server answers `FileAlreadyExists`, and whatever
/// events follow, no action of the connection touches a file. Any other
/// failure to create it is answered with `PathInvalid` in the same way.
pub proof fn lemma_existing_file_is_left_alone(
    root: Seq<char>,
    path: Seq<char>,
    event: EventView,
    later: Seq<EventView>,
)
    requires
        !(event is Done),
    ensures
        ({
            let state = ConnectionView::Serving { phase: PhaseView::Open { path } };
            let actions = run(root, state, seq![event] + later).1;
            &&& actions.len() == 1 + later.len()
            &&& actions[0] == ActionView::Send {
                code: if event is AlreadyExists {
                    Response::FileAlreadyExists
                } else {
                    Response::PathInvalid
                },
            }
            &&& forall|i: int| 0 <= i < actions.len() ==> touches_no_file(#[trigger] actions[i])
        }),
{
    let state = ConnectionView::Serving { phase: PhaseView::Open { path } };
    let (next, action) = serve(root, state, event);
    assert(settled(next));
    lemma_run_one(root, state, event);
    lemma_run_append(root, state, seq![event], later);
    lemma_settled_touches_no_file(root, next, later);
    lemma_run_len(root, next, later);
    let rest = run(root, next, later).1;
    let actions = run(root, state, seq![event] + later).1;
    assert(actions == seq![action] + rest);
    assert forall|i: int| 0 <= i < actions.len() implies touches_no_file(#[trigger] actions[i]) by {
        if i >= 1 {
            assert(actions[i] == rest[i - 1]);
        }
    }
}

/// A failed upload is removed before the connection ends.
///
/// Whenever receiving fails, be it a failed write or flush of the file, a
/// failed read, or a failed acknowledgement, the very next action removes
/// the file at the target, and the connection is not closed yet. Whatever
/// comes of the removal, the next step reports a rejection to the client
/// with its own code, or closes with the failure of the socket; and the
/// outcome carries the failure of receiving, never that of the removal.
pub proof fn lemma_failed_upload_is_removed(
    root: Seq<char>,
    path: Seq<char>,
    state: Receiving,
    event: EventView,
    removal: EventView,
)
    requires
        receive(state, event) matches ProgressView::Done { result } && result is Err,
    ensures
        ({
            let failure = receive(state, event)->Done_result->Err_0;
            let before = ConnectionView::Serving { phase: PhaseView::Receive { path, state } };
            let cleaning = ConnectionView::Serving { phase: PhaseView::Cleanup { failure } };
            let cleanup_failed = !(removal is Done);
            &&& serve(root, before, event) == (cleaning, ActionView::Remove { path })
            &&& serve(root, cleaning, removal) == concluded(Err(failure), cleanup_failed)
            &&& failure matches Failure::Rejected { rejection } ==> serve(root, cleaning, removal)
                == (
                ConnectionView::Rejecting { rejection, cleanup_failed },
                ActionView::Send { code: rejection.code() },
            )
            &&& !(failure is Rejected) ==> serve(root, cleaning, removal) == closed(
                Outcome::Failed { failure, cleanup_failed },
            )
        }),
{
}

/// A failed write aborts the upload: the file is removed next, then
/// `OperationAborted` is sent to the client, and only then the connection
/// closes.
pub proof fn lemma_failed_write_aborts(
    root: Seq<char>,
    path: Seq<char>,
    event: EventView,
    removal: EventView,
    sending: EventView,
)
    requires
        !(event is Done),
    ensures
        ({
            let state = ConnectionView::Serving {
                phase: PhaseView::Receive { path, state: Receiving::Write },
            };
            let (end, actions) = run(root, state, seq![event, removal, sending]);
            &&& end is Closed
            &&& actions[0] == ActionView::Remove { path }
            &&& actions[1] == ActionView::Send { code: Response::OperationAborted }
            &&& actions[2] is Close
            &&& sending is Done ==> actions[2] == ActionView::Close {
                outcome: Outcome::Failed {
                    failure: Failure::Rejected { rejection: Rejection::OperationAborted },
                    cleanup_failed: !(removal is Done),
                },
            }
        }),
{
    let s0 = ConnectionView::Serving {
        phase: PhaseView::Receive { path, state: Receiving::Write },
    };
    let (s1, a0) = serve(root, s0, event);
    let (s2, a1) = serve(root, s1, removal);
    let (s3, a2) = serve(root, s2, sending);
    lemma_run_one(root, s0, event);
    lemma_run_one(root, s1, removal);
    lemma_run_one(root, s2, sending);
    lemma_run_append(root, s0, seq![event], seq![removal]);
    lemma_run_append(root, s0, seq![event] + seq![removal], seq![sending]);
    assert(seq![event, removal, sending] =~= seq![event] + seq![removal] + seq![sending]);
}

/// A timeout ends the connection and nothing more: the connection closes
/// as timed out unless it was closed already, nothing is sent and no file
/// is removed, and whatever events follow, it stays closed the same way.
pub proof fn lemma_timeout_only_closes(
    root: Seq<char>,
    state: ConnectionView,
    later: Seq<EventView>,
)
    ensures
        (expired(state).0 is Closed),
        state is Closed ==> expired(state) == (state, (ActionView::Close {
            outcome: state->Closed_outcome,
        })),
        !(state is Closed) ==> expired(state) == closed(Outcome::TimedOut),
        run(root, expired(state).0, later).0 == expired(state).0,
        forall|i: int|
            0 <= i < later.len() ==> #[trigger] run(root, expired(state).0, later).1[i]
                == expired(state).1,
    decreases later.len(),
{
    let end = expired(state).0;
    if later.len() > 0 {
        assert(serve(root, end, later[0]) == expired(state));
        assert(expired(end) == expired(state));
        lemma_timeout_only_closes(root, end, later.drop_first());
        lemma_run_len(root, end, later.drop_first());
        let rest = run(root, end, later.drop_first()).1;
        let all = run(root, end, later).1;
        assert(all == seq![expired(state).1] + rest);
        assert forall|i: int| 0 <= i < later.len() implies #[trigger] all[i] == expired(
            state,
        ).1 by {
            if i > 0 {
                assert(all[i] == rest[i - 1]);
            }
        }
    }
}

/// `bytes` cut into chunks of the longest payload, the last one shorter if
/// need be.
pub open spec fn chunked(bytes: Seq<u8>) -> Seq<Seq<u8>>
    decreases bytes.len(),
{
    if bytes.len() == 0 {
        Seq::empty()
    } else if bytes.len() <= MAX_PAYLOAD {
        seq![bytes]
    } else {
        seq![bytes.take(MAX_PAYLOAD as int)] + chunked(bytes.skip(MAX_PAYLOAD as int))
    }
}

/// Any bytes at all can be uploaded: cut into chunks of the longest
/// payload, they fit their frames and make up the same bytes again.
pub proof fn lemma_any_bytes_can_be_chunked(bytes: Seq<u8>)
    ensures
        chunks_fit(chunked(bytes)),
        chunked(bytes).flatten() == bytes,
    decreases bytes.len(),
{
    if bytes.len() == 0 {
    } else if bytes.len() <= MAX_PAYLOAD {
        let chunks = seq![bytes];
        assert(chunks.drop_first() =~= Seq::<Seq<u8>>::empty());
        assert(chunks.drop_first().flatten() =~= Seq::<u8>::empty());
        assert(chunks.flatten() =~= bytes);
    } else {
        let head = bytes.take(MAX_PAYLOAD as int);
        let tail = bytes.skip(MAX_PAYLOAD as int);
        lemma_any_bytes_can_be_chunked(tail);
        let chunks = seq![head] + chunked(tail);
        assert(chunks.first() == head);
        assert(chunks.drop_first() =~= chunked(tail));
        assert(chunks.flatten() =~= bytes);
        assert forall|i: int| 0 <= i < chunks.len() implies 0 < (#[trigger] chunks[i]).len()
            <= MAX_PAYLOAD by {
            if i > 0 {
                assert(chunks[i] == chunked(tail)[i - 1]);
            }
        }
    }
}

} // verus!
