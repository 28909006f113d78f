//! What holds of every session, whatever the outside world does.
//!
//! The statements here speak of whole runs: a fresh session, a run of events
//! in the order in which they came, the session at the end of it and the
//! actions it asked for on the way.

use crate::decoder::source_spec;
use crate::session::is_terminal;
use crate::session::next_actions;
use crate::session::next_state;
use crate::session::run_actions;
use crate::session::run_state;
use crate::session::ActionView;
use crate::session::EventView;
use crate::session::Failure;
use crate::session::Reply;
use crate::session::SessionView;
use crate::stream::first_payload;
use crate::stream::is_audio;
use crate::stream::FrameView;
use crate::stream::NORMAL_CLOSURE;
use crate::stream::STREAM_ENDPOINT;
use vstd::prelude::*;

verus! {

/// Taking one event in is one step.
pub proof fn lemma_run_one(start: SessionView, event: EventView)
    ensures
        run_state(start, seq![event]) == next_state(start, event),
        run_actions(start, seq![event]) == next_actions(start, event),
{
    let events = seq![event];
    assert(events.drop_last() =~= Seq::<EventView>::empty());
    assert(run_state(start, events.drop_last()) == start);
    assert(run_actions(start, events.drop_last()) =~= Seq::<ActionView>::empty());
    assert(run_actions(start, events) =~= next_actions(start, event));
}

/// A run can be cut anywhere: taking `first` in and then `rest` is the same
/// as taking in the two of them joined.
pub proof fn lemma_run_concat(start: SessionView, first: Seq<EventView>, rest: Seq<EventView>)
    ensures
        run_state(start, first + rest) == run_state(run_state(start, first), rest),
        run_actions(start, first + rest) == run_actions(start, first) + run_actions(
            run_state(start, first),
            rest,
        ),
    decreases rest.len(),
{
    let middle = run_state(start, first);
    if rest.len() == 0 {
        assert(first + rest =~= first);
        assert(run_actions(start, first) + run_actions(middle, rest) =~= run_actions(
            start,
            first,
        ));
    } else {
        lemma_run_concat(start, first, rest.drop_last());
        assert((first + rest).drop_last() =~= first + rest.drop_last());
        assert((first + rest).last() == rest.last());
        assert(run_actions(start, first + rest) =~= run_actions(start, first) + run_actions(
            middle,
            rest,
        ));
    }
}

/// A session that has come to its end stays as it is and asks for nothing
/// more, whatever it is told.
pub proof fn lemma_terminal_is_final(session: SessionView, events: Seq<EventView>)
    requires
        is_terminal(session),
    ensures
        run_state(session, events) == session,
        run_actions(session, events) == Seq::<ActionView>::empty(),
    decreases events.len(),
{
    if events.len() > 0 {
        lemma_terminal_is_final(session, events.drop_last());
        assert(run_actions(session, events) =~= Seq::<ActionView>::empty());
    }
}

/// The events that report `frames` one by one, in order.
pub open spec fn frame_events(frames: Seq<FrameView>) -> Seq<EventView> {
    Seq::new(frames.len(), |i: int| EventView::Frame(frames[i]))
}

/// A session that holds its payload does not listen to the stream any more:
/// further frames, and the end of the stream, change nothing and ask for
/// nothing.
pub proof fn lemma_decoding_ignores_stream(payload: Seq<u8>, events: Seq<EventView>)
    requires
        forall|i: int|
            0 <= i < events.len() ==> (#[trigger] events[i] is Frame || events[i] is Closed),
    ensures
        run_state(SessionView::Decoding(payload), events) == SessionView::Decoding(payload),
        run_actions(SessionView::Decoding(payload), events) == Seq::<ActionView>::empty(),
    decreases events.len(),
{
    if events.len() > 0 {
        lemma_decoding_ignores_stream(payload, events.drop_last());
        assert(events.last() == events[events.len() - 1]);
        assert(run_actions(SessionView::Decoding(payload), events) =~= Seq::<
            ActionView,
        >::empty());
    }
}

/// While only control frames come in, a receiving session goes on receiving:
/// it asks for the next message once for each of them, and for nothing else.
pub proof fn lemma_control_frames_are_skipped(frames: Seq<FrameView>)
    requires
        forall|i: int| 0 <= i < frames.len() ==> !is_audio(#[trigger] frames[i]),
    ensures
        run_state(SessionView::Receiving, frame_events(frames)) == SessionView::Receiving,
        run_actions(SessionView::Receiving, frame_events(frames)) == Seq::new(
            frames.len(),
            |i: int| ActionView::Receive,
        ),
    decreases frames.len(),
{
    let events = frame_events(frames);
    if frames.len() > 0 {
        lemma_control_frames_are_skipped(frames.drop_last());
        assert(events.drop_last() =~= frame_events(frames.drop_last()));
        assert(events.last() == EventView::Frame(frames.last()));
        assert(!is_audio(frames[frames.len() - 1]));
    }
    assert(run_actions(SessionView::Receiving, events) =~= Seq::new(
        frames.len(),
        |i: int| ActionView::Receive,
    ));
}

/// Whatever the stream sends before it ends, a receiving session ends up
/// holding the payload of the first audio frame, or the empty payload where
/// no audio frame came: control frames are skipped, and what follows the
/// first audio frame is not looked at.
pub proof fn lemma_receiving_takes_first_payload(frames: Seq<FrameView>)
    ensures
        run_state(SessionView::Receiving, frame_events(frames).push(EventView::Closed))
            == SessionView::Decoding(first_payload(frames)),
    decreases frames.len(),
{
    let events = frame_events(frames).push(EventView::Closed);
    if frames.len() == 0 {
        assert(events =~= seq![EventView::Closed]);
        lemma_run_one(SessionView::Receiving, EventView::Closed);
    } else {
        let head = seq![EventView::Frame(frames[0])];
        let tail = frame_events(frames.drop_first()).push(EventView::Closed);
        assert(events =~= head + tail);
        lemma_run_one(SessionView::Receiving, EventView::Frame(frames[0]));
        lemma_run_concat(SessionView::Receiving, head, tail);
        if is_audio(frames[0]) {
            lemma_decoding_ignores_stream(frames[0].payload, tail);
        } else {
            lemma_receiving_takes_first_payload(frames.drop_first());
        }
    }
}

/// Whether the caller reports back what came of an action.
pub open spec fn awaits_answer(action: ActionView) -> bool {
    action is Connect || action is Receive || action is AcquireOutput || action is AwaitDrain
}

/// A session waits for one thing at a time. Of what it asks for in one step,
/// only the last action is answered, so that nothing is ever read from the
/// stream twice at once; and it is either that or the reply, which comes
/// exactly in the step in which the session comes to its end.
pub proof fn lemma_one_thing_at_a_time(session: SessionView, event: EventView)
    ensures
        ({
            let asked = next_actions(session, event);
            let n = asked.len() as int;
            &&& forall|i: int| 0 <= i < n && awaits_answer(#[trigger] asked[i]) ==> i == n - 1
            &&& n > 0 ==> awaits_answer(asked[n - 1]) || asked[n - 1] is Reply
            &&& n > 0 && asked[n - 1] is Reply <==> !is_terminal(session) && is_terminal(
                next_state(session, event),
            )
        }),
{
}

/// Whether a session has not yet handed anything to the play queue and has
/// not come to its end either.
pub open spec fn before_playing(session: SessionView) -> bool {
    session is Idle || session is Requesting || session is Receiving || session is Decoding
}

/// Whether no buffer is queued anywhere in `actions`.
pub open spec fn queues_nothing(actions: Seq<ActionView>) -> bool {
    forall|i: int| 0 <= i < actions.len() ==> !(#[trigger] actions[i] is Enqueue)
}

/// Whether every buffer queued in `actions` is the only one, and is followed
/// at once by the wait for the queue to drain.
pub open spec fn queues_orderly(actions: Seq<ActionView>) -> bool {
    &&& forall|i: int|
        0 <= i < actions.len() && #[trigger] actions[i] is Enqueue ==> i + 1 < actions.len()
            && actions[i + 1] is AwaitDrain
    &&& forall|i: int, j: int|
        0 <= i < actions.len() && 0 <= j < actions.len() && #[trigger] actions[i] is Enqueue
            && #[trigger] actions[j] is Enqueue ==> i == j
}

/// Whether a connection, if one is opened in `actions`, is opened first of
/// all.
pub open spec fn connects_first(actions: Seq<ActionView>) -> bool {
    forall|i: int| 0 <= i < actions.len() && #[trigger] actions[i] is Connect ==> i == 0
}

/// Whether a reply, if there is one in `actions`, is the last of them.
pub open spec fn replies_last(actions: Seq<ActionView>) -> bool {
    forall|i: int|
        0 <= i < actions.len() && #[trigger] actions[i] is Reply ==> i == actions.len() - 1
}

/// How the actions of a run stand to the session at its end.
spec fn traced(session: SessionView, actions: Seq<ActionView>) -> bool {
    let n = actions.len() as int;
    &&& queues_orderly(actions)
    &&& replies_last(actions)
    &&& connects_first(actions)
    &&& session is Idle <==> n == 0
    &&& before_playing(session) ==> queues_nothing(actions) && (n > 0 ==> !(actions[n - 1] is Reply))
    &&& session is Playing ==> n >= 2 && actions[n - 2] is Enqueue && actions[n - 1] is AwaitDrain
    &&& session is Completed ==> n >= 4 && actions[n - 4] is Enqueue && actions[n - 3] is AwaitDrain
        && actions[n - 2] is Release && actions[n - 1] == ActionView::Reply(Reply::Done)
    &&& session matches SessionView::Errored(failure) ==> n >= 2 && actions[n - 2] is Release
        && actions[n - 1] == ActionView::Reply(Reply::Failed(failure))
}

proof fn lemma_traced_step(session: SessionView, actions: Seq<ActionView>, event: EventView)
    requires
        traced(session, actions),
    ensures
        traced(next_state(session, event), actions + next_actions(session, event)),
{
    let asked = next_actions(session, event);
    let after = actions + asked;
    let n = actions.len() as int;
    if asked.len() == 0 {
        assert(after =~= actions);
    } else {
        assert(forall|i: int| 0 <= i < n ==> after[i] == actions[i]);
        assert(forall|i: int| 0 <= i < asked.len() ==> after[n + i] == asked[i]);
        if session is Playing {
            assert(asked.len() == 2);
            assert(asked[0] is Release);
            assert(asked[1] is Reply);
        } else {
            assert(before_playing(session));
            assert(queues_nothing(actions));
            assert(forall|i: int| 0 <= i < n ==> !(#[trigger] actions[i] is Reply));
            if asked.len() == 1 {
                assert(!(asked[0] is Enqueue));
            } else {
                assert(asked.len() == 2);
                assert(!(asked[0] is Reply));
                assert(!(asked[1] is Enqueue));
                assert(asked[0] is Enqueue ==> asked[1] is AwaitDrain);
            }
        }
    }
}

proof fn lemma_traced(events: Seq<EventView>)
    ensures
        traced(run_state(SessionView::Idle, events), run_actions(SessionView::Idle, events)),
    decreases events.len(),
{
    if events.len() > 0 {
        lemma_traced(events.drop_last());
        lemma_traced_step(
            run_state(SessionView::Idle, events.drop_last()),
            run_actions(SessionView::Idle, events.drop_last()),
            events.last(),
        );
    }
}

/// A request opens at most one connection, before anything else. At most one
/// buffer is queued for it, and the wait for the queue to drain follows it at
/// once. The command is answered once, as the last thing
/// the session asks for, directly after the release of what was held, and
/// only by a session that has come to its end: with success exactly where the
/// session is completed, after the drain that followed the one queued buffer;
/// with the failure where it has failed.
pub proof fn lemma_one_buffer_one_reply(events: Seq<EventView>)
    ensures
        ({
            let session = run_state(SessionView::Idle, events);
            let actions = run_actions(SessionView::Idle, events);
            let n = actions.len() as int;
            &&& connects_first(actions)
            &&& queues_orderly(actions)
            &&& replies_last(actions)
            &&& is_terminal(session) <==> n > 0 && actions[n - 1] is Reply
            &&& session is Completed <==> n > 0 && actions[n - 1] == ActionView::Reply(
                Reply::Done,
            )
            &&& session is Completed ==> n >= 4 && actions[n - 4] is Enqueue && actions[n - 3]
                is AwaitDrain
            &&& session matches SessionView::Errored(failure) ==> n > 0 && actions[n - 1]
                == ActionView::Reply(Reply::Failed(failure))
            &&& is_terminal(session) ==> n >= 2 && actions[n - 2] is Release
        }),
{
    lemma_traced(events);
}

/// A failure that comes before anything was handed to the play queue, such as
/// a connection that cannot be made, ends the request with nothing queued:
/// the session has failed with that failure, what was held is released, the
/// reply says so, and no buffer was or will be queued, whatever is reported
/// afterwards.
pub proof fn lemma_early_failure_queues_nothing(
    before: Seq<EventView>,
    failure: Failure,
    after: Seq<EventView>,
)
    requires
        before_playing(run_state(SessionView::Idle, before)),
    ensures
        ({
            let events = before.push(EventView::Failed(failure)) + after;
            let actions = run_actions(SessionView::Idle, events);
            &&& run_state(SessionView::Idle, events) == SessionView::Errored(failure)
            &&& queues_nothing(actions)
            &&& actions.len() >= 2
            &&& actions[actions.len() - 2] is Release
            &&& actions.last() == ActionView::Reply(Reply::Failed(failure))
        }),
{
    let failed = before.push(EventView::Failed(failure));
    let session = run_state(SessionView::Idle, before);
    let so_far = run_actions(SessionView::Idle, before);
    lemma_traced(before);
    assert(failed.drop_last() =~= before);
    assert(run_state(SessionView::Idle, failed) == SessionView::Errored(failure));
    let asked = next_actions(session, EventView::Failed(failure));
    assert(asked =~= seq![ActionView::Release, ActionView::Reply(Reply::Failed(failure))]);
    assert(run_actions(SessionView::Idle, failed) == so_far + asked);
    lemma_run_concat(SessionView::Idle, failed, after);
    lemma_terminal_is_final(SessionView::Errored(failure), after);
    assert(run_actions(SessionView::Idle, failed + after) =~= so_far + asked);
}

/// A request that meets no failure is played through. The text goes out
/// once, control frames are skipped, and on the first audio frame the stream
/// is closed, the output acquired, that frame's payload decoded and queued as
/// the one buffer of the request, and the drain awaited; after the drain, and
/// not before, what is held is released and the command answered with
/// success.
pub proof fn lemma_play_through(text: Seq<char>, control: Seq<FrameView>, audio: FrameView)
    requires
        forall|i: int| 0 <= i < control.len() ==> !is_audio(#[trigger] control[i]),
        is_audio(audio),
    ensures
        ({
            let events = seq![EventView::Play(text), EventView::Connected] + frame_events(control)
                + seq![EventView::Frame(audio), EventView::OutputReady, EventView::Drained];
            &&& run_state(SessionView::Idle, events) == SessionView::Completed
            &&& run_actions(SessionView::Idle, events) == seq![
                ActionView::Connect { endpoint: STREAM_ENDPOINT@, text },
                ActionView::Receive,
            ] + Seq::new(control.len(), |i: int| ActionView::Receive) + seq![
                ActionView::CloseStream { code: NORMAL_CLOSURE },
                ActionView::AcquireOutput,
                ActionView::Enqueue(source_spec(audio.payload)),
                ActionView::AwaitDrain,
                ActionView::Release,
                ActionView::Reply(Reply::Done),
            ]
        }),
{
    let opening = seq![EventView::Play(text), EventView::Connected];
    let closing = seq![EventView::Frame(audio), EventView::OutputReady, EventView::Drained];
    lemma_opening(text);
    lemma_control_frames_are_skipped(control);
    lemma_run_concat(SessionView::Idle, opening, frame_events(control));
    lemma_run_concat(SessionView::Idle, opening + frame_events(control), closing);
    lemma_run_three(
        SessionView::Receiving,
        EventView::Frame(audio),
        EventView::OutputReady,
        EventView::Drained,
    );
    assert(run_actions(SessionView::Receiving, closing) =~= seq![
        ActionView::CloseStream { code: NORMAL_CLOSURE },
        ActionView::AcquireOutput,
        ActionView::Enqueue(source_spec(audio.payload)),
        ActionView::AwaitDrain,
        ActionView::Release,
        ActionView::Reply(Reply::Done),
    ]);
}

/// A stream that ends before any audio has come is no failure: the request
/// is played through as silence. Nothing is closed, the one buffer that is
/// queued holds no sample, and the command is answered with success after the
/// drain.
pub proof fn lemma_play_silence(text: Seq<char>, control: Seq<FrameView>)
    requires
        forall|i: int| 0 <= i < control.len() ==> !is_audio(#[trigger] control[i]),
    ensures
        ({
            let events = seq![EventView::Play(text), EventView::Connected] + frame_events(control)
                + seq![EventView::Closed, EventView::OutputReady, EventView::Drained];
            &&& run_state(SessionView::Idle, events) == SessionView::Completed
            &&& run_actions(SessionView::Idle, events) == seq![
                ActionView::Connect { endpoint: STREAM_ENDPOINT@, text },
                ActionView::Receive,
            ] + Seq::new(control.len(), |i: int| ActionView::Receive) + seq![
                ActionView::AcquireOutput,
                ActionView::Enqueue(source_spec(Seq::empty())),
                ActionView::AwaitDrain,
                ActionView::Release,
                ActionView::Reply(Reply::Done),
            ]
            &&& source_spec(Seq::empty()).samples.len() == 0
        }),
{
    let opening = seq![EventView::Play(text), EventView::Connected];
    let closing = seq![EventView::Closed, EventView::OutputReady, EventView::Drained];
    lemma_opening(text);
    lemma_control_frames_are_skipped(control);
    lemma_run_concat(SessionView::Idle, opening, frame_events(control));
    lemma_run_concat(SessionView::Idle, opening + frame_events(control), closing);
    lemma_run_three(
        SessionView::Receiving,
        EventView::Closed,
        EventView::OutputReady,
        EventView::Drained,
    );
    assert(run_actions(SessionView::Receiving, closing) =~= seq![
        ActionView::AcquireOutput,
        ActionView::Enqueue(source_spec(Seq::empty())),
        ActionView::AwaitDrain,
        ActionView::Release,
        ActionView::Reply(Reply::Done),
    ]);
}

proof fn lemma_opening(text: Seq<char>)
    ensures
        run_state(SessionView::Idle, seq![EventView::Play(text), EventView::Connected])
            == SessionView::Receiving,
        run_actions(SessionView::Idle, seq![EventView::Play(text), EventView::Connected])
            == seq![
            ActionView::Connect { endpoint: STREAM_ENDPOINT@, text },
            ActionView::Receive,
        ],
{
    let play = seq![EventView::Play(text)];
    let connected = seq![EventView::Connected];
    assert(seq![EventView::Play(text), EventView::Connected] =~= play + connected);
    lemma_run_one(SessionView::Idle, EventView::Play(text));
    lemma_run_one(SessionView::Requesting, EventView::Connected);
    lemma_run_concat(SessionView::Idle, play, connected);
    assert(run_actions(SessionView::Idle, play + connected) =~= seq![
        ActionView::Connect { endpoint: STREAM_ENDPOINT@, text },
        ActionView::Receive,
    ]);
}

proof fn lemma_run_three(start: SessionView, a: EventView, b: EventView, c: EventView)
    ensures
        run_state(start, seq![a, b, c]) == next_state(next_state(next_state(start, a), b), c),
        run_actions(start, seq![a, b, c]) == next_actions(start, a) + next_actions(
            next_state(start, a),
            b,
        ) + next_actions(next_state(next_state(start, a), b), c),
{
    assert(seq![a, b, c] =~= seq![a] + seq![b] + seq![c]);
    lemma_run_one(start, a);
    lemma_run_one(next_state(start, a), b);
    lemma_run_one(next_state(next_state(start, a), b), c);
    lemma_run_concat(start, seq![a], seq![b]);
    lemma_run_concat(start, seq![a] + seq![b], seq![c]);
}

} // verus!
