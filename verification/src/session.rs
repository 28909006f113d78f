//! Orchestrator: one play request, from the command to the reply.
//!
//! A session is a state machine. It never performs outside work itself. For
//! every [`Event`] it is told of, [`Session::step`] gives the next session and
//! the [`Action`]s that the caller has to perform, in order; what comes of an
//! action is reported back as the next event.
//!
//! ```text
//! Idle -> Requesting -> Receiving -> Decoding -> Playing -> Completed
//!    \________\____________\____________\___________\_____> Errored
//! ```
//!
//! * `Idle -> Requesting` on a play command: connect and send the text.
//! * `Requesting -> Receiving` once connected: wait for a message.
//! * `Receiving -> Receiving` on a control frame: wait for the next message.
//! * `Receiving -> Decoding` on the first audio frame, or on the end of the
//!   stream, which stands for the empty payload: acquire the output device,
//!   after closing the stream where it is still open.
//! * `Decoding -> Playing` once the device is there: the payload is decoded,
//!   the buffer queued, and the drain awaited.
//! * `Playing -> Completed` once the queue has drained: release what is
//!   held and reply.
//! * A failure in any of these phases leads to `Errored`: release what is
//!   held and reply with the failure.
//!
//! `Completed` and `Errored` are final: a session is used for one request.
//! An event that the current phase does not wait for is dropped: the session
//! stays as it is and asks for nothing.

use crate::decoder::pcm_bytes_to_source;
use crate::decoder::source_spec;
use crate::decoder::SampleBuffer;
use crate::decoder::SampleBufferView;
use crate::stream::is_audio;
use crate::stream::Frame;
use crate::stream::FrameView;
use crate::stream::NORMAL_CLOSURE;
use crate::stream::STREAM_ENDPOINT;
use vstd::prelude::*;
use vstd::string::StringExecFns;

verus! {

/// What went wrong outside.
#[derive(Clone, Copy, Debug, PartialEq, Eq, Structural)]
pub enum Failure {
    /// The streaming connection could not be established or upgraded.
    Connection,
    /// Reading from or writing to the established stream failed.
    Transport,
    /// The output device could not be acquired.
    Device,
}

/// What the command that asked for playback is answered with.
#[derive(Clone, Copy, Debug, PartialEq, Eq, Structural)]
pub enum Reply {
    /// Everything that was queued has been played.
    Done,
    /// The request ended with a failure; nothing more will be played.
    Failed(Failure),
}

/// What has happened outside since the last action.
#[derive(Debug, PartialEq, Eq)]
pub enum Event {
    /// A play command has come in, with the text to be spoken.
    Play(String),
    /// The connection stands and the text has been sent.
    Connected,
    /// A message has been received.
    Frame(Frame),
    /// The remote side has closed the stream.
    Closed,
    /// The output device has been acquired.
    OutputReady,
    /// Every queued buffer has finished playing.
    Drained,
    /// Outside work has failed.
    Failed(Failure),
}

/// What an [`Event`] holds.
pub ghost enum EventView {
    Play(Seq<char>),
    Connected,
    Frame(FrameView),
    Closed,
    OutputReady,
    Drained,
    Failed(Failure),
}

impl View for Event {
    type V = EventView;

    open spec fn view(&self) -> EventView {
        match self {
            Event::Play(text) => EventView::Play(text@),
            Event::Connected => EventView::Connected,
            Event::Frame(frame) => EventView::Frame(frame@),
            Event::Closed => EventView::Closed,
            Event::OutputReady => EventView::OutputReady,
            Event::Drained => EventView::Drained,
            Event::Failed(failure) => EventView::Failed(*failure),
        }
    }
}

/// Outside work that the caller performs for the session.
#[derive(Debug, PartialEq, Eq)]
pub enum Action {
    /// Open the streaming connection to `endpoint` and send `text` as one
    /// text message. Answered by `Connected`, by `Failed(Connection)` where
    /// the connection cannot be made or upgraded, or by `Failed(Transport)`
    /// where the text cannot be sent.
    Connect { endpoint: String, text: String },
    /// Wait for the next message. Answered by `Frame`, `Closed` or
    /// `Failed(Transport)`.
    Receive,
    /// Close the stream with the given status code. Not answered.
    CloseStream { code: u16 },
    /// Acquire the output device. Answered by `OutputReady` or
    /// `Failed(Device)`.
    AcquireOutput,
    /// Append the buffer to the play queue. Does not block; not answered.
    Enqueue(SampleBuffer),
    /// Wait until all that has been queued has played. Answered by `Drained`.
    AwaitDrain,
    /// Let go of the stream and of the output device, as far as they are
    /// held; what is still queued is not played. Not answered.
    Release,
    /// Answer the command.
    Reply(Reply),
}

/// What an [`Action`] holds.
pub ghost enum ActionView {
    Connect { endpoint: Seq<char>, text: Seq<char> },
    Receive,
    CloseStream { code: u16 },
    AcquireOutput,
    Enqueue(SampleBufferView),
    AwaitDrain,
    Release,
    Reply(Reply),
}

impl View for Action {
    type V = ActionView;

    open spec fn view(&self) -> ActionView {
        match self {
            Action::Connect { endpoint, text } => ActionView::Connect {
                endpoint: endpoint@,
                text: text@,
            },
            Action::Receive => ActionView::Receive,
            Action::CloseStream { code } => ActionView::CloseStream { code: *code },
            Action::AcquireOutput => ActionView::AcquireOutput,
            Action::Enqueue(buffer) => ActionView::Enqueue(buffer@),
            Action::AwaitDrain => ActionView::AwaitDrain,
            Action::Release => ActionView::Release,
            Action::Reply(reply) => ActionView::Reply(*reply),
        }
    }
}

/// The views of a run of actions, in order.
pub open spec fn action_views(actions: Seq<Action>) -> Seq<ActionView> {
    Seq::new(actions.len(), |i: int| actions[i]@)
}

/// The views of a run of events, in order.
pub open spec fn event_views(events: Seq<Event>) -> Seq<EventView> {
    Seq::new(events.len(), |i: int| events[i]@)
}

/// One play request and how far it has come.
#[derive(Debug, PartialEq, Eq)]
pub enum Session {
    /// Nothing has been asked for yet.
    Idle,
    /// The connection is being opened and the text sent.
    Requesting,
    /// The text is out; audio is awaited.
    Receiving,
    /// The payload is here and waits for the output device.
    Decoding(Vec<u8>),
    /// The buffer is queued and playing.
    Playing,
    /// The request has been played and answered.
    Completed,
    /// The request has failed and has been answered so.
    Errored(Failure),
}

/// What a [`Session`] holds.
pub ghost enum SessionView {
    Idle,
    Requesting,
    Receiving,
    Decoding(Seq<u8>),
    Playing,
    Completed,
    Errored(Failure),
}

impl View for Session {
    type V = SessionView;

    open spec fn view(&self) -> SessionView {
        match self {
            Session::Idle => SessionView::Idle,
            Session::Requesting => SessionView::Requesting,
            Session::Receiving => SessionView::Receiving,
            Session::Decoding(payload) => SessionView::Decoding(payload@),
            Session::Playing => SessionView::Playing,
            Session::Completed => SessionView::Completed,
            Session::Errored(failure) => SessionView::Errored(*failure),
        }
    }
}

/// Whether a session has come to its end.
pub open spec fn is_terminal(session: SessionView) -> bool {
    session is Completed || session is Errored
}

/// The session that follows `session` on `event`.
pub open spec fn next_state(session: SessionView, event: EventView) -> SessionView {
    match (session, event) {
        (SessionView::Completed, _) => session,
        (SessionView::Errored(_), _) => session,
        (_, EventView::Failed(failure)) => SessionView::Errored(failure),
        (SessionView::Idle, EventView::Play(_)) => SessionView::Requesting,
        (SessionView::Requesting, EventView::Connected) => SessionView::Receiving,
        (SessionView::Receiving, EventView::Frame(frame)) => if is_audio(frame) {
            SessionView::Decoding(frame.payload)
        } else {
            SessionView::Receiving
        },
        (SessionView::Receiving, EventView::Closed) => SessionView::Decoding(Seq::empty()),
        (SessionView::Decoding(_), EventView::OutputReady) => SessionView::Playing,
        (SessionView::Playing, EventView::Drained) => SessionView::Completed,
        _ => session,
    }
}

/// The actions that `session` asks for on `event`, in the order in which they
/// are to be performed.
pub open spec fn next_actions(session: SessionView, event: EventView) -> Seq<ActionView> {
    match (session, event) {
        (SessionView::Completed, _) => seq![],
        (SessionView::Errored(_), _) => seq![],
        (_, EventView::Failed(failure)) => seq![
            ActionView::Release,
            ActionView::Reply(Reply::Failed(failure)),
        ],
        (SessionView::Idle, EventView::Play(text)) => seq![
            ActionView::Connect { endpoint: STREAM_ENDPOINT@, text },
        ],
        (SessionView::Requesting, EventView::Connected) => seq![ActionView::Receive],
        (SessionView::Receiving, EventView::Frame(frame)) => if is_audio(frame) {
            seq![ActionView::CloseStream { code: NORMAL_CLOSURE }, ActionView::AcquireOutput]
        } else {
            seq![ActionView::Receive]
        },
        (SessionView::Receiving, EventView::Closed) => seq![ActionView::AcquireOutput],
        (SessionView::Decoding(payload), EventView::OutputReady) => seq![
            ActionView::Enqueue(source_spec(payload)),
            ActionView::AwaitDrain,
        ],
        (SessionView::Playing, EventView::Drained) => seq![
            ActionView::Release,
            ActionView::Reply(Reply::Done),
        ],
        _ => seq![],
    }
}

/// The session that `start` has become once `events` have been taken in, in
/// order.
pub open spec fn run_state(start: SessionView, events: Seq<EventView>) -> SessionView
    decreases events.len(),
{
    if events.len() == 0 {
        start
    } else {
        next_state(run_state(start, events.drop_last()), events.last())
    }
}

/// All the actions that `start` asks for while `events` are taken in, in
/// order.
pub open spec fn run_actions(start: SessionView, events: Seq<EventView>) -> Seq<ActionView>
    decreases events.len(),
{
    if events.len() == 0 {
        seq![]
    } else {
        run_actions(start, events.drop_last()) + next_actions(
            run_state(start, events.drop_last()),
            events.last(),
        )
    }
}

impl Session {
    /// A session that has not been asked for anything yet.
    pub fn new() -> (session: Session)
        ensures
            session@ == SessionView::Idle,
    {
        Session::Idle
    }

    /// Whether the request has come to its end, played or failed.
    pub fn is_finished(&self) -> (finished: bool)
        ensures
            finished == is_terminal(self@),
    {
        match self {
            Session::Completed => true,
            Session::Errored(_) => true,
            _ => false,
        }
    }

    /// Takes one event in and gives the session that follows, with the
    /// actions to perform before the next event.
    pub fn step(self, event: Event) -> (out: (Session, Vec<Action>))
        ensures
            out.0@ == next_state(self@, event@),
            action_views(out.1@) == next_actions(self@, event@),
    {
        let ghost before = self@;
        let ghost seen = event@;
        let (session, actions) = match (self, event) {
            (Session::Completed, _) => (Session::Completed, Vec::new()),
            (Session::Errored(failure), _) => (Session::Errored(failure), Vec::new()),
            (_, Event::Failed(failure)) => (
                Session::Errored(failure),
                vec![Action::Release, Action::Reply(Reply::Failed(failure))],
            ),
            (Session::Idle, Event::Play(text)) => (
                Session::Requesting,
                vec![Action::Connect { endpoint: String::from_str(STREAM_ENDPOINT), text }],
            ),
            (Session::Requesting, Event::Connected) => (Session::Receiving, vec![Action::Receive]),
            (Session::Receiving, Event::Frame(frame)) => {
                if frame.is_audio() {
                    (
                        Session::Decoding(frame.payload),
                        vec![Action::CloseStream { code: NORMAL_CLOSURE }, Action::AcquireOutput],
                    )
                } else {
                    (Session::Receiving, vec![Action::Receive])
                }
            },
            (Session::Receiving, Event::Closed) => (
                Session::Decoding(Vec::new()),
                vec![Action::AcquireOutput],
            ),
            (Session::Decoding(payload), Event::OutputReady) => (
                Session::Playing,
                vec![Action::Enqueue(pcm_bytes_to_source(payload.as_slice())), Action::AwaitDrain],
            ),
            (Session::Playing, Event::Drained) => (
                Session::Completed,
                vec![Action::Release, Action::Reply(Reply::Done)],
            ),
            (session, _) => (session, Vec::new()),
        };
        assert(action_views(actions@) =~= next_actions(before, seen));
        (session, actions)
    }

    /// Takes a whole run of events in, one after the other, and gives the
    /// session at its end with all the actions that were asked for on the
    /// way.
    pub fn run(self, events: Vec<Event>) -> (out: (Session, Vec<Action>))
        ensures
            out.0@ == run_state(self@, event_views(events@)),
            action_views(out.1@) == run_actions(self@, event_views(events@)),
    {
        let ghost start = self@;
        let ghost all = event_views(events@);
        let mut session = self;
        let mut actions: Vec<Action> = Vec::new();
        assert(action_views(actions@) =~= run_actions(start, all.take(0)));
        for event in it: events
            invariant
                all == event_views(events@),
                it.seq() == events@,
                session@ == run_state(start, all.take(it.index() as int)),
                action_views(actions@) == run_actions(start, all.take(it.index() as int)),
        {
            let ghost k = it.index() as int;
            assert(all.take(k + 1).drop_last() =~= all.take(k));
            assert(all.take(k + 1).last() == event@);
            let ghost so_far = actions@;
            let (next, mut asked) = session.step(event);
            let ghost asked_seq = asked@;
            actions.append(&mut asked);
            assert(action_views(actions@) =~= action_views(so_far) + action_views(asked_seq));
            session = next;
        }
        assert(all.take(all.len() as int) =~= all);
        (session, actions)
    }
}

} // verus!
