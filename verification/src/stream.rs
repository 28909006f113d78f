//! Streaming audio source: what the synthesis stream sends, and which of it
//! is audio.
//!
//! After the text has gone out, the backend answers with messages of several
//! kinds. Only a binary message is audio, and it is a complete PCM payload by
//! itself. Every other kind is a control frame and is skipped. A request is
//! answered by the first audio payload; a stream that ends before any audio
//! has come answers with the empty payload, which is no error.

use vstd::prelude::*;
use vstd::slice::slice_to_vec;

verus! {

/// Address of the synthesis stream.
pub const STREAM_ENDPOINT: &'static str = "ws://localhost:8000/play";

/// Status code of a normal closure, sent when the stream is closed from this
/// side.
pub const NORMAL_CLOSURE: u16 = 1000;

/// The kind of an inbound message.
#[derive(Clone, Copy, Debug, PartialEq, Eq, Structural)]
pub enum FrameKind {
    Text,
    Binary,
    Ping,
    Pong,
    Close,
}

/// What a [`Frame`] holds.
pub ghost struct FrameView {
    pub kind: FrameKind,
    pub payload: Seq<u8>,
}

/// One message received from the stream.
#[derive(Debug, PartialEq, Eq)]
pub struct Frame {
    pub kind: FrameKind,
    pub payload: Vec<u8>,
}

impl View for Frame {
    type V = FrameView;

    open spec fn view(&self) -> FrameView {
        FrameView { kind: self.kind, payload: self.payload@ }
    }
}

/// Whether a frame carries audio.
pub open spec fn is_audio(frame: FrameView) -> bool {
    frame.kind == FrameKind::Binary
}

/// The payload that a run of inbound frames answers a request with: that of
/// the first audio frame, or the empty payload where there is none.
pub open spec fn first_payload(frames: Seq<FrameView>) -> Seq<u8>
    decreases frames.len(),
{
    if frames.len() == 0 {
        Seq::empty()
    } else if is_audio(frames[0]) {
        frames[0].payload
    } else {
        first_payload(frames.drop_first())
    }
}

/// The views of a run of frames, in order.
pub open spec fn frame_views(frames: Seq<Frame>) -> Seq<FrameView> {
    Seq::new(frames.len(), |i: int| frames[i]@)
}

impl Frame {
    /// A frame of the given kind and payload.
    pub fn new(kind: FrameKind, payload: Vec<u8>) -> (frame: Frame)
        ensures
            frame@ == (FrameView { kind, payload: payload@ }),
    {
        Frame { kind, payload }
    }

    /// Whether this frame carries audio.
    pub fn is_audio(&self) -> (audio: bool)
        ensures
            audio == is_audio(self@),
    {
        match self.kind {
            FrameKind::Binary => true,
            _ => false,
        }
    }
}

/// Control frames before the first audio frame change nothing: the answer is
/// that frame's payload, whatever comes after it.
pub proof fn lemma_first_payload_skips_control(
    before: Seq<FrameView>,
    audio: FrameView,
    after: Seq<FrameView>,
)
    requires
        forall|i: int| 0 <= i < before.len() ==> !is_audio(#[trigger] before[i]),
        is_audio(audio),
    ensures
        first_payload(before.push(audio) + after) == audio.payload,
    decreases before.len(),
{
    let all = before.push(audio) + after;
    if before.len() == 0 {
        assert(all[0] == audio);
    } else {
        assert(all[0] == before[0]);
        assert(all.drop_first() =~= before.drop_first().push(audio) + after);
        lemma_first_payload_skips_control(before.drop_first(), audio, after);
    }
}

/// A stream that holds no audio frame, and so one that ends at once, is
/// answered with the empty payload.
pub proof fn lemma_first_payload_without_audio(frames: Seq<FrameView>)
    requires
        forall|i: int| 0 <= i < frames.len() ==> !is_audio(#[trigger] frames[i]),
    ensures
        first_payload(frames) == Seq::<u8>::empty(),
    decreases frames.len(),
{
    if frames.len() > 0 {
        lemma_first_payload_without_audio(frames.drop_first());
    }
}

/// Picks the answer out of frames that have already been received: the
/// payload of the first audio frame, or the empty payload.
pub fn first_audio_payload(frames: &[Frame]) -> (payload: Vec<u8>)
    ensures
        payload@ == first_payload(frame_views(frames@)),
{
    let mut k: usize = 0;
    assert(frame_views(frames@).skip(0) =~= frame_views(frames@));
    while k < frames.len()
        invariant
            k <= frames@.len(),
            first_payload(frame_views(frames@)) == first_payload(
                frame_views(frames@).skip(k as int),
            ),
        decreases frames@.len() - k,
    {
        let ghost rest = frame_views(frames@).skip(k as int);
        assert(rest[0] == frames@[k as int]@);
        if frames[k].is_audio() {
            return slice_to_vec(frames[k].payload.as_slice());
        }
        assert(rest.drop_first() =~= frame_views(frames@).skip(k + 1));
        k += 1;
    }
    assert(frame_views(frames@).skip(k as int).len() == 0);
    Vec::new()
}

} // verus!
