//! The replay history of a run's downstream output: frames are kept, in order, for later
//! subscribers while they fit the replay capacity; a stream too large to keep can no longer be
//! replayed, and a closed output takes no more frames.
use vstd::prelude::*;

verus! {

/// The most bytes of output kept for replay.
pub const MAX_REPLAY_BYTES: usize = 64 * 1024 * 1024;

/// The most frames of output kept for replay.
pub const MAX_REPLAY_FRAMES: usize = 512;

/// The frames a subscriber's queue holds before the subscriber counts as too slow.
pub const SUBSCRIBER_CAPACITY: usize = 1024;

/// The flag of a Connect frame that ends the stream.
pub const END_STREAM_FLAG: u8 = 2;

/// Whether a frame ends the stream: its flags byte carries the end-of-stream flag. The run's
/// output stream stops after such a frame.
pub fn is_end_stream_frame(frame: &[u8]) -> (r: bool)
    ensures
        r == (frame@.len() > 0 && frame@[0] & END_STREAM_FLAG != 0),
{
    frame.len() > 0 && frame[0] & END_STREAM_FLAG != 0
}

/// The total length of some frames.
pub open spec fn total_bytes(frames: Seq<Seq<u8>>) -> nat
    decreases frames.len(),
{
    if frames.len() == 0 {
        0
    } else {
        total_bytes(frames.drop_last()) + frames.last().len()
    }
}

/// The frames of a list of byte vectors.
pub open spec fn frame_views(frames: Seq<Vec<u8>>) -> Seq<Seq<u8>> {
    frames.map_values(|f: Vec<u8>| f@)
}

/// What the output state is: the frames kept for replay, whether it can still replay, and
/// whether it is closed.
pub struct OutputView {
    pub frames: Seq<Seq<u8>>,
    pub replayable: bool,
    pub closed: bool,
}

/// The output state after a frame is emitted: a closed output is unchanged; otherwise, while it
/// can replay, the frame is kept if it fits both capacities, else the history is dropped and
/// replay ends for good.
pub open spec fn recorded(v: OutputView, frame: Seq<u8>) -> OutputView {
    if v.closed || !v.replayable {
        v
    } else if total_bytes(v.frames) + frame.len() <= MAX_REPLAY_BYTES && v.frames.len()
        < MAX_REPLAY_FRAMES {
        OutputView { frames: v.frames.push(frame), ..v }
    } else {
        OutputView { frames: Seq::empty(), replayable: false, ..v }
    }
}

/// A fresh output: no frames, replayable, open.
pub open spec fn fresh_output() -> OutputView {
    OutputView { frames: Seq::empty(), replayable: true, closed: false }
}

/// The output state after the frames are emitted, in order, on a fresh output.
pub open spec fn output_after(frames: Seq<Seq<u8>>) -> OutputView
    decreases frames.len(),
{
    if frames.len() == 0 {
        fresh_output()
    } else {
        recorded(output_after(frames.drop_last()), frames.last())
    }
}

/// The replay state of a run's output.
pub struct OutputState {
    pub history: Vec<Vec<u8>>,
    pub history_bytes: usize,
    pub replayable: bool,
    pub closed: bool,
}

/// What an emit reports: whether the frame was taken, and whether it evicted the last
/// subscriber.
pub struct EmitStatus {
    pub accepted: bool,
    pub last_subscriber_evicted: bool,
}

impl OutputState {
    /// The state as an [`OutputView`].
    pub open spec fn view(&self) -> OutputView {
        OutputView {
            frames: frame_views(self.history@),
            replayable: self.replayable,
            closed: self.closed,
        }
    }

    /// The byte count matches the history, the history fits both capacities, and only a
    /// replayable output keeps frames.
    pub open spec fn well_formed(&self) -> bool {
        &&& self.history_bytes == total_bytes(frame_views(self.history@))
        &&& self.history@.len() <= MAX_REPLAY_FRAMES
        &&& self.history_bytes <= MAX_REPLAY_BYTES
        &&& !self.replayable ==> self.history@.len() == 0
    }

    /// A fresh output.
    pub fn new() -> (r: OutputState)
        ensures
            r.well_formed(),
            r.view() == fresh_output(),
    {
        let r = OutputState { history: Vec::new(), history_bytes: 0, replayable: true, closed: false };
        assert(r.view().frames =~= Seq::<Seq<u8>>::empty());
        r
    }

    /// Emits a frame into the history (see [`recorded`]); whether it was taken, which is so
    /// unless the output is closed.
    pub fn record(&mut self, frame: &[u8]) -> (accepted: bool)
        requires
            old(self).well_formed(),
        ensures
            final(self).well_formed(),
            final(self).view() == recorded(old(self).view(), frame@),
            accepted == !old(self).closed,
    {
        if self.closed {
            return false;
        }
        if self.replayable {
            let len = frame.len();
            if len <= MAX_REPLAY_BYTES - self.history_bytes && self.history.len() < MAX_REPLAY_FRAMES {
                let ghost before = self.history@;
                let copy = vstd::slice::slice_to_vec(frame);
                self.history_bytes = self.history_bytes + len;
                self.history.push(copy);
                assert(frame_views(self.history@) =~= frame_views(before).push(frame@));
                assert(frame_views(self.history@).drop_last() =~= frame_views(before));
            } else {
                self.history = Vec::new();
                self.history_bytes = 0;
                self.replayable = false;
                assert(frame_views(self.history@) =~= Seq::<Seq<u8>>::empty());
            }
        }
        true
    }

    /// What a new subscriber is replayed: the kept frames, in order, or nothing when the
    /// output can no longer replay (the subscriber must then fail, not see an empty stream).
    pub fn replay(&self) -> (r: Option<Vec<Vec<u8>>>)
        requires
            self.well_formed(),
        ensures
            match r {
                Some(frames) => self.replayable && frame_views(frames@) == self.view().frames,
                None => !self.replayable,
            },
    {
        if !self.replayable {
            return None;
        }
        let mut out: Vec<Vec<u8>> = Vec::new();
        let mut i: usize = 0;
        while i < self.history.len()
            invariant
                i <= self.history@.len(),
                frame_views(out@) == frame_views(self.history@).take(i as int),
            decreases self.history@.len() - i,
        {
            let frame = &self.history[i];
            let copy = vstd::slice::slice_to_vec(frame.as_slice());
            let ghost before = out@;
            out.push(copy);
            assert(frame_views(out@) =~= frame_views(before).push(frame@));
            i = i + 1;
            assert(frame_views(out@) =~= frame_views(self.history@).take(i as int));
        }
        assert(frame_views(self.history@).take(self.history@.len() as int) =~= frame_views(self.history@));
        Some(out)
    }

    /// Closes the output; whether it was open. A closed output takes no more frames.
    pub fn close(&mut self) -> (r: bool)
        requires
            old(self).well_formed(),
        ensures
            final(self).well_formed(),
            r == !old(self).closed,
            final(self).view() == (OutputView { closed: true, ..old(self).view() }),
    {
        if self.closed {
            return false;
        }
        self.closed = true;
        true
    }
}

/// The status of an emit that was taken (or not) when the output had subscribers (or not) and
/// `remaining` of them took the frame.
pub fn emit_status(accepted: bool, had_subscribers: bool, remaining: usize) -> (r: EmitStatus)
    ensures
        r.accepted == accepted,
        r.last_subscriber_evicted == (had_subscribers && remaining == 0),
{
    EmitStatus { accepted, last_subscriber_evicted: had_subscribers && remaining == 0 }
}

/// Frames that fit the replay capacities, emitted on a fresh output, are all replayed, in
/// order.
pub proof fn lemma_fitting_output_replays_in_order(frames: Seq<Seq<u8>>)
    requires
        total_bytes(frames) <= MAX_REPLAY_BYTES,
        frames.len() <= MAX_REPLAY_FRAMES,
    ensures
        output_after(frames).replayable,
        !output_after(frames).closed,
        output_after(frames).frames == frames,
    decreases frames.len(),
{
    if frames.len() > 0 {
        let rest = frames.drop_last();
        assert(total_bytes(rest) <= total_bytes(frames));
        lemma_fitting_output_replays_in_order(rest);
        assert(rest.push(frames.last()) =~= frames);
    }
}

/// Once an output can no longer replay, no later emit makes it replayable again.
pub proof fn lemma_lost_replay_is_final(v: OutputView, frame: Seq<u8>)
    requires
        !v.replayable,
    ensures
        !recorded(v, frame).replayable,
        recorded(v, frame).frames == v.frames,
{
}

/// A closed output is unchanged by any emit.
pub proof fn lemma_closed_output_takes_nothing(v: OutputView, frame: Seq<u8>)
    requires
        v.closed,
    ensures
        recorded(v, frame) == v,
{
}

/// Emitting more frames than the history holds ends replay: a later subscriber is refused.
pub proof fn lemma_too_many_frames_end_replay(frames: Seq<Seq<u8>>)
    requires
        frames.len() > MAX_REPLAY_FRAMES,
    ensures
        !output_after(frames).replayable,
    decreases frames.len(),
{
    let rest = frames.drop_last();
    if rest.len() > MAX_REPLAY_FRAMES {
        lemma_too_many_frames_end_replay(rest);
    } else {
        lemma_history_bounded(rest);
    }
}

/// The history of an output never holds more frames than were emitted.
pub proof fn lemma_history_bounded(frames: Seq<Seq<u8>>)
    ensures
        output_after(frames).frames.len() <= frames.len(),
        output_after(frames).replayable ==> output_after(frames).frames.len() == frames.len(),
        !output_after(frames).closed,
    decreases frames.len(),
{
    if frames.len() > 0 {
        lemma_history_bounded(frames.drop_last());
    }
}

} // verus!
