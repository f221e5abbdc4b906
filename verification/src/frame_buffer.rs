//! The accounting of a bounded frame buffer in front of a channel: frames are accepted while the
//! bytes counted as buffered leave room for them, and the count follows frames in and out.

use vstd::prelude::*;

verus! {

/// The total length of the frames in `frames`.
pub open spec fn total_len(frames: Seq<Seq<u8>>) -> nat
    decreases frames.len(),
{
    if frames.len() == 0 {
        0
    } else {
        frames[0].len() + total_len(frames.skip(1))
    }
}

/// Adding a frame at the back adds its length.
pub proof fn lemma_total_len_push(frames: Seq<Seq<u8>>, frame: Seq<u8>)
    ensures
        total_len(frames.push(frame)) == total_len(frames) + frame.len(),
    decreases frames.len(),
{
    if frames.len() > 0 {
        assert(frames.push(frame).skip(1) =~= frames.skip(1).push(frame));
        assert(frames.push(frame)[0] == frames[0]);
        lemma_total_len_push(frames.skip(1), frame);
    } else {
        assert(frames.push(frame).skip(1) =~= Seq::<Seq<u8>>::empty());
        assert(total_len(Seq::<Seq<u8>>::empty()) == 0);
        assert(frames.push(frame)[0] == frame);
    }
}

/// The frames waiting to be sent, oldest first, and the count of bytes buffered against the
/// maximum.
#[derive(Debug)]
pub struct FrameBuffer {
    buffer: Vec<Vec<u8>>,
    buffered_now: usize,
    buffered_max: usize,
}

impl FrameBuffer {
    /// The waiting frames, as bytes, oldest first.
    pub closed spec fn frames(&self) -> Seq<Seq<u8>> {
        self.buffer@.map_values(|f: Vec<u8>| f@)
    }

    /// The bytes counted as buffered.
    pub closed spec fn spec_buffered_now(&self) -> usize {
        self.buffered_now
    }

    /// The most bytes the buffer accepts.
    pub closed spec fn spec_buffered_max(&self) -> usize {
        self.buffered_max
    }

    /// The count covers at least the frames waiting.
    pub open spec fn wf(&self) -> bool {
        total_len(self.frames()) <= self.spec_buffered_now()
    }

    /// An empty buffer that holds at most `buffered_max` bytes.
    pub fn new(buffered_max: usize) -> (buffer: FrameBuffer)
        ensures
            buffer.wf(),
            buffer.frames() == Seq::<Seq<u8>>::empty(),
            buffer.spec_buffered_now() == 0,
            buffer.spec_buffered_max() == buffered_max,
    {
        let buffer = FrameBuffer { buffer: Vec::new(), buffered_now: 0, buffered_max };
        assert(buffer.frames() =~= Seq::<Seq<u8>>::empty());
        buffer
    }

    /// Offers a frame: it is accepted at the back, and counted, when the room left under the
    /// maximum holds it; otherwise it is handed back.
    pub fn start_send(&mut self, frame: Vec<u8>) -> (rejected: Option<Vec<u8>>)
        requires
            old(self).wf(),
            old(self).spec_buffered_now() <= old(self).spec_buffered_max(),
        ensures
            final(self).wf(),
            final(self).spec_buffered_max() == old(self).spec_buffered_max(),
            old(self).spec_buffered_max() - old(self).spec_buffered_now() < frame@.len() ==> {
                &&& rejected == Some(frame)
                &&& final(self).frames() == old(self).frames()
                &&& final(self).spec_buffered_now() == old(self).spec_buffered_now()
            },
            old(self).spec_buffered_max() - old(self).spec_buffered_now() >= frame@.len() ==> {
                &&& rejected is None
                &&& final(self).frames() == old(self).frames().push(frame@)
                &&& final(self).spec_buffered_now() == old(self).spec_buffered_now() + frame@.len()
            },
    {
        if self.buffered_max - self.buffered_now < frame.len() {
            return Some(frame);
        }
        let ghost before = self.frames();
        self.buffered_now = self.buffered_now + frame.len();
        let ghost f = frame@;
        self.buffer.push(frame);
        assert(self.frames() =~= before.push(f));
        proof {
            lemma_total_len_push(before, f);
        }
        None
    }

    /// Takes the oldest frame for a channel that is ready, uncounting it.
    pub fn pop_for_ready_channel(&mut self) -> (frame: Option<Vec<u8>>)
        requires
            old(self).wf(),
        ensures
            final(self).wf(),
            final(self).spec_buffered_max() == old(self).spec_buffered_max(),
            old(self).frames().len() == 0 ==> frame is None && final(self).frames() == old(self).frames()
                && final(self).spec_buffered_now() == old(self).spec_buffered_now(),
            old(self).frames().len() > 0 ==> {
                &&& frame matches Some(f) && f@ == old(self).frames()[0]
                &&& final(self).frames() == old(self).frames().skip(1)
                &&& final(self).spec_buffered_now() == old(self).spec_buffered_now() - old(self).frames()[0].len()
            },
    {
        if self.buffer.len() == 0 {
            return None;
        }
        let ghost before = self.frames();
        let frame = self.buffer.remove(0);
        assert(self.frames() =~= before.skip(1));
        self.buffered_now = self.buffered_now - frame.len();
        Some(frame)
    }

    /// Takes the oldest frame for a channel that is busy, leaving the count as it is.
    pub fn pop_for_busy_channel(&mut self) -> (frame: Option<Vec<u8>>)
        requires
            old(self).wf(),
        ensures
            final(self).wf(),
            final(self).spec_buffered_max() == old(self).spec_buffered_max(),
            final(self).spec_buffered_now() == old(self).spec_buffered_now(),
            old(self).frames().len() == 0 ==> frame is None && final(self).frames() == old(self).frames(),
            old(self).frames().len() > 0 ==> {
                &&& frame matches Some(f) && f@ == old(self).frames()[0]
                &&& final(self).frames() == old(self).frames().skip(1)
            },
    {
        if self.buffer.len() == 0 {
            return None;
        }
        let ghost before = self.frames();
        let frame = self.buffer.remove(0);
        assert(self.frames() =~= before.skip(1));
        Some(frame)
    }

    /// Puts back a frame the channel did not take, at the front, counting it again.
    pub fn push_front(&mut self, frame: Vec<u8>)
        requires
            old(self).wf(),
            old(self).spec_buffered_now() + frame@.len() <= usize::MAX,
        ensures
            final(self).wf(),
            final(self).spec_buffered_max() == old(self).spec_buffered_max(),
            final(self).frames() == seq![frame@] + old(self).frames(),
            final(self).spec_buffered_now() == old(self).spec_buffered_now() + frame@.len(),
    {
        let ghost before = self.frames();
        let ghost f = frame@;
        self.buffered_now = self.buffered_now + frame.len();
        self.buffer.insert(0, frame);
        assert(self.frames() =~= seq![f] + before);
        assert((seq![f] + before).skip(1) =~= before);
    }
}

} // verus!
