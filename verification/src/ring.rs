//! The cross-thread audio buffer.
//!
//! Capture callbacks append canonical samples; when recording stops the
//! orchestrator takes the whole buffer in one step. `take` returns every
//! sample appended since the last `clear`, in capture order, and leaves the
//! buffer empty — so no utterance is ever partially delivered, and no sample
//! of the next utterance can appear in the previous one. The binary wraps
//! the ring in a mutex; each operation is one critical section.

use vstd::prelude::*;

verus! {

/// A growable buffer of canonical 16-bit mono samples.
pub struct AudioRing {
    samples: Vec<i16>,
}

impl View for AudioRing {
    type V = Seq<i16>;

    closed spec fn view(&self) -> Seq<i16> {
        self.samples@
    }
}

impl AudioRing {
    /// An empty buffer.
    pub fn new() -> (r: AudioRing)
        ensures
            r@ == Seq::<i16>::empty(),
    {
        let samples: Vec<i16> = Vec::new();
        proof {
            assert(samples@ =~= Seq::<i16>::empty());
        }
        AudioRing { samples }
    }

    /// How many samples are buffered.
    pub fn len(&self) -> (r: usize)
        ensures
            r == self@.len(),
    {
        self.samples.len()
    }

    /// Drop everything buffered; recording starts from silence.
    pub fn clear(&mut self)
        ensures
            final(self)@ == Seq::<i16>::empty(),
    {
        self.samples.clear();
    }

    /// Append captured samples in order.
    pub fn append(&mut self, data: &[i16])
        ensures
            final(self)@ == old(self)@ + data@,
    {
        self.samples.extend_from_slice(data);
    }

    /// Take the whole utterance: returns everything appended since the last
    /// clear, in capture order, and leaves the buffer empty.
    pub fn take(&mut self) -> (r: Vec<i16>)
        ensures
            r@ == old(self)@,
            final(self)@ == Seq::<i16>::empty(),
    {
        let mut out: Vec<i16> = Vec::new();
        core::mem::swap(&mut self.samples, &mut out);
        out
    }
}

} // verus!
