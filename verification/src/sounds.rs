//! Feedback sounds: the queue of tones waiting to be played.
//!
//! Audio output is an outside concern; it drains the queue and plays each
//! buffered tone.  Queueing never blocks and never fails.

use vstd::prelude::*;
use vstd::slice::slice_to_vec;

verus! {

/// The queue of tone buffers waiting for the audio output.
pub struct SoundPlayer {
    pending: Vec<Vec<u8>>,
}

impl View for SoundPlayer {
    type V = Seq<Seq<u8>>;

    closed spec fn view(&self) -> Seq<Seq<u8>> {
        Seq::new(self.pending@.len(), |i: int| self.pending@[i]@)
    }
}

impl SoundPlayer {
    /// A player with nothing queued.
    pub fn new() -> (r: Self)
        ensures
            r@ == Seq::<Seq<u8>>::empty(),
    {
        let r = SoundPlayer { pending: Vec::new() };
        proof {
            assert(r@ =~= Seq::<Seq<u8>>::empty());
        }
        r
    }

    /// Queue a tone for playback.
    pub fn play(&mut self, wav_bytes: &[u8])
        ensures
            final(self)@ == old(self)@.push(wav_bytes@),
    {
        self.pending.push(slice_to_vec(wav_bytes));
        proof {
            assert(final(self)@ =~= old(self)@.push(wav_bytes@));
        }
    }

    /// Hand every queued tone to the audio output, leaving the queue empty.
    pub fn take_pending(&mut self) -> (r: Vec<Vec<u8>>)
        ensures
            Seq::new(r@.len(), |i: int| r@[i]@) == old(self)@,
            final(self)@ == Seq::<Seq<u8>>::empty(),
    {
        let mut drained: Vec<Vec<u8>> = Vec::new();
        core::mem::swap(&mut drained, &mut self.pending);
        proof {
            assert(final(self)@ =~= Seq::<Seq<u8>>::empty());
        }
        drained
    }
}

} // verus!
