//! The animator: the single writer of the current frame. It advances a
//! cyclic frame index once per tick, and may hold back the first tick until
//! a given instant.

use crate::sequence::FrameSequence;
use vstd::arithmetic::div_mod::{lemma_add_mod_noop, lemma_small_mod};
use vstd::prelude::*;

verus! {

/// The index that follows `index` in a sequence of `len` frames: one more,
/// and back to zero after the last.
pub open spec fn next_index(index: nat, len: nat) -> nat {
    (index + 1) % len
}

/// The index selected after `ticks` ticks, starting from the first frame.
pub open spec fn index_after(ticks: nat, len: nat) -> nat
    decreases ticks,
{
    if ticks == 0 {
        0
    } else {
        next_index(index_after((ticks - 1) as nat, len), len)
    }
}

/// Stepping a remainder forward gives the remainder of the next number.
proof fn lemma_next_index_mod(ticks: nat, len: nat)
    requires
        len > 0,
    ensures
        next_index(ticks % len, len) == (ticks + 1) % len,
{
    lemma_add_mod_noop(ticks as int, 1, len as int);
    if len == 1 {
    } else {
        lemma_small_mod(1, len);
    }
}

/// For every number of ticks, the frame selected is the one at
/// `ticks mod length`.
pub proof fn lemma_cyclic_indexing(ticks: nat, len: nat)
    requires
        len > 0,
    ensures
        index_after(ticks, len) == ticks % len,
        index_after(ticks, len) < len,
    decreases ticks,
{
    if ticks == 0 {
        lemma_small_mod(0, len);
    } else {
        lemma_cyclic_indexing((ticks - 1) as nat, len);
        lemma_next_index_mod((ticks - 1) as nat, len);
    }
}

/// The playback position: which frame of a sequence is current, and how
/// many ticks led there.
pub struct Animator {
    len: usize,
    index: usize,
    ticks: Ghost<nat>,
}

impl Animator {
    #[verifier::type_invariant]
    spec fn in_step(self) -> bool {
        &&& self.len > 0
        &&& self.index == self.ticks@ % (self.len as nat)
    }

    /// The number of frames that the animator cycles through.
    pub closed spec fn length(&self) -> nat {
        self.len as nat
    }

    /// The number of ticks so far.
    pub closed spec fn ticks(&self) -> nat {
        self.ticks@
    }

    /// An animator at the first frame of `frames`, before any tick.
    pub fn new(frames: &FrameSequence) -> (animator: Animator)
        ensures
            animator.length() == frames@.len(),
            animator.ticks() == 0,
    {
        let len = frames.len();
        proof {
            lemma_small_mod(0, len as nat);
        }
        Animator { len, index: 0, ticks: Ghost(0) }
    }

    /// The index of the current frame.
    pub fn current(&self) -> (index: usize)
        ensures
            index == self.ticks() % self.length(),
            index == index_after(self.ticks(), self.length()),
            index < self.length(),
    {
        proof {
            use_type_invariant(self);
            lemma_cyclic_indexing(self.ticks@, self.len as nat);
        }
        self.index
    }

    /// Advances to the next frame, wrapping around after the last, and
    /// returns the index to publish.
    pub fn tick(&mut self) -> (index: usize)
        ensures
            final(self).length() == old(self).length(),
            final(self).ticks() == old(self).ticks() + 1,
            index == final(self).ticks() % final(self).length(),
            index == next_index(old(self).ticks() % old(self).length(), old(self).length()),
            index < final(self).length(),
    {
        proof {
            use_type_invariant(&*self);
            lemma_next_index_mod(self.ticks@, self.len as nat);
        }
        let len = self.len;
        let mut frame_ctr = self.index;
        frame_ctr += 1;
        frame_ctr %= len;
        let ghost ticks = self.ticks@ + 1;
        *self = Animator { len, index: frame_ctr, ticks: Ghost(ticks) };
        frame_ctr
    }
}

} // verus!
