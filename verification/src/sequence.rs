//! The frame sequence: the whole animation, loaded once and never changed.

use crate::frame::{grid_width, is_frame, pixel_encoding, Frame};
use crate::pixel::Color;
use vstd::prelude::*;

verus! {

/// Whether two grids have the same height, width and pixel encoding.
pub open spec fn same_format(a: Seq<Seq<Color>>, b: Seq<Seq<Color>>) -> bool {
    &&& a.len() == b.len()
    &&& grid_width(a) == grid_width(b)
    &&& pixel_encoding(a) == pixel_encoding(b)
}

/// Whether the grids can be an animation: at least one frame, and every
/// frame in the format of the first.
pub open spec fn is_sequence(grids: Seq<Seq<Seq<Color>>>) -> bool {
    &&& grids.len() > 0
    &&& forall|i: int|
        0 <= i < grids.len() ==> is_frame(#[trigger] grids[i]) && same_format(grids[0], grids[i])
}

/// The grids of a list of frames.
pub open spec fn grids_of(frames: Seq<Frame>) -> Seq<Seq<Seq<Color>>> {
    frames.map_values(|f: Frame| f@)
}

/// Why a list of frames is no animation.
#[derive(Clone, Copy, Debug, PartialEq, Eq, Structural)]
pub enum SequenceError {
    /// The list holds no frame.
    Empty,
    /// The frame at `index` is the first whose height, width or pixel
    /// encoding differs from that of the first frame.
    FormatMismatch { index: usize },
}

/// An ordered, non-empty list of frames of one format. Its indices wrap
/// around: the frame after the last is the first.
#[derive(Debug)]
pub struct FrameSequence {
    frames: Vec<Frame>,
}

impl View for FrameSequence {
    type V = Seq<Seq<Seq<Color>>>;

    closed spec fn view(&self) -> Seq<Seq<Seq<Color>>> {
        grids_of(self.frames@)
    }
}

fn same_format_exec(a: &Frame, b: &Frame) -> (same: bool)
    ensures
        same == same_format(a@, b@),
{
    a.height() == b.height() && a.width() == b.width() && a.encoding() == b.encoding()
}

impl FrameSequence {
    /// Every sequence is well formed: its grids form an animation.
    #[verifier::type_invariant]
    pub open spec fn wf(&self) -> bool {
        is_sequence(self@)
    }

    /// Takes ownership of the frames of an animation. An empty list is
    /// refused, and so is one with a frame that is not in the format of the
    /// first.
    pub fn new(frames: Vec<Frame>) -> (res: Result<FrameSequence, SequenceError>)
        ensures
            res is Ok <==> is_sequence(grids_of(frames@)),
            match res {
                Ok(seq) => seq@ == grids_of(frames@),
                Err(SequenceError::Empty) => frames@.len() == 0,
                Err(SequenceError::FormatMismatch { index }) => {
                    &&& 0 < index < frames@.len()
                    &&& !same_format(frames@[0]@, frames@[index as int]@)
                    &&& forall|j: int|
                        0 <= j < index ==> same_format(frames@[0]@, (#[trigger] frames@[j])@)
                },
            },
    {
        let ghost grids = grids_of(frames@);
        if frames.len() == 0 {
            return Err(SequenceError::Empty);
        }
        let first = &frames[0];
        proof {
            use_type_invariant(first);
        }
        let mut i: usize = 1;
        while i < frames.len()
            invariant
                1 <= i <= frames@.len(),
                grids == grids_of(frames@),
                forall|j: int| 0 <= j < i ==> (#[trigger] frames@[j]).wf(),
                forall|j: int| 0 <= j < i ==> same_format(frames@[0]@, (#[trigger] frames@[j])@),
                *first == frames@[0],
            decreases frames.len() - i,
        {
            let frame = &frames[i];
            proof {
                use_type_invariant(frame);
            }
            if !same_format_exec(first, frame) {
                assert(grids[i as int] == frames@[i as int]@);
                return Err(SequenceError::FormatMismatch { index: i });
            }
            i += 1;
        }
        Ok(FrameSequence { frames })
    }

    /// The number of frames, never zero.
    pub fn len(&self) -> (len: usize)
        ensures
            len == self@.len(),
            len > 0,
    {
        proof {
            use_type_invariant(self);
        }
        self.frames.len()
    }

    /// The frame at `index`, if the sequence has one there.
    pub fn frame(&self, index: usize) -> (frame: Option<&Frame>)
        ensures
            frame is Some <==> index < self@.len(),
            frame matches Some(f) ==> f@ == self@[index as int],
    {
        if index < self.frames.len() {
            let f = &self.frames[index];
            Some(f)
        } else {
            None
        }
    }
}

} // verus!
