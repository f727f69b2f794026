//! Frames and frame sequences. A frame is a rectangular grid of pixels that
//! share one pixel encoding; a sequence is a non-empty list of frames of one
//! size and encoding. Neither changes once it is built.

use crate::pixel::{has_alpha, Color, Pixel};
use vstd::prelude::*;

verus! {

/// The width of a grid: the length of its first row, zero without rows.
pub open spec fn grid_width(grid: Seq<Seq<Color>>) -> nat {
    if grid.len() == 0 {
        0
    } else {
        grid[0].len()
    }
}

/// Whether every row of the grid has the grid's width.
pub open spec fn is_rectangular(grid: Seq<Seq<Color>>) -> bool {
    forall|r: int| 0 <= r < grid.len() ==> (#[trigger] grid[r]).len() == grid_width(grid)
}

/// The pixel encoding of a grid: whether its first pixel carries alpha, or
/// nothing where the grid holds no pixel.
pub open spec fn pixel_encoding(grid: Seq<Seq<Color>>) -> Option<bool> {
    if grid.len() > 0 && grid[0].len() > 0 {
        Some(has_alpha(grid[0][0]))
    } else {
        None
    }
}

/// Whether all pixels of the grid share the grid's pixel encoding.
pub open spec fn is_uniform(grid: Seq<Seq<Color>>) -> bool {
    forall|r: int, c: int|
        0 <= r < grid.len() && 0 <= c < grid[r].len() ==> pixel_encoding(grid) == Some(
            has_alpha(#[trigger] grid[r][c]),
        )
}

/// Whether the grid can be a frame: rectangular, with one pixel encoding.
pub open spec fn is_frame(grid: Seq<Seq<Color>>) -> bool {
    is_rectangular(grid) && is_uniform(grid)
}

/// The colors of a row of pixels.
pub open spec fn lane_colors(lane: Seq<Pixel>) -> Seq<Color> {
    lane.map_values(|p: Pixel| p@)
}

/// The colors of rows of pixels.
pub open spec fn grid_of(lanes: Seq<Vec<Pixel>>) -> Seq<Seq<Color>> {
    lanes.map_values(|lane: Vec<Pixel>| lane_colors(lane@))
}

/// One still image: rows of pixels, top row first.
#[derive(Debug)]
pub struct Frame {
    lanes: Vec<Vec<Pixel>>,
}

impl View for Frame {
    type V = Seq<Seq<Color>>;

    closed spec fn view(&self) -> Seq<Seq<Color>> {
        grid_of(self.lanes@)
    }
}

impl Frame {
    /// Every frame is well formed: its grid is rectangular and uniform.
    #[verifier::type_invariant]
    pub open spec fn wf(&self) -> bool {
        is_frame(self@)
    }

    /// Builds a frame from its rows. The rows are refused unless they all
    /// have the same length and all pixels share one encoding.
    pub fn new(lanes: Vec<Vec<Pixel>>) -> (frame: Option<Frame>)
        ensures
            frame is Some <==> is_frame(grid_of(lanes@)),
            frame matches Some(f) ==> f@ == grid_of(lanes@),
    {
        let ghost grid = grid_of(lanes@);
        let height = lanes.len();
        if height == 0 {
            return Some(Frame { lanes });
        }
        let width = lanes[0].len();
        let mut alpha: Option<bool> = None;
        if width > 0 {
            alpha = Some(is_rgba(lanes[0][0].color()));
        }
        let mut r: usize = 0;
        while r < height
            invariant
                r <= height,
                height == lanes@.len(),
                grid == grid_of(lanes@),
                width == grid_width(grid),
                alpha == pixel_encoding(grid),
                forall|i: int| 0 <= i < r ==> (#[trigger] grid[i]).len() == width,
                forall|i: int, c: int|
                    0 <= i < r && 0 <= c < grid[i].len() ==> alpha == Some(
                        has_alpha(#[trigger] grid[i][c]),
                    ),
            decreases height - r,
        {
            let lane = &lanes[r];
            assert(grid[r as int] == lane_colors(lane@));
            if lane.len() != width {
                return None;
            }
            let mut c: usize = 0;
            while c < width
                invariant
                    c <= width,
                    r < height,
                    height == grid.len(),
                    grid == grid_of(lanes@),
                    width == lane@.len(),
                    alpha == pixel_encoding(grid),
                    grid[r as int] == lane_colors(lane@),
                    forall|j: int|
                        0 <= j < c ==> alpha == Some(has_alpha(#[trigger] grid[r as int][j])),
                decreases width - c,
            {
                let here = is_rgba(lane[c].color());
                assert(grid[r as int][c as int] == lane@[c as int]@);
                if alpha != Some(here) {
                    return None;
                }
                c += 1;
            }
            r += 1;
        }
        Some(Frame { lanes })
    }

    /// The number of rows.
    pub fn height(&self) -> (height: usize)
        ensures
            height == self@.len(),
    {
        self.lanes.len()
    }

    /// The number of pixels in each row.
    pub fn width(&self) -> (width: usize)
        ensures
            width == grid_width(self@),
    {
        if self.lanes.len() == 0 {
            0
        } else {
            self.lanes[0].len()
        }
    }

    /// The pixels of one row, left to right.
    pub fn lane(&self, row: usize) -> (lane: &Vec<Pixel>)
        requires
            row < self@.len(),
        ensures
            lane_colors(lane@) == self@[row as int],
    {
        &self.lanes[row]
    }

    /// Whether the frame's pixels carry alpha; nothing for an empty frame.
    pub fn encoding(&self) -> (alpha: Option<bool>)
        ensures
            alpha == pixel_encoding(self@),
    {
        if self.lanes.len() > 0 && self.lanes[0].len() > 0 {
            Some(is_rgba(self.lanes[0][0].color()))
        } else {
            None
        }
    }
}

fn is_rgba(color: Color) -> (alpha: bool)
    ensures
        alpha == has_alpha(color),
{
    match color {
        Color::Rgb(_, _, _) => false,
        Color::Rgba(_, _, _, _) => true,
    }
}

} // verus!
