//! The wire protocol: one text command per pixel,
//! `PX <x> <y> <hex color>` and a line feed.
//!
//! A send walks the rows of a frame in a freshly drawn random order and the
//! pixels of each row from left to right. What goes out is modelled as a
//! sequence of commands; the bytes are the texts of those commands, one
//! after the other.

use crate::ascii::{LINE_FEED, SPACE, UPPER_P, UPPER_X};
use crate::decimal::{decimal_digits, encode_dec};
use crate::frame::{grid_width, is_rectangular, lane_colors, Frame};
use crate::order::{is_row_order, lemma_row_order_covers, random_row_order};
use crate::pixel::{hex_text, Color, Pixel};
use vstd::prelude::*;

verus! {

/// One command of the protocol: the pixel at `(x, y)` on the canvas takes
/// the color `color`.
pub struct PixelCommand {
    pub x: nat,
    pub y: nat,
    pub color: Color,
}

/// The bytes of one command: `PX`, the two coordinates in decimal and the
/// color in hexadecimal, separated by single spaces, then a line feed.
pub open spec fn command_text(cmd: PixelCommand) -> Seq<u8> {
    seq![UPPER_P, UPPER_X, SPACE] + decimal_digits(cmd.x) + seq![SPACE] + decimal_digits(cmd.y)
        + seq![SPACE] + hex_text(cmd.color) + seq![LINE_FEED]
}

/// The commands of one row, left to right: the pixel in column `c` of the
/// row goes to `(c + x_offset, y)`.
pub open spec fn lane_commands(lane: Seq<Color>, y: nat, x_offset: nat) -> Seq<PixelCommand> {
    Seq::new(lane.len(), |c: int| PixelCommand { x: (c + x_offset) as nat, y, color: lane[c] })
}

/// The commands of a frame whose rows are sent in the order `rows`: row `r`
/// of the grid goes to the canvas row `r + y_offset`.
pub open spec fn frame_commands(
    grid: Seq<Seq<Color>>,
    rows: Seq<usize>,
    x_offset: nat,
    y_offset: nat,
) -> Seq<PixelCommand>
    decreases rows.len(),
{
    if rows.len() == 0 {
        Seq::empty()
    } else {
        frame_commands(grid, rows.drop_last(), x_offset, y_offset) + lane_commands(
            grid[rows.last() as int],
            (rows.last() + y_offset) as nat,
            x_offset,
        )
    }
}

/// The bytes of a sequence of commands: their texts, one after the other.
pub open spec fn wire_text(cmds: Seq<PixelCommand>) -> Seq<u8>
    decreases cmds.len(),
{
    if cmds.len() == 0 {
        Seq::empty()
    } else {
        wire_text(cmds.drop_last()) + command_text(cmds.last())
    }
}

/// Whether every entry of `rows` names a row of a frame with `height` rows.
pub open spec fn rows_in_range(rows: Seq<usize>, height: nat) -> bool {
    forall|k: int| 0 <= k < rows.len() ==> #[trigger] rows[k] < height
}

/// Whether every canvas coordinate of the frame, moved by the offsets, is
/// still a `usize`. A frame without pixels fits at any offset.
pub open spec fn offsets_fit(grid: Seq<Seq<Color>>, x_offset: nat, y_offset: nat) -> bool {
    grid.len() == 0 || grid_width(grid) == 0 || (grid_width(grid) - 1 + x_offset <= usize::MAX
        && grid.len() - 1 + y_offset <= usize::MAX)
}

/// Why a frame could not be encoded.
#[derive(Clone, Copy, Debug, PartialEq, Eq, Structural)]
pub enum EncodeError {
    /// A coordinate of the frame, moved by the offsets, exceeds `usize`.
    OffsetOverflow,
    /// The row list names a row that the frame does not have.
    RowOutOfRange,
}

/// Appends the text of one command to `buf`.
fn write_command(buf: &mut Vec<u8>, x: usize, y: usize, pixel: &Pixel)
    ensures
        final(buf)@ == old(buf)@ + command_text(
            PixelCommand { x: x as nat, y: y as nat, color: pixel@ },
        ),
{
    buf.push(UPPER_P);
    buf.push(UPPER_X);
    buf.push(SPACE);
    let mut x_str = encode_dec(x);
    buf.append(&mut x_str);
    buf.push(SPACE);
    let mut y_str = encode_dec(y);
    buf.append(&mut y_str);
    buf.push(SPACE);
    buf.extend_from_slice(pixel.hex_repr().as_slice());
    buf.push(LINE_FEED);
    assert(buf@ =~= old(buf)@ + command_text(
        PixelCommand { x: x as nat, y: y as nat, color: pixel@ },
    ));
}

/// Appending one command to a sequence appends its text to the bytes.
pub proof fn lemma_wire_text_push(cmds: Seq<PixelCommand>, cmd: PixelCommand)
    ensures
        wire_text(cmds.push(cmd)) == wire_text(cmds) + command_text(cmd),
{
    assert(cmds.push(cmd).drop_last() =~= cmds);
}

/// Whether the frame can be sent with its pixels moved by `offset` (x first,
/// then y): whether every canvas coordinate that a send would write fits in
/// `usize`.
pub fn fits_at(frame: &Frame, offset: (usize, usize)) -> (fits: bool)
    ensures
        fits == offsets_fit(frame@, offset.0 as nat, offset.1 as nat),
{
    let height = frame.height();
    let width = frame.width();
    height == 0 || width == 0 || (offset.0 <= usize::MAX - (width - 1) && offset.1 <= usize::MAX
        - (height - 1))
}

/// Encodes a frame whose rows are sent in the order `rows`, each row from
/// left to right, with every pixel moved by `offset` (x first, then y).
///
/// The result holds the bytes to write to the connection before its single
/// flush. The frame is refused where a moved coordinate would not fit in
/// `usize`, and the row list where it names a row that the frame lacks.
pub fn encode_frame(frame: &Frame, rows: &Vec<usize>, offset: (usize, usize)) -> (res: Result<
    Vec<u8>,
    EncodeError,
>)
    ensures
        match res {
            Ok(bytes) => {
                &&& offsets_fit(frame@, offset.0 as nat, offset.1 as nat)
                &&& rows_in_range(rows@, frame@.len())
                &&& bytes@ == wire_text(
                    frame_commands(frame@, rows@, offset.0 as nat, offset.1 as nat),
                )
            },
            Err(EncodeError::OffsetOverflow) => !offsets_fit(
                frame@,
                offset.0 as nat,
                offset.1 as nat,
            ),
            Err(EncodeError::RowOutOfRange) => {
                &&& offsets_fit(frame@, offset.0 as nat, offset.1 as nat)
                &&& !rows_in_range(rows@, frame@.len())
            },
        },
{
    let x_offset = offset.0;
    let y_offset = offset.1;
    let height = frame.height();
    let width = frame.width();
    if !fits_at(frame, offset) {
        return Err(EncodeError::OffsetOverflow);
    }
    proof {
        use_type_invariant(frame);
    }
    let ghost grid = frame@;
    let ghost xo = x_offset as nat;
    let ghost yo = y_offset as nat;
    let mut buf: Vec<u8> = Vec::new();
    let mut k: usize = 0;
    while k < rows.len()
        invariant
            k <= rows.len(),
            grid == frame@,
            is_rectangular(grid),
            height == grid.len(),
            width == grid_width(grid),
            xo == x_offset == offset.0,
            yo == y_offset == offset.1,
            offsets_fit(grid, xo, yo),
            rows_in_range(rows@.take(k as int), height as nat),
            buf@ == wire_text(frame_commands(grid, rows@.take(k as int), xo, yo)),
        decreases rows.len() - k,
    {
        let y_pos = rows[k];
        if y_pos >= height {
            return Err(EncodeError::RowOutOfRange);
        }
        let lane = frame.lane(y_pos);
        let ghost done = frame_commands(grid, rows@.take(k as int), xo, yo);
        let ghost row = lane_commands(grid[y_pos as int], (y_pos + yo) as nat, xo);
        let mut x_pos: usize = 0;
        while x_pos < lane.len()
            invariant
                x_pos <= lane.len(),
                lane@.len() == width,
                width > 0 ==> width - 1 + x_offset <= usize::MAX,
                width > 0 ==> y_pos + y_offset <= usize::MAX,
                y_pos < grid.len(),
                lane_colors(lane@) == grid[y_pos as int],
                row == lane_commands(grid[y_pos as int], (y_pos + yo) as nat, xo),
                xo == x_offset,
                yo == y_offset,
                buf@ == wire_text(done + row.take(x_pos as int)),
            decreases lane.len() - x_pos,
        {
            let pixel = &lane[x_pos];
            write_command(&mut buf, x_pos + x_offset, y_pos + y_offset, pixel);
            proof {
                let sent = done + row.take(x_pos as int);
                assert(row[x_pos as int] == PixelCommand {
                    x: (x_pos + x_offset) as nat,
                    y: (y_pos + y_offset) as nat,
                    color: pixel@,
                });
                assert(done + row.take(x_pos + 1) =~= sent.push(row[x_pos as int]));
                lemma_wire_text_push(sent, row[x_pos as int]);
            }
            x_pos += 1;
        }
        proof {
            let next = rows@.take(k + 1);
            assert(row.take(x_pos as int) =~= row);
            assert(next.drop_last() =~= rows@.take(k as int));
        }
        k += 1;
    }
    assert(rows@.take(k as int) =~= rows@);
    Ok(buf)
}

/// Encodes one send of a frame: draws a fresh random row order and encodes
/// the frame in that order, each row from left to right, with every pixel
/// moved by `offset` (x first, then y).
///
/// The result holds the bytes to write to the connection before its single
/// flush. Which order was drawn is not known; that it was a row order of the
/// frame is.
pub fn release_the_kraken(frame: &Frame, offset: (usize, usize)) -> (res: Result<
    Vec<u8>,
    EncodeError,
>)
    ensures
        match res {
            Ok(bytes) => {
                &&& offsets_fit(frame@, offset.0 as nat, offset.1 as nat)
                &&& exists|rows: Seq<usize>|
                    #[trigger] is_row_order(rows, frame@.len()) && bytes@ == wire_text(
                        frame_commands(frame@, rows, offset.0 as nat, offset.1 as nat),
                    )
            },
            Err(e) => {
                &&& e == EncodeError::OffsetOverflow
                &&& !offsets_fit(frame@, offset.0 as nat, offset.1 as nat)
            },
        },
{
    // choose random y-lane order
    let y_idxs = random_row_order(frame.height());
    proof {
        lemma_row_order_covers(y_idxs@, frame@.len());
    }
    encode_frame(frame, &y_idxs, offset)
}

} // verus!
