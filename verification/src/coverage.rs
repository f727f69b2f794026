//! What one send covers: every pixel of the frame, once, whatever the order
//! in which the rows went out.

use crate::frame::{grid_width, is_rectangular};
use crate::order::{is_row_order, lemma_row_order_covers};
use crate::pixel::Color;
use crate::protocol::{frame_commands, lane_commands, rows_in_range, PixelCommand};
use vstd::prelude::*;
use vstd::seq_lib::*;

verus! {

/// Whether `cmd` draws a pixel of the grid at its place: its coordinates,
/// moved back by the offsets, name a cell of the grid, and it carries the
/// color of that cell.
pub open spec fn is_pixel_of(
    grid: Seq<Seq<Color>>,
    x_offset: nat,
    y_offset: nat,
    cmd: PixelCommand,
) -> bool {
    &&& y_offset <= cmd.y < y_offset + grid.len()
    &&& x_offset <= cmd.x < x_offset + grid[cmd.y - y_offset].len()
    &&& cmd.color == grid[cmd.y - y_offset][cmd.x - x_offset]
}

/// A send of a rectangular frame emits one command per cell for every row
/// that it walks.
pub proof fn lemma_frame_commands_len(
    grid: Seq<Seq<Color>>,
    rows: Seq<usize>,
    x_offset: nat,
    y_offset: nat,
)
    requires
        is_rectangular(grid),
        rows_in_range(rows, grid.len()),
    ensures
        frame_commands(grid, rows, x_offset, y_offset).len() == rows.len() * grid_width(grid),
    decreases rows.len(),
{
    if rows.len() > 0 {
        lemma_frame_commands_len(grid, rows.drop_last(), x_offset, y_offset);
        assert((rows.len() - 1) * grid_width(grid) + grid_width(grid) == rows.len() * grid_width(
            grid,
        )) by (nonlinear_arith);
    }
}

/// In the commands of one row, a command occurs once if it draws a pixel of
/// that row at its place, and not at all otherwise.
pub proof fn lemma_lane_command_count(lane: Seq<Color>, y: nat, x_offset: nat, cmd: PixelCommand)
    ensures
        lane_commands(lane, y, x_offset).to_multiset().count(cmd) == (if cmd.y == y && x_offset
            <= cmd.x < x_offset + lane.len() && cmd.color == lane[cmd.x - x_offset] {
            1nat
        } else {
            0nat
        }),
{
    broadcast use group_to_multiset_ensures;

    let cmds = lane_commands(lane, y, x_offset);
    cmds.lemma_multiset_has_no_duplicates();
    if cmd.y == y && x_offset <= cmd.x < x_offset + lane.len() && cmd.color == lane[cmd.x
        - x_offset] {
        assert(cmds[cmd.x - x_offset] == cmd);
    } else {
        if cmds.contains(cmd) {
            let c = choose|c: int| 0 <= c < cmds.len() && cmds[c] == cmd;
        }
    }
}

/// In the commands of a send, a command that draws a pixel of the frame at
/// its place occurs as often as the pixel's row occurs in the row list, and
/// no other command occurs at all.
pub proof fn lemma_command_count(
    grid: Seq<Seq<Color>>,
    rows: Seq<usize>,
    x_offset: nat,
    y_offset: nat,
    cmd: PixelCommand,
)
    requires
        rows_in_range(rows, grid.len()),
        grid.len() <= usize::MAX,
    ensures
        frame_commands(grid, rows, x_offset, y_offset).to_multiset().count(cmd) == (if is_pixel_of(
            grid,
            x_offset,
            y_offset,
            cmd,
        ) {
            rows.to_multiset().count((cmd.y - y_offset) as usize)
        } else {
            0nat
        }),
    decreases rows.len(),
{
    broadcast use group_to_multiset_ensures;
    broadcast use vstd::multiset::group_multiset_axioms;

    if rows.len() > 0 {
        let head = rows.drop_last();
        let last = rows.last();
        lemma_command_count(grid, head, x_offset, y_offset, cmd);
        let before = frame_commands(grid, head, x_offset, y_offset);
        let lane = lane_commands(grid[last as int], (last + y_offset) as nat, x_offset);
        lemma_multiset_commutative(before, lane);
        lemma_lane_command_count(grid[last as int], (last + y_offset) as nat, x_offset, cmd);
        assert(rows =~= head.push(last));
    }
}

/// Two sends of one frame may walk its rows in different orders; the
/// commands they emit are the same, each as often in one send as in the
/// other.
pub proof fn lemma_row_order_irrelevant(
    grid: Seq<Seq<Color>>,
    rows_a: Seq<usize>,
    rows_b: Seq<usize>,
    x_offset: nat,
    y_offset: nat,
)
    requires
        is_row_order(rows_a, grid.len()),
        is_row_order(rows_b, grid.len()),
        grid.len() <= usize::MAX,
    ensures
        frame_commands(grid, rows_a, x_offset, y_offset).to_multiset() == frame_commands(
            grid,
            rows_b,
            x_offset,
            y_offset,
        ).to_multiset(),
{
    lemma_row_order_covers(rows_a, grid.len());
    lemma_row_order_covers(rows_b, grid.len());
    let a = frame_commands(grid, rows_a, x_offset, y_offset).to_multiset();
    let b = frame_commands(grid, rows_b, x_offset, y_offset).to_multiset();
    assert forall|cmd: PixelCommand| a.count(cmd) == b.count(cmd) by {
        lemma_command_count(grid, rows_a, x_offset, y_offset, cmd);
        lemma_command_count(grid, rows_b, x_offset, y_offset, cmd);
    }
}

/// One send of a frame of `R` rows and `C` columns emits exactly `R * C`
/// commands. Every command draws a pixel of the frame at its place, every
/// pixel of the frame is drawn, and no canvas coordinate is drawn twice:
/// the coordinates emitted are `(c + x_offset, r + y_offset)` for each cell
/// `(r, c)`, each exactly once, in whatever order the rows went out.
pub proof fn lemma_pixel_coverage(
    grid: Seq<Seq<Color>>,
    rows: Seq<usize>,
    x_offset: nat,
    y_offset: nat,
)
    requires
        is_rectangular(grid),
        is_row_order(rows, grid.len()),
        grid.len() <= usize::MAX,
    ensures
        ({
            let cmds = frame_commands(grid, rows, x_offset, y_offset);
            &&& cmds.len() == grid.len() * grid_width(grid)
            &&& forall|k: int|
                0 <= k < cmds.len() ==> is_pixel_of(grid, x_offset, y_offset, #[trigger] cmds[k])
            &&& forall|r: int, c: int|
                0 <= r < grid.len() && 0 <= c < grid_width(grid) ==> cmds.contains(
                    #[trigger] cell_command(grid, r, c, x_offset, y_offset),
                )
            &&& forall|i: int, j: int|
                0 <= i < j < cmds.len() ==> (#[trigger] cmds[i]).x != (#[trigger] cmds[j]).x
                    || cmds[i].y != cmds[j].y
        }),
{
    broadcast use group_to_multiset_ensures;

    lemma_row_order_covers(rows, grid.len());
    lemma_frame_commands_len(grid, rows, x_offset, y_offset);
    let cmds = frame_commands(grid, rows, x_offset, y_offset);
    assert forall|cmd: PixelCommand| #[trigger]
        cmds.to_multiset().count(cmd) == (if is_pixel_of(grid, x_offset, y_offset, cmd) {
            1nat
        } else {
            0nat
        }) by {
        lemma_command_count(grid, rows, x_offset, y_offset, cmd);
    }
    assert forall|k: int| 0 <= k < cmds.len() implies is_pixel_of(
        grid,
        x_offset,
        y_offset,
        #[trigger] cmds[k],
    ) by {
        assert(cmds.to_multiset().count(cmds[k]) > 0);
    }
    assert forall|r: int, c: int|
        0 <= r < grid.len() && 0 <= c < grid_width(grid) implies cmds.contains(
        #[trigger] cell_command(grid, r, c, x_offset, y_offset),
    ) by {
        let cmd = cell_command(grid, r, c, x_offset, y_offset);
        assert(cmds.to_multiset().count(cmd) > 0);
    }
    // Two commands for one coordinate would carry one color, and so be one
    // command twice.
    cmds.lemma_multiset_has_no_duplicates_conv();
}

/// The command that draws the cell in row `r` and column `c` of the grid.
pub open spec fn cell_command(
    grid: Seq<Seq<Color>>,
    r: int,
    c: int,
    x_offset: nat,
    y_offset: nat,
) -> PixelCommand {
    PixelCommand { x: (c + x_offset) as nat, y: (r + y_offset) as nat, color: grid[r][c] }
}

} // verus!
