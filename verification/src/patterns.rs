//! Two classic patterns and what the rule makes of them: the block, which
//! stands still, and the blinker, which turns a quarter with every
//! generation.

use vstd::prelude::*;
use vstd::arithmetic::div_mod::{
    lemma_mod_add_multiples_vanish,
    lemma_mod_sub_multiples_vanish,
    lemma_small_mod,
};
use crate::grid::{lemma_next_wf, GridView, ALIVE, DEAD};
use crate::laws::{lemma_equal_by_cells, lemma_next_at};

verus! {

/// The state of a cell that is alive or not.
pub open spec fn state_of(live: bool) -> u8 {
    if live {
        ALIVE
    } else {
        DEAD
    }
}

/// A coordinate at most one step outside `0..side`, folded into it.
pub open spec fn folded(x: int, side: int) -> int {
    if x < 0 {
        x + side
    } else if x >= side {
        x - side
    } else {
        x
    }
}

/// A read at most one step outside the grid: on a grid that wraps it is
/// the read of the folded cell.
pub proof fn lemma_read_nearby(g: GridView, x: int, y: int)
    requires
        g.wf(),
        -1 <= x <= g.width,
        -1 <= y <= g.height,
    ensures
        g.in_range(folded(x, g.width), folded(y, g.height)),
        g.wrap ==> g.at(x, y) == g.at(folded(x, g.width), folded(y, g.height)),
{
    let fx = folded(x, g.width);
    let fy = folded(y, g.height);
    lemma_small_mod(fx as nat, g.width as nat);
    lemma_small_mod(fy as nat, g.height as nat);
    lemma_mod_add_multiples_vanish(x, g.width);
    lemma_mod_sub_multiples_vanish(x, g.width);
    lemma_mod_add_multiples_vanish(y, g.height);
    lemma_mod_sub_multiples_vanish(y, g.height);
}

/// The eight reads around a cell of the grid, each folded where the grid
/// wraps.
pub proof fn lemma_reads_around(g: GridView, x: int, y: int)
    requires
        g.wf(),
        g.in_range(x, y),
    ensures
        forall|dx: int, dy: int|
            -1 <= dx <= 1 && -1 <= dy <= 1 ==> {
                &&& g.in_range(folded(x + dx, g.width), folded(y + dy, g.height))
                &&& g.wrap ==> #[trigger] g.at(x + dx, y + dy) == g.at(
                    folded(x + dx, g.width),
                    folded(y + dy, g.height),
                )
            },
{
    assert forall|dx: int, dy: int| -1 <= dx <= 1 && -1 <= dy <= 1 implies {
        &&& g.in_range(folded(x + dx, g.width), folded(y + dy, g.height))
        &&& g.wrap ==> #[trigger] g.at(x + dx, y + dy) == g.at(
            folded(x + dx, g.width),
            folded(y + dy, g.height),
        )
    } by {
        lemma_read_nearby(g, x + dx, y + dy);
    }
}

/// Whether `(x, y)` is one of the four cells of the block whose upper left
/// cell is `(bx, by)`.
pub open spec fn in_block(bx: int, by: int, x: int, y: int) -> bool {
    (x == bx || x == bx + 1) && (y == by || y == by + 1)
}

/// Whether the live cells of the grid are exactly the block at `(bx, by)`,
/// all four of them cells of the grid.
pub open spec fn is_block(g: GridView, bx: int, by: int) -> bool {
    &&& g.in_range(bx, by)
    &&& g.in_range(bx + 1, by + 1)
    &&& forall|x: int, y: int|
        g.in_range(x, y) ==> #[trigger] g.at(x, y) == state_of(in_block(bx, by, x, y))
}

/// Every cell of a grid that holds a block and nothing else keeps its
/// state.
proof fn lemma_block_cell(g: GridView, bx: int, by: int, x: int, y: int)
    requires
        g.wf(),
        is_block(g, bx, by),
        g.in_range(x, y),
    ensures
        g.next_cell(x, y) == g.at(x, y),
{
    lemma_reads_around(g, x, y);
    assert(g.at(x - 1, y - 1) == g.at(x + (-1), y + (-1)));
    assert(g.at(x, y - 1) == g.at(x + 0, y + (-1)));
    assert(g.at(x + 1, y - 1) == g.at(x + 1, y + (-1)));
    assert(g.at(x - 1, y) == g.at(x + (-1), y + 0));
    assert(g.at(x + 1, y) == g.at(x + 1, y + 0));
    assert(g.at(x - 1, y + 1) == g.at(x + (-1), y + 1));
    assert(g.at(x, y + 1) == g.at(x + 0, y + 1));
    assert(g.at(x + 1, y + 1) == g.at(x + 1, y + 1));
}

/// The block is stable: a grid of either boundary policy whose live cells
/// are exactly one block is its own next generation.
pub proof fn lemma_block_is_stable(g: GridView, bx: int, by: int)
    requires
        g.wf(),
        is_block(g, bx, by),
    ensures
        g.next() == g,
{
    lemma_next_wf(g);
    assert forall|x: int, y: int| g.in_range(x, y) implies #[trigger] g.next().at(x, y) == g.at(
        x,
        y,
    ) by {
        lemma_next_at(g, x, y);
        lemma_block_cell(g, bx, by, x, y);
    }
    lemma_equal_by_cells(g.next(), g);
}

/// Whether `(x, y)` is one of the three cells of the blinker that lies
/// along the row through its middle cell `(cx, cy)`.
pub open spec fn in_row_blinker(cx: int, cy: int, x: int, y: int) -> bool {
    y == cy && cx - 1 <= x <= cx + 1
}

/// Whether `(x, y)` is one of the three cells of the blinker that stands
/// along the column through its middle cell `(cx, cy)`.
pub open spec fn in_column_blinker(cx: int, cy: int, x: int, y: int) -> bool {
    x == cx && cy - 1 <= y <= cy + 1
}

/// Whether a board that does not wrap has room for both phases of the
/// blinker around `(cx, cy)`: the middle cell and the eight cells around it
/// are cells of the grid.
pub open spec fn has_clearance(g: GridView, cx: int, cy: int) -> bool {
    &&& !g.wrap
    &&& g.in_range(cx - 1, cy - 1)
    &&& g.in_range(cx + 1, cy + 1)
}

/// Whether the live cells of the grid are exactly the blinker along the
/// row through `(cx, cy)`.
pub open spec fn is_row_blinker(g: GridView, cx: int, cy: int) -> bool {
    &&& has_clearance(g, cx, cy)
    &&& forall|x: int, y: int|
        g.in_range(x, y) ==> #[trigger] g.at(x, y) == state_of(in_row_blinker(cx, cy, x, y))
}

/// Whether the live cells of the grid are exactly the blinker along the
/// column through `(cx, cy)`.
pub open spec fn is_column_blinker(g: GridView, cx: int, cy: int) -> bool {
    &&& has_clearance(g, cx, cy)
    &&& forall|x: int, y: int|
        g.in_range(x, y) ==> #[trigger] g.at(x, y) == state_of(in_column_blinker(cx, cy, x, y))
}

/// One generation turns the blinker along a row into the blinker along the
/// column through the same middle cell.
pub proof fn lemma_row_blinker_turns(g: GridView, cx: int, cy: int)
    requires
        g.wf(),
        is_row_blinker(g, cx, cy),
    ensures
        is_column_blinker(g.next(), cx, cy),
{
    lemma_next_wf(g);
    assert forall|x: int, y: int| g.in_range(x, y) implies #[trigger] g.next().at(x, y)
        == state_of(in_column_blinker(cx, cy, x, y)) by {
        lemma_next_at(g, x, y);
    }
}

/// One generation turns the blinker along a column into the blinker along
/// the row through the same middle cell.
pub proof fn lemma_column_blinker_turns(g: GridView, cx: int, cy: int)
    requires
        g.wf(),
        is_column_blinker(g, cx, cy),
    ensures
        is_row_blinker(g.next(), cx, cy),
{
    lemma_next_wf(g);
    assert forall|x: int, y: int| g.in_range(x, y) implies #[trigger] g.next().at(x, y)
        == state_of(in_row_blinker(cx, cy, x, y)) by {
        lemma_next_at(g, x, y);
    }
}

/// The blinker has period two: on a board that does not wrap and leaves it
/// room, two generations bring back the grid that held it.
pub proof fn lemma_blinker_period_two(g: GridView, cx: int, cy: int)
    requires
        g.wf(),
        is_row_blinker(g, cx, cy) || is_column_blinker(g, cx, cy),
    ensures
        g.next().next() == g,
        g.next() != g,
{
    lemma_next_wf(g);
    lemma_next_wf(g.next());
    if is_row_blinker(g, cx, cy) {
        lemma_row_blinker_turns(g, cx, cy);
        lemma_column_blinker_turns(g.next(), cx, cy);
        assert(g.at(cx - 1, cy) == ALIVE);
        assert(g.next().at(cx - 1, cy) == DEAD);
    } else {
        lemma_column_blinker_turns(g, cx, cy);
        lemma_row_blinker_turns(g.next(), cx, cy);
        assert(g.at(cx, cy - 1) == ALIVE);
        assert(g.next().at(cx, cy - 1) == DEAD);
    }
    assert forall|x: int, y: int| g.in_range(x, y) implies #[trigger] g.next().next().at(x, y)
        == g.at(x, y) by {
    }
    lemma_equal_by_cells(g.next().next(), g);
}

} // verus!
