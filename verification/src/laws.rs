//! What holds of every grid and every simulation: how reads behave at the
//! boundary, the bounds of a neighbour count, the rule cell by cell, and
//! what a run does to the recording.

use vstd::prelude::*;
use vstd::arithmetic::div_mod::{lemma_mod_add_multiples_vanish, lemma_mod_bound};
use crate::game::GameView;
use crate::grid::{
    lemma_at_binary,
    lemma_cell_index,
    lemma_next_wf,
    next_state,
    GridView,
    ALIVE,
    DEAD,
};

verus! {

/// On a grid that wraps, a read repeats with the period of the width along
/// a row and with the period of the height along a column.
pub proof fn lemma_wrap_is_periodic(g: GridView, x: int, y: int)
    requires
        g.wf(),
        g.wrap,
    ensures
        g.at(x, y) == g.at(x + g.width, y),
        g.at(x, y) == g.at(x, y + g.height),
{
    lemma_mod_add_multiples_vanish(x, g.width);
    lemma_mod_add_multiples_vanish(y, g.height);
}

/// On a grid that does not wrap, every read outside the grid is dead.
pub proof fn lemma_outside_is_dead(g: GridView, x: int, y: int)
    requires
        !g.wrap,
        x < 0 || x >= g.width || y < 0 || y >= g.height,
    ensures
        g.at(x, y) == DEAD,
{
}

/// A neighbour count lies between zero and eight.
pub proof fn lemma_neighbours_bound(g: GridView, x: int, y: int)
    requires
        g.wf(),
    ensures
        0 <= g.neighbours(x, y) <= 8,
{
    lemma_at_binary(g, x - 1, y - 1);
    lemma_at_binary(g, x, y - 1);
    lemma_at_binary(g, x + 1, y - 1);
    lemma_at_binary(g, x - 1, y);
    lemma_at_binary(g, x + 1, y);
    lemma_at_binary(g, x - 1, y + 1);
    lemma_at_binary(g, x, y + 1);
    lemma_at_binary(g, x + 1, y + 1);
}

/// A cell of the grid is the cell of the buffer at its row-major position.
pub proof fn lemma_at_in_range(g: GridView, x: int, y: int)
    requires
        g.wf(),
        g.in_range(x, y),
    ensures
        0 <= y * g.width + x < g.cells.len(),
        g.at(x, y) == g.cells[y * g.width + x],
{
    lemma_cell_index(x, y, g.width, g.height);
    vstd::arithmetic::div_mod::lemma_small_mod(x as nat, g.width as nat);
    vstd::arithmetic::div_mod::lemma_small_mod(y as nat, g.height as nat);
}

/// A write is read back at the place it was made, and leaves every other
/// cell of the grid as it was.
pub proof fn lemma_set_then_at(g: GridView, x: int, y: int, value: u8, u: int, v: int)
    requires
        g.wf(),
        g.in_range(x, y),
        g.in_range(u, v),
    ensures
        g.set(x, y, value).at(u, v) == if u == x && v == y {
            value
        } else {
            g.at(u, v)
        },
{
    lemma_at_in_range(g, x, y);
    lemma_at_in_range(g, u, v);
    lemma_cell_index(x, y, g.width, g.height);
    lemma_cell_index(u, v, g.width, g.height);
    vstd::arithmetic::div_mod::lemma_small_mod(x as nat, g.width as nat);
    vstd::arithmetic::div_mod::lemma_small_mod(y as nat, g.height as nat);
    vstd::arithmetic::div_mod::lemma_small_mod(u as nat, g.width as nat);
    vstd::arithmetic::div_mod::lemma_small_mod(v as nat, g.height as nat);
}

/// After one generation every cell of the grid holds what the rule makes
/// of its state and its neighbour count in the generation before.
pub proof fn lemma_next_at(g: GridView, x: int, y: int)
    requires
        g.wf(),
        g.in_range(x, y),
    ensures
        g.next().at(x, y) == next_state(g.at(x, y), g.neighbours(x, y)),
{
    lemma_next_wf(g);
    lemma_at_in_range(g.next(), x, y);
    lemma_cell_index(x, y, g.width, g.height);
}

/// The rule, case by case: a live cell with fewer than two or more than
/// three live neighbours dies, a live cell with two or three survives, a
/// dead cell with exactly three comes alive, and any other dead cell stays
/// dead.
pub proof fn lemma_rule(g: GridView, x: int, y: int)
    requires
        g.wf(),
        g.in_range(x, y),
    ensures
        g.at(x, y) == ALIVE && g.neighbours(x, y) < 2 ==> g.next().at(x, y) == DEAD,
        g.at(x, y) == ALIVE && g.neighbours(x, y) > 3 ==> g.next().at(x, y) == DEAD,
        g.at(x, y) == ALIVE && (g.neighbours(x, y) == 2 || g.neighbours(x, y) == 3)
            ==> g.next().at(x, y) == ALIVE,
        g.at(x, y) == DEAD && g.neighbours(x, y) == 3 ==> g.next().at(x, y) == ALIVE,
        g.at(x, y) == DEAD && g.neighbours(x, y) != 3 ==> g.next().at(x, y) == DEAD,
{
    lemma_next_at(g, x, y);
}

/// Whether every cell of the grid is dead.
pub open spec fn all_dead(g: GridView) -> bool {
    forall|i: int| 0 <= i < g.cells.len() ==> #[trigger] g.cells[i] == DEAD
}

/// Every read of an all-dead grid is dead.
pub proof fn lemma_all_dead_at(g: GridView, x: int, y: int)
    requires
        g.wf(),
        all_dead(g),
    ensures
        g.at(x, y) == DEAD,
{
    if g.wrap || g.in_range(x, y) {
        lemma_mod_bound(x, g.width);
        lemma_mod_bound(y, g.height);
        lemma_cell_index(x % g.width, y % g.height, g.width, g.height);
    }
}

/// Nothing is born of nothing: the generation after an all-dead grid is
/// that same grid.
pub proof fn lemma_dead_stays_dead(g: GridView)
    requires
        g.wf(),
        all_dead(g),
    ensures
        all_dead(g.next()),
        g.next() == g,
{
    assert forall|i: int| 0 <= i < g.cells.len() implies #[trigger] g.next().cells[i]
        == DEAD by {
        let x = i % g.width;
        let y = i / g.width;
        lemma_all_dead_at(g, x, y);
        lemma_all_dead_at(g, x - 1, y - 1);
        lemma_all_dead_at(g, x, y - 1);
        lemma_all_dead_at(g, x + 1, y - 1);
        lemma_all_dead_at(g, x - 1, y);
        lemma_all_dead_at(g, x + 1, y);
        lemma_all_dead_at(g, x - 1, y + 1);
        lemma_all_dead_at(g, x, y + 1);
        lemma_all_dead_at(g, x + 1, y + 1);
    }
    assert(g.next().cells =~= g.cells);
}

/// Two grids of one shape that read alike at every cell are one grid.
pub proof fn lemma_equal_by_cells(a: GridView, b: GridView)
    requires
        a.wf(),
        b.wf(),
        a.same_shape(b),
        forall|x: int, y: int| a.in_range(x, y) ==> #[trigger] a.at(x, y) == b.at(x, y),
    ensures
        a == b,
{
    assert forall|i: int| 0 <= i < a.cells.len() implies a.cells[i] == b.cells[i] by {
        let x = i % a.width;
        let y = i / a.width;
        lemma_mod_bound(i, a.width);
        vstd::arithmetic::div_mod::lemma_fundamental_div_mod(i, a.width);
        vstd::arithmetic::div_mod::lemma_div_pos_is_pos(i, a.width);
        assert(y < a.height) by {
            assert(a.width * a.height == a.height * a.width) by (nonlinear_arith);
            vstd::arithmetic::div_mod::lemma_multiply_divide_lt(i, a.width, a.height);
        }
        assert(a.width * y == y * a.width) by (nonlinear_arith);
        lemma_at_in_range(a, x, y);
        lemma_at_in_range(b, x, y);
        assert(a.at(x, y) == b.at(x, y));
    }
    assert(a.cells =~= b.cells);
}

/// Seeding with every outcome `true`, as when the probability of a dead
/// cell is one, leaves an all-dead grid; with every outcome `false`, a grid
/// in which every cell is alive.
pub proof fn lemma_seeded_uniform(g: GridView, dead: Seq<bool>, outcome: bool)
    requires
        dead.len() == g.cells.len(),
        forall|i: int| 0 <= i < dead.len() ==> dead[i] == outcome,
    ensures
        forall|i: int|
            0 <= i < g.cells.len() ==> #[trigger] g.seeded(dead).cells[i] == if outcome {
                DEAD
            } else {
                ALIVE
            },
        outcome ==> all_dead(g.seeded(dead)),
{
}

/// A run of no iterations changes neither the live grid nor the recording.
pub proof fn lemma_run_zero(v: GameView)
    ensures
        v.run(0) == v,
{
}

/// A run keeps the simulation valid and the shape of its grid, lengthens
/// the recording by one generation per iteration, and leaves what was
/// recorded before it in place.
pub proof fn lemma_run_history(v: GameView, n: nat)
    requires
        v.wf(),
    ensures
        v.run(n).wf(),
        v.run(n).current.same_shape(v.current),
        v.run(n).history.len() == v.history.len() + n,
        forall|i: int| 0 <= i < v.history.len() ==> v.run(n).history[i] == v.history[i],
        n > 0 ==> v.run(n).history[v.history.len() as int] == v.current,
    decreases n,
{
    if n > 0 {
        let before = v.run((n - 1) as nat);
        lemma_run_history(v, (n - 1) as nat);
        lemma_next_wf(before.current);
        assert forall|i: int| 0 <= i < before.tick().history.len() implies {
            &&& (#[trigger] before.tick().history[i]).wf()
            &&& before.tick().history[i].same_shape(before.tick().current)
        } by {
            if i < before.history.len() {
                assert(before.history[i].wf());
            }
        }
    }
}

} // verus!
