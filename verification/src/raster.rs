//! The walk of the cursor: along a row from left to right, then on to the
//! start of the next row, and after the last row back to the first.

use vstd::prelude::*;
use vstd::arithmetic::div_mod::{lemma_fundamental_div_mod, lemma_fundamental_div_mod_converse};

verus! {

/// Where the cursor stands after one step from `at = (x, y)`, on a board that
/// is `max_x` columns wide and `max_y` rows high.
pub open spec fn raster_next(at: (nat, nat), max_x: nat, max_y: nat) -> (nat, nat) {
    let (x, y) = at;
    if x + 1 > max_x - 1 {
        if y < max_y - 1 {
            (0, y + 1)
        } else {
            (0, 0)
        }
    } else {
        (x + 1, y)
    }
}

/// Where the cursor stands after `steps` steps from `at`.
pub open spec fn raster_after(at: (nat, nat), max_x: nat, max_y: nat, steps: nat) -> (nat, nat)
    decreases steps,
{
    if steps == 0 {
        at
    } else {
        raster_next(raster_after(at, max_x, max_y, (steps - 1) as nat), max_x, max_y)
    }
}

/// Quotient and remainder of `n + 1` by `d`, from those of `n`: the remainder
/// grows by one, or it falls back to zero and the quotient grows by one.
proof fn lemma_div_mod_of_successor(n: int, d: int)
    requires
        0 <= n,
        0 < d,
    ensures
        0 <= n % d < d,
        n % d + 1 < d ==> (n + 1) % d == n % d + 1 && (n + 1) / d == n / d,
        n % d + 1 >= d ==> (n + 1) % d == 0 && (n + 1) / d == n / d + 1,
{
    let q = n / d;
    let r = n % d;
    lemma_fundamental_div_mod(n, d);
    assert(n == q * d + r) by (nonlinear_arith)
        requires
            n == d * q + r,
    ;
    if r + 1 < d {
        lemma_fundamental_div_mod_converse(n + 1, d, q, r + 1);
    } else {
        assert(n + 1 == (q + 1) * d + 0) by (nonlinear_arith)
            requires
                n == q * d + r,
                r + 1 == d,
        ;
        lemma_fundamental_div_mod_converse(n + 1, d, q + 1, 0);
    }
}

/// The walk is row-major: started at the origin, it stands after `steps`
/// steps in column `steps % max_x` of row `(steps / max_x) % max_y`.
pub proof fn lemma_raster_is_row_major(max_x: nat, max_y: nat, steps: nat)
    requires
        max_x > 0,
        max_y > 0,
    ensures
        raster_after((0, 0), max_x, max_y, steps) == (steps % max_x, (steps / max_x) % max_y),
    decreases steps,
{
    let mx = max_x as int;
    let my = max_y as int;
    if steps == 0 {
        lemma_fundamental_div_mod_converse(0, mx, 0, 0);
        lemma_fundamental_div_mod_converse(0, my, 0, 0);
    } else {
        let before = (steps - 1) as nat;
        lemma_raster_is_row_major(max_x, max_y, before);
        lemma_div_mod_of_successor(before as int, mx);
        let row = before as int / mx;
        assert(0 <= row) by (nonlinear_arith)
            requires
                0 <= before,
                0 < mx,
                row == before as int / mx,
        ;
        lemma_div_mod_of_successor(row, my);
    }
}

/// Full cycle: `max_x * max_y` steps from the origin lead back to the origin.
pub proof fn lemma_raster_full_cycle(max_x: nat, max_y: nat)
    ensures
        raster_after((0, 0), max_x, max_y, max_x * max_y) == (0nat, 0nat),
{
    lemma_raster_is_periodic(max_x, max_y, 0);
}

/// Periodicity: after `max_x * max_y` steps from the origin the walk repeats
/// itself, so `steps` further steps lead where `steps` steps led at first.
pub proof fn lemma_raster_is_periodic(max_x: nat, max_y: nat, steps: nat)
    ensures
        raster_after((0, 0), max_x, max_y, max_x * max_y + steps) == raster_after(
            (0, 0),
            max_x,
            max_y,
            steps,
        ),
{
    let mx = max_x as int;
    let my = max_y as int;
    let cells = max_x * max_y;
    if max_x == 0 || max_y == 0 {
        assert(cells == 0) by (nonlinear_arith)
            requires
                max_x == 0 || max_y == 0,
                cells == max_x * max_y,
        ;
    } else {
        lemma_raster_is_row_major(max_x, max_y, steps);
        lemma_raster_is_row_major(max_x, max_y, cells + steps);
        // steps == row * max_x + column, and row == turn * max_y + line
        let column = steps as int % mx;
        let row = steps as int / mx;
        let line = row % my;
        let turn = row / my;
        lemma_fundamental_div_mod(steps as int, mx);
        lemma_fundamental_div_mod(row, my);
        assert(0 <= column < mx && 0 <= line < my) by (nonlinear_arith)
            requires
                0 < mx,
                0 < my,
                column == steps as int % mx,
                line == row % my,
        ;
        assert(cells + steps == (my + row) * mx + column) by (nonlinear_arith)
            requires
                cells == mx * my,
                steps == mx * row + column,
        ;
        lemma_fundamental_div_mod_converse((cells + steps) as int, mx, my + row, column);
        assert(my + row == (turn + 1) * my + line) by (nonlinear_arith)
            requires
                row == my * turn + line,
        ;
        lemma_fundamental_div_mod_converse(my + row, my, turn + 1, line);
    }
}

/// Steps add up: `first + then` steps lead where `then` steps lead from the
/// place that `first` steps led to.
pub proof fn lemma_raster_steps_add(
    at: (nat, nat),
    max_x: nat,
    max_y: nat,
    first: nat,
    then: nat,
)
    ensures
        raster_after(at, max_x, max_y, first + then) == raster_after(
            raster_after(at, max_x, max_y, first),
            max_x,
            max_y,
            then,
        ),
    decreases then,
{
    if then > 0 {
        lemma_raster_steps_add(at, max_x, max_y, first, (then - 1) as nat);
        assert((first + then - 1) as nat == first + (then - 1) as nat);
    }
}

/// Full cycle from anywhere: from a cell of the board, `max_x * max_y` steps
/// lead back to that cell.
pub proof fn lemma_raster_returns_to_start(at: (nat, nat), max_x: nat, max_y: nat)
    requires
        at.0 < max_x,
        at.1 < max_y,
    ensures
        raster_after(at, max_x, max_y, max_x * max_y) == at,
{
    // The walk from the origin reaches `at` after `reach` steps.
    let reach = at.1 * max_x + at.0;
    lemma_raster_is_row_major(max_x, max_y, reach);
    lemma_fundamental_div_mod_converse(reach as int, max_x as int, at.1 as int, at.0 as int);
    lemma_fundamental_div_mod_converse(at.1 as int, max_y as int, 0, at.1 as int);
    assert(raster_after((0, 0), max_x, max_y, reach) == at);
    lemma_raster_steps_add((0, 0), max_x, max_y, reach, max_x * max_y);
    lemma_raster_is_periodic(max_x, max_y, reach);
}

} // verus!
