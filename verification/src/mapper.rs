//! The coordinate mapper: logical board coordinates onto the physical LED
//! strip, wired as a column-major serpentine — each column occupies
//! `BOARD_HEIGHT` consecutive indices, alternating columns run in opposite
//! vertical order, with an optional global vertical flip.

use vstd::prelude::*;

use crate::BOARD_CELLS;
use crate::BOARD_HEIGHT;
use crate::BOARD_WIDTH;

verus! {

/// The physical strip index of board cell `(x, y)`.
pub open spec fn spec_led_index(x: int, y: int, flip_y: bool) -> int {
    let y_mapped = if flip_y {
        BOARD_HEIGHT as int - 1 - y
    } else {
        y
    };
    let col_start = x * (BOARD_HEIGHT as int);
    if x % 2 == 0 {
        col_start + y_mapped
    } else {
        col_start + (BOARD_HEIGHT as int - 1 - y_mapped)
    }
}

/// The board cell that strip index `i` shows: the inverse of
/// [`spec_led_index`] for the same `flip_y`.
pub open spec fn spec_led_to_board(i: int, flip_y: bool) -> (int, int) {
    let x = i / (BOARD_HEIGHT as int);
    let z = i % (BOARD_HEIGHT as int);
    let y_mapped = if x % 2 == 0 {
        z
    } else {
        BOARD_HEIGHT as int - 1 - z
    };
    let y = if flip_y {
        BOARD_HEIGHT as int - 1 - y_mapped
    } else {
        y_mapped
    };
    (x, y)
}

/// Map a board cell onto the serpentine strip.
pub fn board_to_led_index(x: usize, y: usize, flip_y: bool) -> (idx: usize)
    requires
        x < BOARD_WIDTH,
        y < BOARD_HEIGHT,
    ensures
        idx == spec_led_index(x as int, y as int, flip_y),
        idx < BOARD_CELLS,
{
    let y_mapped = if flip_y {
        BOARD_HEIGHT - 1 - y
    } else {
        y
    };
    let col_start = x * BOARD_HEIGHT;
    if x % 2 == 0 {
        col_start + y_mapped
    } else {
        col_start + (BOARD_HEIGHT - 1 - y_mapped)
    }
}

/// Law: the mapping stays inside the strip and two distinct board cells never
/// share a strip index.
pub proof fn lemma_led_index_injective(flip_y: bool, x1: int, y1: int, x2: int, y2: int)
    requires
        0 <= x1 < BOARD_WIDTH as int,
        0 <= y1 < BOARD_HEIGHT as int,
        0 <= x2 < BOARD_WIDTH as int,
        0 <= y2 < BOARD_HEIGHT as int,
        (x1, y1) != (x2, y2),
    ensures
        0 <= spec_led_index(x1, y1, flip_y) < BOARD_CELLS as int,
        0 <= spec_led_index(x2, y2, flip_y) < BOARD_CELLS as int,
        spec_led_index(x1, y1, flip_y) != spec_led_index(x2, y2, flip_y),
{
}

/// Law: the mapping covers the whole strip — every strip index is the image
/// of exactly one valid board cell, so the mapping is a bijection between the
/// board and `[0, BOARD_CELLS)`.
pub proof fn lemma_led_index_surjective(flip_y: bool, i: int)
    requires
        0 <= i < BOARD_CELLS as int,
    ensures
        0 <= spec_led_to_board(i, flip_y).0 < BOARD_WIDTH as int,
        0 <= spec_led_to_board(i, flip_y).1 < BOARD_HEIGHT as int,
        spec_led_index(spec_led_to_board(i, flip_y).0, spec_led_to_board(i, flip_y).1, flip_y)
            == i,
{
    let x = i / (BOARD_HEIGHT as int);
    let z = i % (BOARD_HEIGHT as int);
    assert(i == x * (BOARD_HEIGHT as int) + z && 0 <= z < BOARD_HEIGHT as int && 0 <= x
        < BOARD_WIDTH as int) by (nonlinear_arith)
        requires
            0 <= i < BOARD_CELLS as int,
            x == i / (BOARD_HEIGHT as int),
            z == i % (BOARD_HEIGHT as int),
    ;
}

} // verus!
