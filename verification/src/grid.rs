//! Addressing of cells on a square torus, in row-major order.
//!
//! A grid of width `w` has `w * w` cells. Cell `index` lies in row
//! `index / w` and column `index % w`. A step past an edge comes back in on
//! the opposite edge, in the same row or column.

use vstd::prelude::*;
use vstd::arithmetic::div_mod::lemma_fundamental_div_mod;
use vstd::arithmetic::div_mod::lemma_fundamental_div_mod_converse;

verus! {

/// A direction of travel on the grid.
#[derive(Clone, Copy, PartialEq, Eq, Structural, Debug)]
pub enum Direction {
    Up,
    Down,
    Left,
    Right,
}

/// The row of cell `index` on a grid `width` cells wide.
pub open spec fn row_of(index: int, width: int) -> int {
    index / width
}

/// The column of cell `index` on a grid `width` cells wide.
pub open spec fn col_of(index: int, width: int) -> int {
    index % width
}

/// The index of the cell in row `row` and column `col`.
pub open spec fn cell_at(row: int, col: int, width: int) -> int {
    row * width + col
}

/// Whether `index` names a cell of the grid of width `width`.
pub open spec fn on_grid(index: int, width: int) -> bool {
    0 <= index < width * width
}

/// The cell one step from `index` in `direction` on the torus: the row or the
/// column moves by one, modulo `width`.
pub open spec fn next_index_of(index: int, direction: Direction, width: int) -> int {
    let r = row_of(index, width);
    let c = col_of(index, width);
    match direction {
        Direction::Up => cell_at((r + width - 1) % width, c, width),
        Direction::Down => cell_at((r + 1) % width, c, width),
        Direction::Left => cell_at(r, (c + width - 1) % width, width),
        Direction::Right => cell_at(r, (c + 1) % width, width),
    }
}

/// The direction that undoes a step in `direction`.
pub open spec fn opposite(direction: Direction) -> Direction {
    match direction {
        Direction::Up => Direction::Down,
        Direction::Down => Direction::Up,
        Direction::Left => Direction::Right,
        Direction::Right => Direction::Left,
    }
}

/// A value below `2 * width` is reduced modulo `width` by at most one
/// subtraction.
pub proof fn lemma_mod_wrap(x: int, width: int)
    requires
        width > 0,
        0 <= x < 2 * width,
    ensures
        x % width == if x < width { x } else { x - width },
{
    if x < width {
        lemma_fundamental_div_mod_converse(x, width, 0, x);
    } else {
        lemma_fundamental_div_mod_converse(x, width, 1, x - width);
    }
}

/// Row and column of a cell of the grid are below `width`, and give the cell
/// back.
pub proof fn lemma_row_col_bounds(index: int, width: int)
    requires
        width > 0,
        on_grid(index, width),
    ensures
        0 <= row_of(index, width) < width,
        0 <= col_of(index, width) < width,
        cell_at(row_of(index, width), col_of(index, width), width) == index,
{
    lemma_fundamental_div_mod(index, width);
    let r = index / width;
    let c = index % width;
    assert(0 <= c < width);
    assert(width * r == r * width) by (nonlinear_arith);
    assert(0 <= r) by (nonlinear_arith)
        requires
            width > 0,
            r * width + c >= 0,
            c < width,
    ;
    assert(r < width) by (nonlinear_arith)
        requires
            width > 0,
            r * width + c < width * width,
            c >= 0,
    ;
}

/// A cell built from a row and a column below `width` is on the grid, and has
/// that row and that column.
pub proof fn lemma_cell_at_row_col(row: int, col: int, width: int)
    requires
        0 <= row < width,
        0 <= col < width,
    ensures
        on_grid(cell_at(row, col, width), width),
        row_of(cell_at(row, col, width), width) == row,
        col_of(cell_at(row, col, width), width) == col,
{
    assert(0 <= row * width + col < width * width) by (nonlinear_arith)
        requires
            0 <= row < width,
            0 <= col < width,
    ;
    lemma_fundamental_div_mod_converse(row * width + col, width, row, col);
}

/// The neighbour of a cell of the grid is a cell of the grid.
pub proof fn lemma_next_index_on_grid(index: int, direction: Direction, width: int)
    requires
        width > 0,
        on_grid(index, width),
    ensures
        on_grid(next_index_of(index, direction, width), width),
{
    lemma_row_col_bounds(index, width);
    let r = row_of(index, width);
    let c = col_of(index, width);
    lemma_mod_wrap(r + width - 1, width);
    lemma_mod_wrap(r + 1, width);
    lemma_mod_wrap(c + width - 1, width);
    lemma_mod_wrap(c + 1, width);
    match direction {
        Direction::Up => lemma_cell_at_row_col((r + width - 1) % width, c, width),
        Direction::Down => lemma_cell_at_row_col((r + 1) % width, c, width),
        Direction::Left => lemma_cell_at_row_col(r, (c + width - 1) % width, width),
        Direction::Right => lemma_cell_at_row_col(r, (c + 1) % width, width),
    }
}

/// The neighbour of a cell, edge by edge: a step inside the grid adds or
/// takes `width` or one, and a step past an edge lands on the opposite edge
/// of the same column or row.
pub proof fn lemma_next_index_by_edge(index: int, direction: Direction, width: int)
    requires
        width > 0,
        on_grid(index, width),
    ensures
        next_index_of(index, direction, width) == match direction {
            Direction::Up => if index == col_of(index, width) {
                width * width - width + col_of(index, width)
            } else {
                index - width
            },
            Direction::Down => if index == width * width - width + col_of(index, width) {
                col_of(index, width)
            } else {
                index + width
            },
            Direction::Left => if index == row_of(index, width) * width {
                row_of(index, width) * width + width - 1
            } else {
                index - 1
            },
            Direction::Right => if index + 1 == (row_of(index, width) + 1) * width {
                row_of(index, width) * width
            } else {
                index + 1
            },
        },
{
    lemma_row_col_bounds(index, width);
    let r = row_of(index, width);
    let c = col_of(index, width);
    lemma_mod_wrap(r + width - 1, width);
    lemma_mod_wrap(r + 1, width);
    lemma_mod_wrap(c + width - 1, width);
    lemma_mod_wrap(c + 1, width);
    assert((width - 1) * width == width * width - width) by (nonlinear_arith);
    assert((r - 1) * width == r * width - width) by (nonlinear_arith);
    assert((r + 1) * width == r * width + width) by (nonlinear_arith);
    assert(0 * width == 0) by (nonlinear_arith);
    assert(r == 0 <==> r * width == 0) by (nonlinear_arith)
        requires
            width > 0,
            r >= 0,
    ;
    assert(r == width - 1 <==> r * width == width * width - width) by (nonlinear_arith)
        requires
            width > 0,
            0 <= r < width,
    ;
}

/// A step and then a step in the opposite direction lead back to the cell
/// where they began: up and down undo each other, and so do left and right.
pub proof fn lemma_step_and_back(index: int, direction: Direction, width: int)
    requires
        width > 0,
        on_grid(index, width),
    ensures
        next_index_of(next_index_of(index, direction, width), opposite(direction), width)
            == index,
{
    lemma_row_col_bounds(index, width);
    let r = row_of(index, width);
    let c = col_of(index, width);
    lemma_mod_wrap(r + width - 1, width);
    lemma_mod_wrap(r + 1, width);
    lemma_mod_wrap(c + width - 1, width);
    lemma_mod_wrap(c + 1, width);
    match direction {
        Direction::Up => {
            let r1 = (r + width - 1) % width;
            lemma_cell_at_row_col(r1, c, width);
            lemma_mod_wrap(r1 + 1, width);
        },
        Direction::Down => {
            let r1 = (r + 1) % width;
            lemma_cell_at_row_col(r1, c, width);
            lemma_mod_wrap(r1 + width - 1, width);
        },
        Direction::Left => {
            let c1 = (c + width - 1) % width;
            lemma_cell_at_row_col(r, c1, width);
            lemma_mod_wrap(c1 + 1, width);
        },
        Direction::Right => {
            let c1 = (c + 1) % width;
            lemma_cell_at_row_col(r, c1, width);
            lemma_mod_wrap(c1 + width - 1, width);
        },
    }
}

/// On a grid at least two cells wide a step leads to another cell.
pub proof fn lemma_step_leaves_cell(index: int, direction: Direction, width: int)
    requires
        width >= 2,
        on_grid(index, width),
    ensures
        next_index_of(index, direction, width) != index,
{
    lemma_next_index_by_edge(index, direction, width);
    lemma_row_col_bounds(index, width);
    let r = row_of(index, width);
    assert(width * width - width > 0) by (nonlinear_arith)
        requires
            width >= 2,
    ;
    assert((r + 1) * width == r * width + width) by (nonlinear_arith);
}

/// The row of cell `index`.
pub fn row(index: usize, width: usize) -> (r: usize)
    requires
        width > 0,
    ensures
        r == row_of(index as int, width as int),
{
    index / width
}

/// The column of cell `index`.
pub fn col(index: usize, width: usize) -> (c: usize)
    requires
        width > 0,
    ensures
        c == col_of(index as int, width as int),
{
    index % width
}

/// The cell one step from `index` in `direction`, coming back in on the
/// opposite edge where the step leaves the grid.
pub fn next_index(index: usize, direction: Direction, width: usize) -> (next: usize)
    requires
        width > 0,
        width * width <= usize::MAX,
        on_grid(index as int, width as int),
    ensures
        next == next_index_of(index as int, direction, width as int),
        on_grid(next as int, width as int),
{
    let size: usize = width * width;
    let r: usize = row(index, width);
    let c: usize = col(index, width);
    let ghost w = width as int;
    proof {
        lemma_row_col_bounds(index as int, w);
        lemma_next_index_by_edge(index as int, direction, w);
        lemma_next_index_on_grid(index as int, direction, w);
        assert(index == r * w + c);
        assert((r + 1) * w == r * w + w) by (nonlinear_arith);
        assert(r * w + w <= w * w) by (nonlinear_arith)
            requires
                0 <= r < w,
        ;
        assert(0 <= r * w) by (nonlinear_arith)
            requires
                0 <= r,
                w > 0,
        ;
    }
    match direction {
        Direction::Up => {
            if index == c {
                size - width + c
            } else {
                index - width
            }
        },
        Direction::Down => {
            if index == size - width + c {
                c
            } else {
                index + width
            }
        },
        Direction::Left => {
            let edge: usize = r * width;
            if index == edge {
                edge + width - 1
            } else {
                index - 1
            }
        },
        Direction::Right => {
            let edge: usize = (r + 1) * width;
            if index + 1 == edge {
                edge - width
            } else {
                index + 1
            }
        },
    }
}

} // verus!
