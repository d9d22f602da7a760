//! Locations, blocks, movement directions and the toroidal step rule.

use vstd::prelude::*;

verus! {

/// One of the four axis-aligned movement directions.
#[derive(PartialEq, Eq, Structural, Clone, Copy, Debug)]
pub enum Direction {
    Up,
    Down,
    Left,
    Right,
}

/// A grid-cell coordinate: `x` counts columns from the left edge, `y` counts
/// rows from the top edge.
#[derive(PartialEq, Eq, Structural, Clone, Copy, Debug)]
pub struct Location {
    pub x: usize,
    pub y: usize,
}

/// A single occupied cell, wrapping the location it covers. Two blocks are
/// equal exactly when their locations are equal.
#[derive(PartialEq, Eq, Structural, Clone, Copy, Debug)]
pub struct Block {
    pub loc: Location,
}

impl Direction {
    /// The 180-degree reverse of a direction.
    pub open spec fn opposite_spec(self) -> Direction {
        match self {
            Direction::Up => Direction::Down,
            Direction::Down => Direction::Up,
            Direction::Left => Direction::Right,
            Direction::Right => Direction::Left,
        }
    }

    pub fn opposite(self) -> (r: Direction)
        ensures
            r == self.opposite_spec(),
    {
        match self {
            Direction::Up => Direction::Down,
            Direction::Down => Direction::Up,
            Direction::Left => Direction::Right,
            Direction::Right => Direction::Left,
        }
    }
}

impl Location {
    /// A location within the standard playing field (the boundary value is
    /// admitted because wrap computations pass through it transiently).
    pub fn new(x: usize, y: usize) -> (l: Location)
        requires
            x <= crate::COLS,
            y <= crate::ROWS,
        ensures
            l.x == x,
            l.y == y,
    {
        Location { x, y }
    }
}

impl Block {
    pub fn new(loc: Location) -> (b: Block)
        ensures
            b.loc == loc,
    {
        Block { loc }
    }
}

/// The toroidal neighbor of `l` one cell away in direction `d` on a grid of
/// `rows` rows and `cols` columns: stepping off one edge re-enters at the
/// opposite edge, on exactly one axis per move.
pub open spec fn step_loc(l: Location, d: Direction, rows: int, cols: int) -> Location {
    match d {
        Direction::Up => Location { x: l.x, y: (if l.y == 0 { rows - 1 } else { l.y - 1 }) as usize },
        Direction::Down => Location { x: l.x, y: (if l.y + 1 == rows { 0 } else { l.y + 1 }) as usize },
        Direction::Left => Location { x: (if l.x == 0 { cols - 1 } else { l.x - 1 }) as usize, y: l.y },
        Direction::Right => Location { x: (if l.x + 1 == cols { 0 } else { l.x + 1 }) as usize, y: l.y },
    }
}

/// Toroidal movement keeps every in-bounds location in bounds and moves it by
/// exactly one cell along one axis, modulo the grid dimension, wrapping at
/// the extremes. A grid with a dimension of 1 is excluded: there the neighbor
/// along that axis is the cell itself.
pub proof fn lemma_toroidal_step(l: Location, d: Direction, rows: int, cols: int)
    requires
        2 <= rows <= usize::MAX,
        2 <= cols <= usize::MAX,
        l.x < cols,
        l.y < rows,
    ensures
        ({
            let m = step_loc(l, d, rows, cols);
            m.x < cols && m.y < rows && m != l && match d {
                Direction::Up => m.x == l.x && m.y == (l.y - 1) % rows,
                Direction::Down => m.x == l.x && m.y == (l.y + 1) % rows,
                Direction::Left => m.y == l.y && m.x == (l.x - 1) % cols,
                Direction::Right => m.y == l.y && m.x == (l.x + 1) % cols,
            }
        }),
{
    let m = step_loc(l, d, rows, cols);
    match d {
        Direction::Up => {
            if l.y == 0 {
                assert((l.y - 1) % rows == rows - 1) by (nonlinear_arith)
                    requires l.y == 0 && rows >= 2;
            } else {
                assert((l.y - 1) % rows == l.y - 1) by (nonlinear_arith)
                    requires 1 <= l.y < rows;
            }
        }
        Direction::Down => {
            if l.y + 1 == rows {
                assert((l.y + 1) % rows == 0) by (nonlinear_arith)
                    requires l.y + 1 == rows && rows >= 2;
            } else {
                assert((l.y + 1) % rows == l.y + 1) by (nonlinear_arith)
                    requires 0 <= l.y + 1 < rows;
            }
        }
        Direction::Left => {
            if l.x == 0 {
                assert((l.x - 1) % cols == cols - 1) by (nonlinear_arith)
                    requires l.x == 0 && cols >= 2;
            } else {
                assert((l.x - 1) % cols == l.x - 1) by (nonlinear_arith)
                    requires 1 <= l.x < cols;
            }
        }
        Direction::Right => {
            if l.x + 1 == cols {
                assert((l.x + 1) % cols == 0) by (nonlinear_arith)
                    requires l.x + 1 == cols && cols >= 2;
            } else {
                assert((l.x + 1) % cols == l.x + 1) by (nonlinear_arith)
                    requires 0 <= l.x + 1 < cols;
            }
        }
    }
}

} // verus!
