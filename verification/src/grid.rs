//! The playing field: a torus of `GRID_WIDTH` by `GRID_HEIGHT` cells.

use vstd::prelude::*;
use vstd::pervasive::unreached;
use crate::direction::Direction;

verus! {

/// Number of columns.
pub const GRID_WIDTH: i32 = 20;

/// Number of rows.
pub const GRID_HEIGHT: i32 = 10;

/// Column of the cell at the centre of the field.
pub const GRID_CENTER_X: i32 = 10;

/// Row of the cell at the centre of the field.
pub const GRID_CENTER_Y: i32 = 5;

/// A position on the field, or next to it before it is wrapped.
#[derive(Clone, Copy, PartialEq, Eq, Structural, Debug)]
pub struct Cell {
    pub x: i32,
    pub y: i32,
}

/// The cell at column `x` and row `y`.
pub fn cell(x: i32, y: i32) -> (c: Cell)
    ensures
        c == (Cell { x, y }),
{
    Cell { x, y }
}

impl Cell {
    /// Whether the position lies on the field.
    pub open spec fn in_grid(self) -> bool {
        0 <= self.x < GRID_WIDTH && 0 <= self.y < GRID_HEIGHT
    }

    /// The cell of the field that the position `(x, y)` falls on: each
    /// coordinate is reduced by the Euclidean remainder, so that one step
    /// left of column 0 is the last column.
    pub open spec fn at(x: int, y: int) -> Cell {
        Cell { x: (x % (GRID_WIDTH as int)) as i32, y: (y % (GRID_HEIGHT as int)) as i32 }
    }

    /// The position reduced onto the field.
    pub open spec fn wrapped(self) -> Cell {
        Cell::at(self.x as int, self.y as int)
    }

    /// The position displaced by `(dx, dy)` and reduced onto the field.
    pub open spec fn shifted(self, dx: int, dy: int) -> Cell {
        Cell::at(self.x + dx, self.y + dy)
    }

    /// The neighbouring cell of the field in the heading `dir`.
    pub open spec fn stepped(self, dir: Direction) -> Cell {
        self.shifted(dir.dx(), dir.dy())
    }

    /// Tells whether the position lies on the field.
    pub fn is_in_grid(self) -> (r: bool)
        ensures
            r == self.in_grid(),
    {
        0 <= self.x && self.x < GRID_WIDTH && 0 <= self.y && self.y < GRID_HEIGHT
    }

    /// Reduces the position onto the field.
    pub fn wrap(self) -> (r: Cell)
        ensures
            r == self.wrapped(),
            r.in_grid(),
            self.in_grid() ==> r == self,
    {
        self.shift(0, 0)
    }

    /// Displaces the position by `(dx, dy)` and reduces it onto the field.
    pub fn shift(self, dx: i32, dy: i32) -> (r: Cell)
        ensures
            r == self.shifted(dx as int, dy as int),
            r.in_grid(),
    {
        let x: i64 = self.x as i64 + dx as i64;
        let y: i64 = self.y as i64 + dy as i64;
        let rx: i64 = match x.checked_rem_euclid(GRID_WIDTH as i64) {
            Some(r) => r,
            None => unreached(),
        };
        let ry: i64 = match y.checked_rem_euclid(GRID_HEIGHT as i64) {
            Some(r) => r,
            None => unreached(),
        };
        Cell { x: rx as i32, y: ry as i32 }
    }

    /// Moves one cell in the heading `dir`, around the edge if need be.
    pub fn step(self, dir: Direction) -> (r: Cell)
        ensures
            r == self.stepped(dir),
            r.in_grid(),
    {
        let v = dir.to_vec();
        self.shift(v.0, v.1)
    }

    /// Moves one cell against the heading `dir`, around the edge if need be.
    pub fn step_back(self, dir: Direction) -> (r: Cell)
        ensures
            r == self.stepped(dir.reversed()),
            r.in_grid(),
    {
        self.step(dir.opposite())
    }

    /// Where the cell is drawn when every cell is `cell_size` units wide.
    pub fn to_world(self, cell_size: i32) -> (p: (i64, i64))
        ensures
            p.0 == self.x * cell_size,
            p.1 == self.y * cell_size,
    {
        assert(-0x8000_0000 * 0x8000_0000 <= self.x * cell_size <= 0x8000_0000 * 0x8000_0000)
            by (nonlinear_arith)
            requires
                -0x8000_0000 <= self.x < 0x8000_0000,
                -0x8000_0000 <= cell_size < 0x8000_0000,
        ;
        assert(-0x8000_0000 * 0x8000_0000 <= self.y * cell_size <= 0x8000_0000 * 0x8000_0000)
            by (nonlinear_arith)
            requires
                -0x8000_0000 <= self.y < 0x8000_0000,
                -0x8000_0000 <= cell_size < 0x8000_0000,
        ;
        (self.x as i64 * cell_size as i64, self.y as i64 * cell_size as i64)
    }
}

/// Whatever the position, reducing it, displacing it, or taking a step from
/// it in any heading ends on the field.
pub proof fn lemma_stays_in_grid(c: Cell, dx: int, dy: int, dir: Direction)
    ensures
        c.wrapped().in_grid(),
        c.shifted(dx, dy).in_grid(),
        c.stepped(dir).in_grid(),
{
}

/// A step followed by a step in the opposite heading leads back to the cell
/// it started from.
pub proof fn lemma_step_and_back(c: Cell, dir: Direction)
    requires
        c.in_grid(),
    ensures
        c.stepped(dir).stepped(dir.reversed()) == c,
        c.stepped(dir.reversed()).stepped(dir) == c,
        c.stepped(dir) != c,
{
}

/// Two displacements in a row amount to one displacement by their sum.
pub proof fn lemma_shift_twice(c: Cell, dx1: int, dy1: int, dx2: int, dy2: int)
    ensures
        c.shifted(dx1, dy1).shifted(dx2, dy2) == c.shifted(dx1 + dx2, dy1 + dy2),
        c.shifted(0, 0) == c.wrapped(),
        c.in_grid() ==> c.wrapped() == c,
{
    let w = GRID_WIDTH as int;
    let h = GRID_HEIGHT as int;
    assert(((c.x + dx1) % w + dx2) % w == (c.x + dx1 + dx2) % w);
    assert(((c.y + dy1) % h + dy2) % h == (c.y + dy1 + dy2) % h);
}

/// One step in each of the four headings, taken in any order, leads back to
/// the cell of the field that the walk started from.
pub proof fn lemma_four_steps_return(
    c: Cell,
    d1: Direction,
    d2: Direction,
    d3: Direction,
    d4: Direction,
)
    requires
        d1 != d2,
        d1 != d3,
        d1 != d4,
        d2 != d3,
        d2 != d4,
        d3 != d4,
    ensures
        c.stepped(d1).stepped(d2).stepped(d3).stepped(d4) == c.wrapped(),
        c.in_grid() ==> c.stepped(d1).stepped(d2).stepped(d3).stepped(d4) == c,
{
    lemma_shift_twice(c, d1.dx(), d1.dy(), d2.dx(), d2.dy());
    lemma_shift_twice(c, d1.dx() + d2.dx(), d1.dy() + d2.dy(), d3.dx(), d3.dy());
    lemma_shift_twice(
        c,
        d1.dx() + d2.dx() + d3.dx(),
        d1.dy() + d2.dy() + d3.dy(),
        d4.dx(),
        d4.dy(),
    );
    assert(d1.dx() + d2.dx() + d3.dx() + d4.dx() == 0);
    assert(d1.dy() + d2.dy() + d3.dy() + d4.dy() == 0);
}

} // verus!
