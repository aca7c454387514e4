//! The four headings, their unit vectors, and how one heading turns into
//! another.

use vstd::prelude::*;

verus! {

/// A heading on the grid.
#[derive(Clone, Copy, PartialEq, Eq, Structural, Debug)]
pub enum Direction {
    Left,
    Right,
    Up,
    Down,
}

/// How a segment bends between the heading it had and the heading it takes.
#[derive(Clone, Copy, PartialEq, Eq, Structural, Debug)]
pub enum Turn {
    /// Both headings lie on one line.
    Straight,
    /// The new heading lies a quarter turn counterclockwise of the old one.
    Counterclockwise,
    /// The new heading lies a quarter turn clockwise of the old one.
    Clockwise,
}

impl Direction {
    /// Horizontal part of the unit vector.
    pub open spec fn dx(self) -> int {
        match self {
            Direction::Left => -1,
            Direction::Right => 1,
            Direction::Up => 0,
            Direction::Down => 0,
        }
    }

    /// Vertical part of the unit vector.
    pub open spec fn dy(self) -> int {
        match self {
            Direction::Left => 0,
            Direction::Right => 0,
            Direction::Up => 1,
            Direction::Down => -1,
        }
    }

    /// The heading whose unit vector is the negation of this one's.
    pub open spec fn reversed(self) -> Direction {
        match self {
            Direction::Left => Direction::Right,
            Direction::Right => Direction::Left,
            Direction::Up => Direction::Down,
            Direction::Down => Direction::Up,
        }
    }

    /// The perpendicular dot product of the two unit vectors: zero when the
    /// headings lie on one line, positive when `other` is a quarter turn
    /// counterclockwise of `self`, negative when it is a quarter turn
    /// clockwise.
    pub open spec fn cross(self, other: Direction) -> int {
        self.dx() * other.dy() - self.dy() * other.dx()
    }

    /// The bend of a segment that faced `self` and now takes `incoming`.
    pub open spec fn turn_to(self, incoming: Direction) -> Turn {
        if self.cross(incoming) == 0 {
            Turn::Straight
        } else if self.cross(incoming) > 0 {
            Turn::Counterclockwise
        } else {
            Turn::Clockwise
        }
    }

    /// The unit vector of the heading.
    pub fn to_vec(self) -> (v: (i32, i32))
        ensures
            v.0 == self.dx(),
            v.1 == self.dy(),
    {
        match self {
            Direction::Left => (-1, 0),
            Direction::Right => (1, 0),
            Direction::Up => (0, 1),
            Direction::Down => (0, -1),
        }
    }

    /// The opposite heading.
    pub fn opposite(self) -> (r: Direction)
        ensures
            r == self.reversed(),
            r.dx() == -self.dx(),
            r.dy() == -self.dy(),
    {
        match self {
            Direction::Left => Direction::Right,
            Direction::Right => Direction::Left,
            Direction::Up => Direction::Down,
            Direction::Down => Direction::Up,
        }
    }

    /// The perpendicular dot product of the two unit vectors.
    pub fn perp_dot(self, other: Direction) -> (r: i32)
        ensures
            r == self.cross(other),
            -1 <= r <= 1,
    {
        proof {
            lemma_cross_values(self, other);
        }
        let a = self.to_vec();
        let b = other.to_vec();
        a.0 * b.1 - a.1 * b.0
    }

    /// Classifies the bend of a segment that faced `self` and now takes
    /// `incoming`.
    pub fn classify_turn(self, incoming: Direction) -> (t: Turn)
        ensures
            t == self.turn_to(incoming),
            t == Turn::Straight <==> (incoming == self || incoming == self.reversed()),
    {
        proof {
            lemma_cross_values(self, incoming);
        }
        let c = self.perp_dot(incoming);
        if c == 0 {
            Turn::Straight
        } else if c > 0 {
            Turn::Counterclockwise
        } else {
            Turn::Clockwise
        }
    }
}

/// The perpendicular dot product of two headings is -1, 0 or 1; it is zero
/// exactly when the headings are equal or opposite, and it changes sign when
/// the two headings change places.
pub proof fn lemma_cross_values(a: Direction, b: Direction)
    ensures
        -1 <= a.cross(b) <= 1,
        a.cross(b) == 0 <==> (b == a || b == a.reversed()),
        b.cross(a) == -a.cross(b),
{
    let (ax, ay, bx, by) = (a.dx(), a.dy(), b.dx(), b.dy());
    assert(ax * by == if ax == 0 { 0 } else if ax == 1 { by } else { -by }) by (nonlinear_arith)
        requires
            -1 <= ax <= 1,
    ;
    assert(ay * bx == if ay == 0 { 0 } else if ay == 1 { bx } else { -bx }) by (nonlinear_arith)
        requires
            -1 <= ay <= 1,
    ;
    assert(bx * ay == ay * bx && by * ax == ax * by) by (nonlinear_arith);
}

} // verus!
