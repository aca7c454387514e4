//! The food, and how it finds a new cell when it has been eaten.

use vstd::prelude::*;
use crate::cat::{cells_of, grown, well_formed, Chain};
use crate::grid::{Cell, GRID_HEIGHT, GRID_WIDTH};

verus! {

/// How many cells are drawn at random before the field is searched cell by
/// cell.
pub const RELOCATE_DRAWS: usize = 64;

/// The fish that the cat is after.
#[derive(Clone, Copy, PartialEq, Eq, Structural, Debug)]
pub struct Food {
    /// Where the food lies.
    pub cell: Cell,
}

/// What became of the food at the end of a move.
#[derive(Clone, Copy, PartialEq, Eq, Structural, Debug)]
pub enum Meal {
    /// The head is not on the food.
    Missed,
    /// The head ate the food, and new food lies on a free cell.
    Eaten,
    /// The head ate the food, and the field has no free cell left for more.
    BoardFull,
}

/// Food at `position`.
pub fn food(position: Cell) -> (f: Food)
    ensures
        f == (Food { cell: position }),
{
    Food { cell: position }
}

/// Whether `c` is a cell of the field that is not among `taken`.
pub open spec fn is_free(taken: Seq<Cell>, c: Cell) -> bool {
    c.in_grid() && !taken.contains(c)
}

/// Whether the field has no cell left that is not among `taken`.
pub open spec fn is_full(taken: Seq<Cell>) -> bool {
    forall|c: Cell| c.in_grid() ==> #[trigger] taken.contains(c)
}

/// Whether `a` comes before `b` when the field is read row by row from the
/// bottom, each row from the left.
pub open spec fn reads_before(a: Cell, b: Cell) -> bool {
    a.y < b.y || (a.y == b.y && a.x < b.x)
}

/// Draws a number from 0 up to, but not including, `bound` with
/// `rand::random_range` and the generator of the running thread. Nothing is
/// proved of this function: that the number lies in the range is taken from
/// `rand`, and nothing more is said of it. The call panics on an empty
/// range, so `bound` must be positive; it also panics where the operating
/// system has no seed for the generator of the thread.
#[verifier::external_body]
fn random_below(bound: i32) -> (r: i32)
    requires
        0 < bound,
    ensures
        0 <= r < bound,
{
    rand::random_range(0..bound)
}

/// A cell of the field drawn at random.
pub fn random_cell() -> (c: Cell)
    ensures
        c.in_grid(),
{
    let x = random_below(GRID_WIDTH);
    let y = random_below(GRID_HEIGHT);
    Cell { x, y }
}

/// Tells whether `c` is among `cells`.
pub fn contains_cell(cells: &Vec<Cell>, c: Cell) -> (found: bool)
    ensures
        found == cells@.contains(c),
{
    let n = cells.len();
    let mut i: usize = 0;
    while i < n
        invariant
            n == cells@.len(),
            i <= n,
            forall|j: int| 0 <= j < i ==> cells@[j] != c,
        decreases n - i,
    {
        if cells[i] == c {
            return true;
        }
        i = i + 1;
    }
    false
}

/// Judges one candidate for the food: it is taken if it is a cell of the
/// field that is not among `taken`, and refused otherwise.
pub fn place(taken: &Vec<Cell>, candidate: Cell) -> (r: Option<Cell>)
    ensures
        is_free(taken@, candidate) ==> r == Some(candidate),
        !is_free(taken@, candidate) ==> r.is_none(),
{
    if candidate.is_in_grid() && !contains_cell(taken, candidate) {
        Some(candidate)
    } else {
        None
    }
}

/// The first free cell when the field is read row by row, or nothing when
/// every cell of the field is among `taken`.
pub fn first_free(taken: &Vec<Cell>) -> (r: Option<Cell>)
    ensures
        match r {
            Some(c) => is_free(taken@, c) && forall|d: Cell|
                d.in_grid() && reads_before(d, c) ==> #[trigger] taken@.contains(d),
            None => is_full(taken@),
        },
{
    let mut y: i32 = 0;
    while y < GRID_HEIGHT
        invariant
            0 <= y <= GRID_HEIGHT,
            forall|d: Cell| d.in_grid() && d.y < y ==> #[trigger] taken@.contains(d),
        decreases GRID_HEIGHT - y,
    {
        let mut x: i32 = 0;
        while x < GRID_WIDTH
            invariant
                0 <= y < GRID_HEIGHT,
                0 <= x <= GRID_WIDTH,
                forall|d: Cell| d.in_grid() && d.y < y ==> #[trigger] taken@.contains(d),
                forall|d: Cell| d.in_grid() && d.y == y && d.x < x ==> #[trigger] taken@.contains(d),
            decreases GRID_WIDTH - x,
        {
            let c = Cell { x, y };
            if !contains_cell(taken, c) {
                return Some(c);
            }
            x = x + 1;
        }
        y = y + 1;
    }
    None
}

/// Finds a cell for the food that is not among `taken`. Cells are drawn at
/// random until one is free; after `RELOCATE_DRAWS` draws in vain the field
/// is searched row by row, so that a free cell is found whenever there is
/// one. The answer is nothing exactly when the field is full.
pub fn relocate(taken: &Vec<Cell>) -> (r: Option<Cell>)
    ensures
        r.is_none() <==> is_full(taken@),
        r matches Some(c) ==> is_free(taken@, c),
{
    let mut draws: usize = 0;
    while draws < RELOCATE_DRAWS
        invariant
            draws <= RELOCATE_DRAWS,
        decreases RELOCATE_DRAWS - draws,
    {
        let found = place(taken, random_cell());
        if found.is_some() {
            return found;
        }
        draws = draws + 1;
    }
    first_free(taken)
}

/// Lets the cat eat. Where the head is on the food, the food moves to a cell
/// that no segment lies on, and the chain gains a body segment at its end.
/// Where the field has no such cell, the chain still grows and the food
/// stays under the head.
pub fn consume_food(chain: &mut Chain, food: &mut Food) -> (meal: Meal)
    requires
        well_formed(old(chain)@),
    ensures
        old(chain)@[0].cell != old(food).cell ==> {
            &&& meal == Meal::Missed
            &&& final(chain)@ == old(chain)@
            &&& *final(food) == *old(food)
        },
        old(chain)@[0].cell == old(food).cell ==> {
            &&& final(chain)@ == grown(old(chain)@)
            &&& meal == if is_full(cells_of(old(chain)@)) {
                Meal::BoardFull
            } else {
                Meal::Eaten
            }
            &&& meal == Meal::Eaten ==> is_free(cells_of(old(chain)@), final(food).cell)
            &&& meal == Meal::BoardFull ==> *final(food) == *old(food)
        },
        well_formed(final(chain)@),
{
    if chain.segments[0].cell != food.cell {
        return Meal::Missed;
    }
    let taken = chain.cells();
    let fresh = relocate(&taken);
    chain.grow();
    match fresh {
        Some(c) => {
            food.cell = c;
            Meal::Eaten
        },
        None => Meal::BoardFull,
    }
}

} // verus!
