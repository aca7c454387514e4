//! How a round is laid out when it begins.

use vstd::prelude::*;
use vstd::pervasive::unreached;
use crate::atlas::AtlasSprite;
use crate::cat::{cat_body, cat_head, cat_tail, cells_of, well_formed, Chain, Role, Segment};
use crate::direction::{Direction, Turn};
use crate::food::{is_free, relocate, Food};
use crate::grid::{Cell, GRID_CENTER_X, GRID_CENTER_Y};

verus! {

/// The chain at the beginning of a round: a head at the centre of the field,
/// one body segment and a tail to the left of it, all three going right.
pub open spec fn initial_chain() -> Seq<Segment> {
    seq![
        Segment {
            cell: Cell { x: GRID_CENTER_X, y: GRID_CENTER_Y },
            direction: Direction::Right,
            role: Role::Head,
            sprite: AtlasSprite::Head1,
            turn: Turn::Straight,
        },
        Segment {
            cell: Cell { x: (GRID_CENTER_X - 1) as i32, y: GRID_CENTER_Y },
            direction: Direction::Right,
            role: Role::Body,
            sprite: AtlasSprite::Body1,
            turn: Turn::Straight,
        },
        Segment {
            cell: Cell { x: (GRID_CENTER_X - 2) as i32, y: GRID_CENTER_Y },
            direction: Direction::Right,
            role: Role::Tail,
            sprite: AtlasSprite::Tail1,
            turn: Turn::Straight,
        },
    ]
}

/// Lays out a round: the chain in its first position, and food on a cell
/// drawn at random that no segment lies on.
pub fn spawn_level() -> (level: (Chain, Food))
    ensures
        level.0@ == initial_chain(),
        well_formed(level.0@),
        is_free(cells_of(level.0@), level.1.cell),
{
    let center = Cell { x: GRID_CENTER_X, y: GRID_CENTER_Y };
    let mut segments: Vec<Segment> = Vec::new();
    segments.push(cat_head(center, Direction::Right, AtlasSprite::Head1));
    segments.push(cat_body(center.shift(-1, 0), Direction::Right, AtlasSprite::Body1));
    segments.push(cat_tail(center.shift(-2, 0), Direction::Right, AtlasSprite::Tail1));
    let chain = Chain { segments };
    assert(chain@ =~= initial_chain());
    let taken = chain.cells();
    let fresh = relocate(&taken);
    let position = match fresh {
        Some(c) => c,
        None => {
            proof {
                let corner = Cell { x: 0, y: 0 };
                assert(corner.in_grid());
                assert(!taken@.contains(corner));
            }
            unreached()
        },
    };
    (chain, Food { cell: position })
}

/// Begins the round anew: the chain is back in its first position, and the
/// food lies on a cell drawn at random that no segment lies on.
pub fn reset_level(chain: &mut Chain, food: &mut Food)
    ensures
        final(chain)@ == initial_chain(),
        well_formed(final(chain)@),
        is_free(cells_of(final(chain)@), final(food).cell),
{
    let level = spawn_level();
    *chain = level.0;
    *food = level.1;
}

} // verus!
