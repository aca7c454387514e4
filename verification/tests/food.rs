use cat_snake::atlas::AtlasSprite;
use cat_snake::cat::{cat_body, cat_head, cat_tail, Chain, Role};
use cat_snake::direction::Direction;
use cat_snake::food::{
    consume_food, contains_cell, first_free, food, place, random_cell, relocate, Food, Meal,
    RELOCATE_DRAWS,
};
use cat_snake::grid::{cell, Cell, GRID_HEIGHT, GRID_WIDTH};
use cat_snake::level::{reset_level, spawn_level};

fn all_cells() -> Vec<Cell> {
    let mut v = Vec::new();
    for y in 0..GRID_HEIGHT {
        for x in 0..GRID_WIDTH {
            v.push(cell(x, y));
        }
    }
    v
}

fn all_cells_but(free: Cell) -> Vec<Cell> {
    all_cells().into_iter().filter(|c| *c != free).collect()
}

/// The cells of the field along a path that winds through every row.
fn winding_path() -> Vec<Cell> {
    let mut v = Vec::new();
    for y in 0..GRID_HEIGHT {
        for i in 0..GRID_WIDTH {
            let x = if y % 2 == 0 { i } else { GRID_WIDTH - 1 - i };
            v.push(cell(x, y));
        }
    }
    v
}

fn three_going_right() -> Chain {
    Chain {
        segments: vec![
            cat_head(cell(5, 5), Direction::Right, AtlasSprite::Head1),
            cat_body(cell(4, 5), Direction::Right, AtlasSprite::Body1),
            cat_tail(cell(3, 5), Direction::Right, AtlasSprite::Tail1),
        ],
    }
}

#[test]
fn food_lies_where_it_is_put() {
    assert_eq!(food(cell(3, 4)), Food { cell: cell(3, 4) });
}

#[test]
fn random_cells_lie_on_the_field() {
    let mut seen_x = [false; 20];
    let mut seen_y = [false; 10];
    for _ in 0..2000 {
        let c = random_cell();
        assert!(c.is_in_grid(), "{:?}", c);
        seen_x[c.x as usize] = true;
        seen_y[c.y as usize] = true;
    }
    assert!(seen_x.iter().all(|s| *s));
    assert!(seen_y.iter().all(|s| *s));
}

#[test]
fn contains_cell_finds_what_is_there() {
    let taken = vec![cell(1, 1), cell(2, 2)];
    assert!(contains_cell(&taken, cell(1, 1)));
    assert!(contains_cell(&taken, cell(2, 2)));
    assert!(!contains_cell(&taken, cell(1, 2)));
    assert!(!contains_cell(&vec![], cell(0, 0)));
}

#[test]
fn place_takes_a_free_cell_and_refuses_others() {
    let taken = vec![cell(1, 1), cell(2, 2)];
    assert_eq!(place(&taken, cell(3, 3)), Some(cell(3, 3)));
    assert_eq!(place(&taken, cell(1, 1)), None);
    assert_eq!(place(&taken, cell(2, 2)), None);
    assert_eq!(place(&taken, cell(20, 3)), None);
    assert_eq!(place(&taken, cell(3, -1)), None);
    assert_eq!(place(&vec![], cell(0, 0)), Some(cell(0, 0)));
}

#[test]
fn first_free_reads_the_field_row_by_row() {
    assert_eq!(first_free(&vec![]), Some(cell(0, 0)));
    assert_eq!(first_free(&vec![cell(0, 0), cell(1, 0)]), Some(cell(2, 0)));
    let first_row: Vec<Cell> = (0..GRID_WIDTH).map(|x| cell(x, 0)).collect();
    assert_eq!(first_free(&first_row), Some(cell(0, 1)));
    assert_eq!(first_free(&all_cells_but(cell(7, 3))), Some(cell(7, 3)));
    assert_eq!(first_free(&all_cells_but(cell(19, 9))), Some(cell(19, 9)));
    assert_eq!(first_free(&all_cells()), None);
}

#[test]
fn relocate_finds_a_free_cell() {
    let taken = vec![cell(5, 5), cell(4, 5), cell(3, 5)];
    for _ in 0..500 {
        let c = relocate(&taken).unwrap();
        assert!(c.is_in_grid());
        assert!(!taken.contains(&c));
    }
}

#[test]
fn relocate_finds_the_only_free_cell() {
    assert_eq!(RELOCATE_DRAWS, 64);
    for free in [cell(0, 0), cell(13, 4), cell(19, 9)] {
        for _ in 0..20 {
            assert_eq!(relocate(&all_cells_but(free)), Some(free));
        }
    }
}

#[test]
fn relocate_gives_nothing_on_a_full_field() {
    assert_eq!(relocate(&all_cells()), None);
}

#[test]
fn relocate_reaches_more_than_one_cell() {
    let mut seen = Vec::new();
    for _ in 0..200 {
        let c = relocate(&vec![]).unwrap();
        if !seen.contains(&c) {
            seen.push(c);
        }
    }
    assert!(seen.len() > 1);
}

#[test]
fn a_level_begins_with_three_segments_and_food_beside_them() {
    for _ in 0..300 {
        let (chain, food) = spawn_level();
        assert_eq!(
            chain.segments,
            vec![
                cat_head(cell(10, 5), Direction::Right, AtlasSprite::Head1),
                cat_body(cell(9, 5), Direction::Right, AtlasSprite::Body1),
                cat_tail(cell(8, 5), Direction::Right, AtlasSprite::Tail1),
            ]
        );
        assert!(chain.is_well_formed());
        assert!(food.cell.is_in_grid());
        assert!(!chain.occupies(food.cell));
    }
}

#[test]
fn reset_level_lays_the_level_out_again() {
    let mut chain = three_going_right();
    chain.grow();
    let mut food = Food { cell: cell(5, 5) };
    reset_level(&mut chain, &mut food);
    assert_eq!(chain.cells(), vec![cell(10, 5), cell(9, 5), cell(8, 5)]);
    assert!(!chain.occupies(food.cell));
    assert!(food.cell.is_in_grid());
}

#[test]
fn food_elsewhere_is_missed() {
    let mut chain = three_going_right();
    let mut food = Food { cell: cell(6, 5) };
    assert_eq!(consume_food(&mut chain, &mut food), Meal::Missed);
    assert_eq!(chain, three_going_right());
    assert_eq!(food, Food { cell: cell(6, 5) });
    let mut food = Food { cell: cell(4, 5) };
    assert_eq!(consume_food(&mut chain, &mut food), Meal::Missed);
    assert_eq!(chain, three_going_right());
}

#[test]
fn food_under_the_head_is_eaten_and_laid_out_anew() {
    for _ in 0..300 {
        let mut chain = three_going_right();
        let mut food = Food { cell: cell(5, 5) };
        assert_eq!(consume_food(&mut chain, &mut food), Meal::Eaten);
        assert_eq!(chain.len(), 4);
        assert_eq!(chain.cells(), vec![cell(5, 5), cell(4, 5), cell(3, 5), cell(3, 5)]);
        assert_eq!(chain.segments[2].role, Role::Body);
        assert_eq!(chain.segments[3].role, Role::Tail);
        assert!(food.cell.is_in_grid());
        assert!(!chain.occupies(food.cell));
    }
}

#[test]
fn on_a_full_field_the_food_stays_and_the_chain_still_grows() {
    let path = winding_path();
    let n = path.len();
    let mut segments = vec![cat_head(path[n - 1], Direction::Left, AtlasSprite::Head1)];
    for i in (1..n - 1).rev() {
        segments.push(cat_body(path[i], Direction::Right, AtlasSprite::Body1));
    }
    segments.push(cat_tail(path[0], Direction::Right, AtlasSprite::Tail1));
    let mut chain = Chain { segments };
    assert!(chain.is_well_formed());
    assert_eq!(chain.len(), 200);
    let mut food = Food { cell: path[n - 1] };
    assert_eq!(consume_food(&mut chain, &mut food), Meal::BoardFull);
    assert_eq!(food, Food { cell: path[n - 1] });
    assert_eq!(chain.len(), 201);
    assert!(chain.is_well_formed());
}
