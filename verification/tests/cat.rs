use cat_snake::atlas::AtlasSprite;
use cat_snake::cat::{cat_body, cat_head, cat_tail, Chain, Role, Segment};
use cat_snake::direction::{Direction, Turn};
use cat_snake::grid::cell;

fn three_going_right() -> Chain {
    Chain {
        segments: vec![
            cat_head(cell(5, 5), Direction::Right, AtlasSprite::Head1),
            cat_body(cell(4, 5), Direction::Right, AtlasSprite::Body1),
            cat_tail(cell(3, 5), Direction::Right, AtlasSprite::Tail1),
        ],
    }
}

fn hook() -> Chain {
    // The head at (5, 5) goes up into the cell that the second body
    // segment holds.
    Chain {
        segments: vec![
            cat_head(cell(5, 5), Direction::Up, AtlasSprite::Head1),
            cat_body(cell(4, 5), Direction::Right, AtlasSprite::Body1),
            cat_body(cell(4, 6), Direction::Down, AtlasSprite::Body2),
            cat_body(cell(5, 6), Direction::Left, AtlasSprite::Body2),
            cat_body(cell(6, 6), Direction::Left, AtlasSprite::Body1),
            cat_tail(cell(7, 6), Direction::Left, AtlasSprite::Tail1),
        ],
    }
}

#[test]
fn builders_set_the_role_and_leave_the_segment_straight() {
    let h = cat_head(cell(1, 2), Direction::Up, AtlasSprite::Head2);
    assert_eq!(
        h,
        Segment {
            cell: cell(1, 2),
            direction: Direction::Up,
            role: Role::Head,
            sprite: AtlasSprite::Head2,
            turn: Turn::Straight,
        }
    );
    assert_eq!(cat_body(cell(1, 2), Direction::Up, AtlasSprite::Body1).role, Role::Body);
    assert_eq!(cat_tail(cell(1, 2), Direction::Up, AtlasSprite::Tail1).role, Role::Tail);
    assert_eq!(cat_tail(cell(1, 2), Direction::Left, AtlasSprite::Tail2).sprite, AtlasSprite::Tail2);
}

#[test]
fn well_formed_chains_are_told_from_others() {
    assert!(three_going_right().is_well_formed());
    assert!(hook().is_well_formed());
    let two = Chain {
        segments: vec![
            cat_head(cell(0, 0), Direction::Left, AtlasSprite::Head1),
            cat_tail(cell(1, 0), Direction::Left, AtlasSprite::Tail1),
        ],
    };
    assert!(two.is_well_formed());
    assert!(!Chain { segments: vec![] }.is_well_formed());
    assert!(!Chain { segments: vec![cat_head(cell(0, 0), Direction::Left, AtlasSprite::Head1)] }
        .is_well_formed());
    let mut no_tail = three_going_right();
    no_tail.segments[2].role = Role::Body;
    assert!(!no_tail.is_well_formed());
    assert!(no_tail.is_valid());
    let mut two_heads = three_going_right();
    two_heads.segments[1].role = Role::Head;
    assert!(!two_heads.is_well_formed());
    assert!(!two_heads.is_valid());
    let mut tail_in_the_middle = hook();
    tail_in_the_middle.segments[2].role = Role::Tail;
    assert!(!tail_in_the_middle.is_well_formed());
    assert!(tail_in_the_middle.is_valid());
    let mut off_the_field = three_going_right();
    off_the_field.segments[1].cell = cell(20, 5);
    assert!(!off_the_field.is_well_formed());
    assert!(!off_the_field.is_valid());
    let mut body_first = three_going_right();
    body_first.segments[0].role = Role::Body;
    assert!(!body_first.is_valid());
}

#[test]
fn cells_and_occupancy_follow_the_segments() {
    let chain = three_going_right();
    assert_eq!(chain.len(), 3);
    assert_eq!(chain.cells(), vec![cell(5, 5), cell(4, 5), cell(3, 5)]);
    assert!(chain.occupies(cell(5, 5)));
    assert!(chain.occupies(cell(3, 5)));
    assert!(!chain.occupies(cell(6, 5)));
    assert!(!chain.blocks(cell(5, 5)));
    assert!(chain.blocks(cell(4, 5)));
    assert!(chain.blocks(cell(3, 5)));
    assert!(!chain.blocks(cell(2, 5)));
}

#[test]
fn one_move_advances_the_chain_by_one_cell() {
    let mut chain = three_going_right();
    chain.move_cat();
    assert_eq!(chain.cells(), vec![cell(6, 5), cell(5, 5), cell(4, 5)]);
    for s in &chain.segments {
        assert_eq!(s.direction, Direction::Right);
        assert_eq!(s.turn, Turn::Straight);
    }
    assert_eq!(chain.segments[0].role, Role::Head);
    assert_eq!(chain.segments[1].role, Role::Body);
    assert_eq!(chain.segments[2].role, Role::Tail);
    assert!(chain.is_well_formed());
}

#[test]
fn the_frames_of_head_and_tail_alternate() {
    let mut chain = three_going_right();
    chain.move_cat();
    assert_eq!(chain.segments[0].sprite, AtlasSprite::Head2);
    assert_eq!(chain.segments[1].sprite, AtlasSprite::Body1);
    assert_eq!(chain.segments[2].sprite, AtlasSprite::Tail2);
    chain.move_cat();
    assert_eq!(chain.segments[0].sprite, AtlasSprite::Head1);
    assert_eq!(chain.segments[2].sprite, AtlasSprite::Tail1);
    chain.segments[0].sprite = AtlasSprite::Head4;
    chain.move_cat();
    assert_eq!(chain.segments[0].sprite, AtlasSprite::Head1);
}

#[test]
fn a_move_goes_around_the_edge() {
    let mut chain = Chain {
        segments: vec![
            cat_head(cell(19, 9), Direction::Right, AtlasSprite::Head1),
            cat_body(cell(18, 9), Direction::Right, AtlasSprite::Body1),
            cat_tail(cell(17, 9), Direction::Right, AtlasSprite::Tail1),
        ],
    };
    chain.move_cat();
    assert_eq!(chain.cells(), vec![cell(0, 9), cell(19, 9), cell(18, 9)]);
    chain.segments[0].direction = Direction::Up;
    chain.move_cat();
    assert_eq!(chain.cells(), vec![cell(0, 0), cell(0, 9), cell(19, 9)]);
}

#[test]
fn headings_pass_down_the_chain_one_segment_per_move() {
    let mut chain = Chain {
        segments: vec![
            cat_head(cell(5, 5), Direction::Up, AtlasSprite::Head1),
            cat_body(cell(4, 5), Direction::Right, AtlasSprite::Body1),
            cat_body(cell(3, 5), Direction::Right, AtlasSprite::Body1),
            cat_tail(cell(2, 5), Direction::Right, AtlasSprite::Tail1),
        ],
    };
    chain.move_cat();
    assert_eq!(chain.cells(), vec![cell(5, 6), cell(5, 5), cell(4, 5), cell(3, 5)]);
    let dirs: Vec<Direction> = chain.segments.iter().map(|s| s.direction).collect();
    assert_eq!(dirs, vec![Direction::Up, Direction::Up, Direction::Right, Direction::Right]);
    chain.move_cat();
    assert_eq!(chain.cells(), vec![cell(5, 7), cell(5, 6), cell(5, 5), cell(4, 5)]);
    let dirs: Vec<Direction> = chain.segments.iter().map(|s| s.direction).collect();
    assert_eq!(dirs, vec![Direction::Up, Direction::Up, Direction::Up, Direction::Right]);
    chain.move_cat();
    let dirs: Vec<Direction> = chain.segments.iter().map(|s| s.direction).collect();
    assert_eq!(dirs, vec![Direction::Up, Direction::Up, Direction::Up, Direction::Up]);
}

#[test]
fn a_turn_makes_a_corner_that_straightens_again() {
    // The chain goes right and its head has just turned up.
    let mut chain = three_going_right();
    chain.segments[0].direction = Direction::Up;
    chain.move_cat();
    assert_eq!(chain.segments[1].cell, cell(5, 5));
    assert_eq!(chain.segments[1].turn, Turn::Counterclockwise);
    assert_ne!(chain.segments[1].turn, Turn::Straight);
    assert_eq!(chain.segments[1].sprite, AtlasSprite::Body2);
    assert_ne!(Direction::Right.perp_dot(Direction::Up), 0);
    // The head goes on upwards: the same heading reaches the segment again.
    chain.move_cat();
    assert_eq!(chain.segments[1].turn, Turn::Straight);
    assert_eq!(chain.segments[1].sprite, AtlasSprite::Body1);
    assert_eq!(Direction::Up.perp_dot(Direction::Up), 0);
}

#[test]
fn a_turn_to_the_right_hand_is_clockwise() {
    let mut chain = three_going_right();
    chain.segments[0].direction = Direction::Down;
    chain.move_cat();
    assert_eq!(chain.segments[1].turn, Turn::Clockwise);
    assert_eq!(chain.segments[1].sprite, AtlasSprite::Body2);
    assert_eq!(chain.segments[2].turn, Turn::Straight);
    assert_eq!(chain.segments[0].turn, Turn::Straight);
}

#[test]
fn the_mouth_opens_ahead_and_to_both_sides() {
    for food in [cell(6, 5), cell(5, 6), cell(5, 4)] {
        let mut chain = three_going_right();
        chain.open_mouth_if_near_food(food);
        assert_eq!(chain.segments[0].sprite, AtlasSprite::Head3, "{:?}", food);
        let mut chain = three_going_right();
        chain.segments[0].sprite = AtlasSprite::Head2;
        chain.open_mouth_if_near_food(food);
        assert_eq!(chain.segments[0].sprite, AtlasSprite::Head4, "{:?}", food);
        assert_eq!(chain.segments[1..], three_going_right().segments[1..]);
    }
}

#[test]
fn the_mouth_stays_shut_elsewhere() {
    for food in [cell(7, 5), cell(6, 6), cell(4, 4), cell(5, 5), cell(0, 0)] {
        let mut chain = three_going_right();
        chain.open_mouth_if_near_food(food);
        assert_eq!(chain, three_going_right(), "{:?}", food);
    }
}

#[test]
fn the_mouth_opens_across_the_edge() {
    let mut chain = Chain {
        segments: vec![
            cat_head(cell(19, 0), Direction::Right, AtlasSprite::Head1),
            cat_body(cell(18, 0), Direction::Right, AtlasSprite::Body1),
            cat_tail(cell(17, 0), Direction::Right, AtlasSprite::Tail1),
        ],
    };
    chain.open_mouth_if_near_food(cell(0, 0));
    assert_eq!(chain.segments[0].sprite, AtlasSprite::Head3);
    chain.segments[0].sprite = AtlasSprite::Head1;
    chain.open_mouth_if_near_food(cell(19, 9));
    assert_eq!(chain.segments[0].sprite, AtlasSprite::Head3);
}

#[test]
fn growing_adds_a_copy_of_the_tail_before_the_tail() {
    let mut chain = three_going_right();
    chain.segments[2].sprite = AtlasSprite::Tail2;
    chain.grow();
    assert_eq!(chain.len(), 4);
    assert_eq!(chain.segments[0], three_going_right().segments[0]);
    assert_eq!(chain.segments[1], three_going_right().segments[1]);
    assert_eq!(
        chain.segments[2],
        Segment {
            cell: cell(3, 5),
            direction: Direction::Right,
            role: Role::Body,
            sprite: AtlasSprite::Tail2,
            turn: Turn::Straight,
        }
    );
    assert_eq!(chain.segments[3], cat_tail(cell(3, 5), Direction::Right, AtlasSprite::Tail2));
    assert!(chain.is_well_formed());
}

#[test]
fn after_growing_the_tail_waits_one_move() {
    let mut chain = three_going_right();
    chain.grow();
    chain.move_cat();
    assert_eq!(chain.cells(), vec![cell(6, 5), cell(5, 5), cell(4, 5), cell(3, 5)]);
    assert_eq!(chain.segments[2].sprite, AtlasSprite::Body1);
    chain.move_cat();
    assert_eq!(chain.cells(), vec![cell(7, 5), cell(6, 5), cell(5, 5), cell(4, 5)]);
}

#[test]
fn no_hit_changes_nothing() {
    let mut chain = three_going_right();
    assert!(!chain.handle_hit());
    assert_eq!(chain, three_going_right());
}

#[test]
fn a_hit_removes_one_segment_and_takes_the_head_back() {
    let mut chain = hook();
    chain.move_cat();
    assert_eq!(chain.segments[0].cell, cell(5, 6));
    assert_eq!(chain.segments[3].cell, cell(4, 6));
    assert_eq!(chain.segments[4].cell, cell(5, 6));
    let moved = chain.clone();
    assert!(chain.handle_hit());
    assert_eq!(chain.len(), 5);
    assert_eq!(chain.segments[0].cell, cell(5, 5));
    assert_eq!(chain.segments[0].direction, Direction::Up);
    assert_eq!(chain.segments[0].sprite, AtlasSprite::Head5);
    assert_eq!(chain.segments[0].role, Role::Head);
    assert_eq!(chain.segments[1..4], moved.segments[1..4]);
    assert_eq!(chain.segments[4], moved.segments[5]);
    assert!(chain.is_valid());
}

#[test]
fn of_two_segments_in_the_cell_of_the_head_the_first_goes() {
    let mut chain = Chain {
        segments: vec![
            cat_head(cell(5, 5), Direction::Right, AtlasSprite::Head2),
            cat_body(cell(4, 5), Direction::Right, AtlasSprite::Body1),
            cat_body(cell(5, 5), Direction::Up, AtlasSprite::Body2),
            cat_tail(cell(5, 5), Direction::Down, AtlasSprite::Tail1),
        ],
    };
    assert!(chain.handle_hit());
    assert_eq!(
        chain.segments,
        vec![
            cat_head(cell(4, 5), Direction::Right, AtlasSprite::Head5),
            cat_body(cell(4, 5), Direction::Right, AtlasSprite::Body1),
            cat_tail(cell(5, 5), Direction::Down, AtlasSprite::Tail1),
        ]
    );
}

#[test]
fn a_hit_on_the_tail_leaves_a_chain_without_a_tail() {
    let mut chain = Chain {
        segments: vec![
            cat_head(cell(0, 0), Direction::Left, AtlasSprite::Head1),
            cat_body(cell(1, 0), Direction::Left, AtlasSprite::Body1),
            cat_tail(cell(0, 0), Direction::Up, AtlasSprite::Tail1),
        ],
    };
    assert!(chain.handle_hit());
    assert_eq!(chain.len(), 2);
    assert_eq!(chain.segments[0].cell, cell(1, 0));
    assert_eq!(chain.segments[1].role, Role::Body);
    assert!(chain.is_valid());
    assert!(!chain.is_well_formed());
}
