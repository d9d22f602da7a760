use snake::geom::{Block, Direction, Location};
use snake::grid::Grid;

#[test]
fn new_field_has_centered_single_block_snake() {
    let g = Grid::new();
    assert_eq!(g.rows, snake::ROWS);
    assert_eq!(g.cols, snake::COLS);
    assert_eq!(g.snake.len(), 1);
    assert_eq!(g.snake[0].loc, Location { x: snake::COLS / 2, y: snake::ROWS / 2 });
    assert!(g.contains(&g.snake[0]));
}

#[test]
fn new_field_food_is_in_bounds_and_off_the_snake() {
    let g = Grid::new();
    assert!(g.new_block.loc.x < g.cols);
    assert!(g.new_block.loc.y < g.rows);
    assert!(g.new_block.loc != g.snake[0].loc);
    assert!(g.contains(&g.new_block));
}

#[test]
fn bounds_predicates() {
    let g = Grid::from_parts(
        4,
        4,
        vec![Block::new(Location::new(2, 2))],
        Block::new(Location::new(0, 0)),
    );
    assert!(g.valid(0, 0));
    assert!(g.valid(3, 3));
    assert!(!g.valid(4, 0));
    assert!(!g.valid(0, 4));
    assert!(g.valid_x(3));
    assert!(!g.valid_x(4));
    assert!(g.valid_y(3));
    assert!(!g.valid_y(4));
}

#[test]
fn contains_reports_occupancy() {
    let g = Grid::from_parts(
        4,
        4,
        vec![Block::new(Location::new(2, 2))],
        Block::new(Location::new(0, 0)),
    );
    assert!(g.contains(&Block::new(Location::new(2, 2))));
    assert!(g.contains(&Block::new(Location::new(0, 0))));
    assert!(!g.contains(&Block::new(Location::new(1, 1))));
    assert!(!g.contains(&Block::new(Location::new(4, 2))));
}

#[test]
fn insert_marks_a_cell() {
    let mut g = Grid::from_parts(
        4,
        4,
        vec![Block::new(Location::new(2, 2))],
        Block::new(Location::new(0, 0)),
    );
    let b = Block::new(Location::new(3, 1));
    assert!(!g.contains(&b));
    g.insert(b);
    assert!(g.contains(&b));
}

#[test]
fn head_is_last_segment() {
    let g = Grid::from_parts(
        4,
        4,
        vec![Block::new(Location::new(1, 2)), Block::new(Location::new(2, 2))],
        Block::new(Location::new(0, 0)),
    );
    assert_eq!(g.head().loc, Location { x: 2, y: 2 });
}

#[test]
fn two_slides_wrap_around_a_small_field() {
    // A snake of one block at (2,2) moving right on a 4-by-4 torus: the head
    // reaches (3,2), then wraps to (0,2).
    let mut g = Grid::from_parts(
        4,
        4,
        vec![Block::new(Location::new(2, 2))],
        Block::new(Location::new(0, 0)),
    );
    g.move_snake(Direction::Right);
    assert_eq!(g.snake.len(), 1);
    assert_eq!(g.snake[0].loc, Location { x: 3, y: 2 });
    assert!(!g.contains(&Block::new(Location::new(2, 2))));
    g.move_snake(Direction::Right);
    assert_eq!(g.snake.len(), 1);
    assert_eq!(g.snake[0].loc, Location { x: 0, y: 2 });
    assert!(!g.contains(&Block::new(Location::new(3, 2))));
}

#[test]
fn slide_shifts_every_segment_and_frees_the_tail() {
    let mut g = Grid::from_parts(
        5,
        5,
        vec![
            Block::new(Location::new(1, 1)),
            Block::new(Location::new(2, 1)),
            Block::new(Location::new(3, 1)),
        ],
        Block::new(Location::new(0, 0)),
    );
    g.move_snake(Direction::Down);
    let locs: Vec<Location> = g.snake.iter().map(|b| b.loc).collect();
    assert_eq!(
        locs,
        vec![Location { x: 2, y: 1 }, Location { x: 3, y: 1 }, Location { x: 3, y: 2 }]
    );
    assert!(!g.contains(&Block::new(Location::new(1, 1))));
    assert!(g.contains(&Block::new(Location::new(3, 2))));
}

#[test]
fn grow_keeps_the_tail_and_respawns_food() {
    let mut g = Grid::from_parts(
        3,
        3,
        vec![Block::new(Location::new(1, 1))],
        Block::new(Location::new(2, 1)),
    );
    let food = g.new_block;
    g.add_to_snake(food);
    g.add_block();
    assert_eq!(g.snake.len(), 2);
    assert_eq!(g.snake[0].loc, Location { x: 1, y: 1 });
    assert_eq!(g.snake[1].loc, Location { x: 2, y: 1 });
    // the fresh food is in bounds and on none of the body cells
    assert!(g.new_block.loc.x < 3 && g.new_block.loc.y < 3);
    assert!(g.new_block.loc != g.snake[0].loc);
    assert!(g.new_block.loc != g.snake[1].loc);
    assert!(g.contains(&g.new_block));
}

#[test]
fn food_lands_on_the_only_free_cell() {
    // One row of three cells, two of them about to be the body: the fresh
    // food can only land on (2,0), whatever the generator draws.
    let mut g = Grid::from_parts(
        1,
        3,
        vec![Block::new(Location::new(0, 0))],
        Block::new(Location::new(1, 0)),
    );
    let food = g.new_block;
    g.add_to_snake(food);
    g.add_block();
    assert_eq!(g.new_block.loc, Location { x: 2, y: 0 });
}
