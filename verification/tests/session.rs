use snake::game::App;
use snake::geom::{Block, Direction, Location};
use snake::grid::Grid;

fn session(grid: Grid, direction: Direction) -> App {
    App { grid, started: true, game_over: false, direction, want_direction: None }
}

fn small_session(direction: Direction) -> App {
    let grid = Grid::from_parts(
        4,
        4,
        vec![Block::new(Location::new(2, 2))],
        Block::new(Location::new(0, 0)),
    );
    session(grid, direction)
}

#[test]
fn fresh_session_defaults() {
    let a = App::new();
    assert!(a.started);
    assert!(!a.game_over);
    assert!(a.direction == Direction::Up);
    assert!(a.want_direction.is_none());
    assert_eq!(a.grid.snake.len(), 1);
}

#[test]
fn reversal_intent_is_rejected() {
    let mut a = small_session(Direction::Right);
    a.request_direction(Direction::Left);
    a.step();
    assert!(a.direction == Direction::Right);
    assert!(a.want_direction.is_none());
}

#[test]
fn sideways_intent_is_committed() {
    let mut a = small_session(Direction::Right);
    a.request_direction(Direction::Up);
    a.step();
    assert!(a.direction == Direction::Up);
    assert!(a.want_direction.is_none());
}

#[test]
fn rejected_reversal_is_not_retried() {
    let mut a = small_session(Direction::Right);
    a.request_direction(Direction::Left);
    a.update_direction();
    assert!(a.direction == Direction::Right);
    assert!(a.want_direction.is_none());
    a.update_direction();
    assert!(a.direction == Direction::Right);
}

#[test]
fn two_slide_steps_wrap_on_a_small_field() {
    let mut a = small_session(Direction::Right);
    a.step();
    assert_eq!(a.grid.snake.len(), 1);
    assert_eq!(a.grid.snake[0].loc, Location { x: 3, y: 2 });
    a.step();
    assert_eq!(a.grid.snake.len(), 1);
    assert_eq!(a.grid.snake[0].loc, Location { x: 0, y: 2 });
    assert!(!a.game_over);
}

#[test]
fn wrapping_onto_food_grows_the_snake() {
    // Head at (3,2) on a 4-wide field, food at (0,2), moving right: the head
    // wraps onto the food, the body becomes [(3,2), (0,2)], and fresh food
    // appears off the body.
    let grid = Grid::from_parts(
        4,
        4,
        vec![Block::new(Location::new(3, 2))],
        Block::new(Location::new(0, 2)),
    );
    let mut a = session(grid, Direction::Right);
    a.step();
    assert!(!a.game_over);
    assert_eq!(a.grid.snake.len(), 2);
    assert_eq!(a.grid.snake[0].loc, Location { x: 3, y: 2 });
    assert_eq!(a.grid.snake[1].loc, Location { x: 0, y: 2 });
    assert!(a.grid.new_block.loc.x < 4 && a.grid.new_block.loc.y < 4);
    assert!(a.grid.new_block.loc != a.grid.snake[0].loc);
    assert!(a.grid.new_block.loc != a.grid.snake[1].loc);
}

#[test]
fn stepping_into_the_body_ends_the_game() {
    // A 2x2 ring of body cells with the head at (1,2): moving up runs into
    // the segment at (1,1); the game ends and the grid stays as it was.
    let grid = Grid::from_parts(
        4,
        4,
        vec![
            Block::new(Location::new(1, 1)),
            Block::new(Location::new(2, 1)),
            Block::new(Location::new(2, 2)),
            Block::new(Location::new(1, 2)),
        ],
        Block::new(Location::new(0, 0)),
    );
    let mut a = session(grid, Direction::Up);
    a.step();
    assert!(a.game_over);
    assert_eq!(a.grid.snake.len(), 4);
    assert_eq!(a.grid.snake[0].loc, Location { x: 1, y: 1 });
    assert_eq!(a.grid.snake[3].loc, Location { x: 1, y: 2 });
    assert_eq!(a.grid.new_block.loc, Location { x: 0, y: 0 });
}

#[test]
fn pause_stops_the_simulation() {
    let mut a = small_session(Direction::Right);
    a.toggle_pause();
    assert!(!a.started);
    a.step();
    assert_eq!(a.grid.snake[0].loc, Location { x: 2, y: 2 });
    a.toggle_pause();
    assert!(a.started);
    a.step();
    assert_eq!(a.grid.snake[0].loc, Location { x: 3, y: 2 });
}

#[test]
fn pause_toggle_after_game_over_has_no_simulation_effect() {
    let grid = Grid::from_parts(
        4,
        4,
        vec![
            Block::new(Location::new(1, 1)),
            Block::new(Location::new(2, 1)),
            Block::new(Location::new(2, 2)),
            Block::new(Location::new(1, 2)),
        ],
        Block::new(Location::new(0, 0)),
    );
    let mut a = session(grid, Direction::Up);
    a.step();
    assert!(a.game_over);
    let body_before: Vec<Location> = a.grid.snake.iter().map(|b| b.loc).collect();
    let food_before = a.grid.new_block.loc;
    a.toggle_pause();
    a.step();
    a.toggle_pause();
    a.step();
    let body_after: Vec<Location> = a.grid.snake.iter().map(|b| b.loc).collect();
    assert!(a.game_over);
    assert_eq!(body_before, body_after);
    assert_eq!(food_before, a.grid.new_block.loc);
}

#[test]
fn filling_the_field_ends_the_game() {
    // One row of two cells: eating the food leaves no cell for fresh food,
    // so the grown body fills the field and the session ends.
    let grid = Grid::from_parts(
        1,
        2,
        vec![Block::new(Location::new(0, 0))],
        Block::new(Location::new(1, 0)),
    );
    let mut a = session(grid, Direction::Right);
    a.step();
    assert!(a.game_over);
    assert_eq!(a.grid.snake.len(), 2);
    assert_eq!(a.grid.snake[0].loc, Location { x: 0, y: 0 });
    assert_eq!(a.grid.snake[1].loc, Location { x: 1, y: 0 });
}

#[test]
fn reset_starts_a_fresh_session() {
    let mut a = small_session(Direction::Right);
    a.step();
    a.request_direction(Direction::Down);
    a.game_over = true;
    a.reset();
    assert!(a.started);
    assert!(!a.game_over);
    assert!(a.direction == Direction::Up);
    assert!(a.want_direction.is_none());
    assert_eq!(a.grid.rows, snake::ROWS);
    assert_eq!(a.grid.cols, snake::COLS);
    assert_eq!(a.grid.snake.len(), 1);
    assert_eq!(a.grid.snake[0].loc, Location { x: snake::COLS / 2, y: snake::ROWS / 2 });
}

#[test]
fn slide_through_session_frees_the_tail() {
    let grid = Grid::from_parts(
        5,
        5,
        vec![Block::new(Location::new(1, 1)), Block::new(Location::new(2, 1))],
        Block::new(Location::new(4, 4)),
    );
    let mut a = session(grid, Direction::Down);
    a.step();
    assert!(!a.game_over);
    assert_eq!(a.grid.snake.len(), 2);
    assert_eq!(a.grid.snake[0].loc, Location { x: 2, y: 1 });
    assert_eq!(a.grid.snake[1].loc, Location { x: 2, y: 2 });
    assert!(!a.grid.contains(&Block::new(Location::new(1, 1))));
}
