use snake::{Direction, Game, Position, SnakeError, GRID_HEIGHT, GRID_WIDTH, SPAWN_X, SPAWN_Y};

fn pos(x: i32, y: i32) -> Position {
    Position { x, y }
}

fn game_with(segments: Vec<Position>, direction: Direction) -> Game {
    let mut g = Game::new();
    g.segments = segments;
    g.direction = direction;
    g.moved_heading = direction;
    g
}

fn spawn() -> Vec<Position> {
    vec![pos(SPAWN_X, SPAWN_Y), pos(SPAWN_X, SPAWN_Y - 1)]
}

#[test]
fn new_game_is_spawn_configuration() {
    let g = Game::new();
    assert_eq!(g.segments, vec![pos(3, 3), pos(3, 2)]);
    assert_eq!(g.direction, Direction::Up);
    assert_eq!(g.moved_heading, Direction::Up);
    assert!(g.foods.is_empty());
    assert_eq!(g.last_tail, None);
}

#[test]
fn opposite_pairs() {
    assert_eq!(Direction::Up.opposite(), Direction::Down);
    assert_eq!(Direction::Down.opposite(), Direction::Up);
    assert_eq!(Direction::Left.opposite(), Direction::Right);
    assert_eq!(Direction::Right.opposite(), Direction::Left);
}

#[test]
fn in_grid_edges() {
    assert!(pos(0, 0).in_grid());
    assert!(pos(GRID_WIDTH - 1, GRID_HEIGHT - 1).in_grid());
    assert!(!pos(-1, 0).in_grid());
    assert!(!pos(0, -1).in_grid());
    assert!(!pos(GRID_WIDTH, 0).in_grid());
    assert!(!pos(0, GRID_HEIGHT).in_grid());
}

#[test]
fn tick_moves_and_eats_then_grows() {
    let mut g = Game::new();
    g.place_food(pos(3, 4));
    let ev = g.tick();
    assert!(!ev.game_over);
    assert_eq!(ev.growth_signals, 1);
    assert!(g.foods.is_empty());
    assert_eq!(g.segments, vec![pos(3, 4), pos(3, 3), pos(3, 2)]);
}

#[test]
fn movement_without_food() {
    let mut g = Game::new();
    let over = g.snake_movement();
    assert!(!over);
    assert_eq!(g.segments, vec![pos(3, 4), pos(3, 3)]);
    assert_eq!(g.last_tail, Some(pos(3, 2)));
}

#[test]
fn reverse_request_rejected() {
    let mut g = Game::new();
    g.snake_movement_input(false, false, false, true);
    assert_eq!(g.direction, Direction::Up);
}

#[test]
fn reversal_over_several_frames_rejected() {
    let mut g = Game::new();
    g.snake_movement_input(false, true, false, false);
    assert_eq!(g.direction, Direction::Left);
    g.snake_movement_input(false, false, false, true);
    assert_eq!(g.direction, Direction::Left);
    g.snake_movement_input(false, false, true, false);
    assert_eq!(g.direction, Direction::Left);
    g.snake_movement();
    assert_eq!(g.moved_heading, Direction::Left);
    assert_eq!(g.segments, vec![pos(2, 3), pos(3, 3)]);
    g.snake_movement_input(false, false, true, false);
    assert_eq!(g.direction, Direction::Left);
    g.snake_movement_input(true, false, false, false);
    assert_eq!(g.direction, Direction::Up);
}

#[test]
fn moving_an_empty_snake_changes_nothing() {
    let mut g = game_with(Vec::new(), Direction::Left);
    assert!(!g.snake_movement());
    assert!(g.segments.is_empty());
    assert_eq!(g.last_tail, None);
    assert_eq!(g.moved_heading, Direction::Left);
}

#[test]
fn tick_records_vacated_tail_and_heading() {
    let mut g = Game::new();
    g.snake_movement_input(false, false, true, false);
    let ev = g.tick();
    assert!(!ev.game_over);
    assert_eq!(g.last_tail, Some(pos(3, 2)));
    assert_eq!(g.moved_heading, Direction::Right);
    assert_eq!(g.segments, vec![pos(4, 3), pos(3, 3)]);
}

#[test]
fn input_priority_and_no_key() {
    let mut g = Game::new();
    g.snake_movement_input(false, false, false, false);
    assert_eq!(g.direction, Direction::Up);
    g.snake_movement_input(false, true, true, false);
    assert_eq!(g.direction, Direction::Left);
    g.snake_movement_input(false, false, true, false);
    assert_eq!(g.direction, Direction::Left);
    g.snake_movement_input(true, false, false, true);
    assert_eq!(g.direction, Direction::Up);
}

#[test]
fn heading_never_becomes_opposite() {
    let dirs = [Direction::Up, Direction::Left, Direction::Right, Direction::Down];
    for d in dirs {
        for mask in 0u8..16 {
            let mut g = game_with(spawn(), d);
            g.snake_movement_input(mask & 1 != 0, mask & 2 != 0, mask & 4 != 0, mask & 8 != 0);
            assert_ne!(g.direction, d.opposite());
        }
    }
}

#[test]
fn leaving_the_board_resets() {
    let mut g = game_with(vec![pos(0, 0)], Direction::Left);
    g.place_food(pos(5, 5));
    let mut probe = game_with(vec![pos(0, 0)], Direction::Left);
    assert!(probe.snake_movement());
    assert_eq!(probe.segments, vec![pos(-1, 0)]);
    let ev = g.tick();
    assert!(ev.game_over);
    assert_eq!(g.segments, spawn());
    assert_eq!(g.direction, Direction::Up);
    assert!(g.foods.is_empty());
}

#[test]
fn leaving_the_top_edge_is_game_over() {
    let mut g = game_with(vec![pos(4, GRID_HEIGHT - 1), pos(4, GRID_HEIGHT - 2)], Direction::Up);
    assert!(g.snake_movement());
    assert_eq!(g.segments, vec![pos(4, GRID_HEIGHT), pos(4, GRID_HEIGHT - 1)]);
}

#[test]
fn running_into_the_body_is_game_over() {
    let body = vec![pos(5, 5), pos(6, 5), pos(6, 4), pos(5, 4), pos(4, 4)];
    let mut g = game_with(body, Direction::Down);
    assert!(g.snake_movement());
    // The shift still completes.
    assert_eq!(g.segments, vec![pos(5, 4), pos(5, 5), pos(6, 5), pos(6, 4), pos(5, 4)]);
}

#[test]
fn cell_vacated_by_tail_counts_as_occupied() {
    // Collision is checked against where the body was before the shift.
    let body = vec![pos(5, 5), pos(5, 4), pos(6, 4), pos(6, 5)];
    let mut g = game_with(body, Direction::Right);
    let ev = g.tick();
    assert!(ev.game_over);
    assert_eq!(g.segments, spawn());
}

#[test]
fn body_follows_the_leader() {
    let body = vec![pos(2, 2), pos(2, 1), pos(3, 1), pos(4, 1), pos(4, 2)];
    let mut g = game_with(body.clone(), Direction::Left);
    assert!(!g.snake_movement());
    assert_eq!(g.segments[0], pos(1, 2));
    for i in 1..body.len() {
        assert_eq!(g.segments[i], body[i - 1]);
    }
    assert_eq!(g.last_tail, Some(pos(4, 2)));
}

#[test]
fn several_signals_grow_one_segment() {
    let mut g = Game::new();
    g.place_food(pos(3, 4));
    g.place_food(pos(7, 7));
    g.place_food(pos(3, 4));
    let ev = g.tick();
    assert_eq!(ev.growth_signals, 2);
    assert_eq!(g.foods, vec![pos(7, 7)]);
    assert_eq!(g.segments.len(), 3);
}

#[test]
fn eating_counts_and_removes() {
    let mut g = Game::new();
    g.place_food(pos(3, 3));
    g.place_food(pos(1, 1));
    g.place_food(pos(3, 3));
    assert_eq!(g.snake_eating(), 2);
    assert_eq!(g.foods, vec![pos(1, 1)]);
    assert_eq!(g.snake_eating(), 0);
}

#[test]
fn growth_before_any_move_is_an_error() {
    let mut g = Game::new();
    assert_eq!(g.snake_growth(1), Err(SnakeError::NoLastPosition));
    assert_eq!(g.segments, spawn());
    assert_eq!(g.snake_growth(0), Ok(()));
}

#[test]
fn growth_appends_vacated_cell() {
    let mut g = Game::new();
    g.snake_movement();
    assert_eq!(g.snake_growth(3), Ok(()));
    assert_eq!(g.segments, vec![pos(3, 4), pos(3, 3), pos(3, 2)]);
}

#[test]
fn game_over_signal_resets() {
    let mut g = game_with(vec![pos(9, 9), pos(9, 8), pos(9, 7)], Direction::Right);
    g.place_food(pos(1, 2));
    g.game_over(false);
    assert_eq!(g.segments.len(), 3);
    assert_eq!(g.foods.len(), 1);
    g.game_over(true);
    assert_eq!(g.segments, spawn());
    assert_eq!(g.direction, Direction::Up);
    assert!(g.foods.is_empty());
}

#[test]
fn no_growth_after_reset() {
    let mut g = game_with(vec![pos(9, 9), pos(9, 8), pos(9, 7)], Direction::Right);
    g.snake_movement();
    assert_eq!(g.last_tail, Some(pos(9, 7)));
    g.game_over(true);
    assert_eq!(g.last_tail, None);
    assert_eq!(g.snake_growth(2), Err(SnakeError::NoLastPosition));
    assert_eq!(g.segments, spawn());
}

#[test]
fn spawned_food_lies_on_the_board() {
    let mut g = Game::new();
    for _ in 0..200 {
        g.spawn_food();
    }
    assert_eq!(g.foods.len(), 200);
    assert!(g.foods.iter().all(|f| f.in_grid()));
}

#[test]
fn snake_never_empty_over_many_ticks() {
    let mut g = Game::new();
    let keys = [(true, false, false, false), (false, true, false, false), (false, false, false, true), (false, false, true, false)];
    for t in 0..500usize {
        if t % 5 == 0 {
            g.spawn_food();
        }
        let (u, l, r, d) = keys[(t / 3) % 4];
        g.snake_movement_input(u, l, r, d);
        g.tick();
        assert!(!g.segments.is_empty());
        assert!(g.segments.iter().all(|s| s.in_grid()));
    }
}
