use snake_sim::grid::coord_in_play;
use snake_sim::grid::coord_key;
use snake_sim::grid::Bounds;
use snake_sim::grid::Coord;
use snake_sim::grid::Direction;
use snake_sim::grid::Status;
use snake_sim::state::State;

fn field() -> Bounds {
    Bounds { top: 10, bottom: 0, left: 0, right: 10 }
}

fn c(x: i32, y: i32) -> Coord {
    Coord { x, y }
}

fn body_of(s: &State) -> Vec<Coord> {
    s.snake.iter().copied().collect()
}

/// The occupancy index holds exactly the body's cells.
fn assert_index_matches(s: &State) {
    assert_eq!(s.occupied.len(), s.snake.len());
    for cell in s.snake.iter() {
        assert!(s.occupied.contains(&coord_key(*cell)));
    }
}

#[test]
fn one_step_up_moves_head() {
    let mut s = State::new(field(), vec![c(1, 2), c(1, 1)], c(5, 5), Direction::Up, 1000, 1000);
    s.step_forward();
    assert_eq!(s.status, Status::Alive);
    assert_eq!(body_of(&s), vec![c(1, 3), c(1, 2)]);
    assert_eq!(s.food, c(5, 5));
    assert_eq!(s.length, 2000);
    assert_eq!(s.progress, 0);
    assert_index_matches(&s);
}

#[test]
fn eating_grows_and_moves_food() {
    let mut s = State::new(field(), vec![c(1, 2), c(1, 1)], c(1, 3), Direction::Up, 1000, 1000);
    s.step_forward();
    assert_eq!(s.status, Status::Alive);
    assert_eq!(body_of(&s), vec![c(1, 3), c(1, 2), c(1, 1)]);
    assert_eq!(s.length, 3000);
    // The new pellet lies on a playable cell the body does not cover.
    assert!(coord_in_play(&field(), s.food));
    assert!(!body_of(&s).contains(&s.food));
    assert!(!s.occupied.contains(&coord_key(s.food)));
    assert_index_matches(&s);
}

#[test]
fn fractional_nutrition_grows_by_halves() {
    let mut s = State::new(field(), vec![c(1, 2), c(1, 1)], c(1, 3), Direction::Up, 1000, 500);
    s.step_forward();
    assert_eq!(s.status, Status::Alive);
    assert_eq!(s.length, 2500);
    // Half a cell of growth is not yet a third body cell.
    assert_eq!(body_of(&s), vec![c(1, 3), c(1, 2)]);
    assert_index_matches(&s);
}

#[test]
fn rightmost_interior_column_dies_on_border() {
    let mut s = State::new(field(), vec![c(9, 5)], c(5, 5), Direction::Right, 1000, 1000);
    s.step_forward();
    assert_eq!(s.status, Status::Dead);
    // The body and its index are exactly as before the fatal tick.
    assert_eq!(body_of(&s), vec![c(9, 5)]);
    assert_index_matches(&s);
}

#[test]
fn leaving_through_the_bottom_dies() {
    let mut s = State::new(field(), vec![c(4, 0)], c(5, 5), Direction::Down, 1000, 1000);
    s.step_forward();
    assert_eq!(s.status, Status::Dead);
    assert_eq!(body_of(&s), vec![c(4, 0)]);
}

#[test]
fn biting_the_body_dies() {
    let mut s = State::new(
        field(),
        vec![c(2, 2), c(2, 1), c(1, 1), c(1, 2)],
        c(5, 5),
        Direction::Left,
        1000,
        1000,
    );
    s.step_forward();
    assert_eq!(s.status, Status::Dead);
    assert_eq!(body_of(&s), vec![c(2, 2), c(2, 1), c(1, 1), c(1, 2)]);
    assert_eq!(s.food, c(5, 5));
    assert_index_matches(&s);
}

#[test]
fn dead_state_never_changes() {
    let mut s = State::new(field(), vec![c(9, 5)], c(5, 5), Direction::Right, 1000, 1000);
    s.step_forward();
    assert_eq!(s.status, Status::Dead);
    let body = body_of(&s);
    let food = s.food;
    let length = s.length;
    let progress = s.progress;
    let direction = s.direction;
    for _ in 0..5 {
        s.step_forward();
        assert_eq!(s.status, Status::Dead);
        assert_eq!(body_of(&s), body);
        assert_eq!(s.food, food);
        assert_eq!(s.length, length);
        assert_eq!(s.progress, progress);
        assert_eq!(s.direction, direction);
    }
}

#[test]
fn slow_snake_moves_every_third_tick() {
    let mut s = State::new(field(), vec![c(1, 1)], c(5, 5), Direction::Up, 400, 1000);
    s.step_forward();
    assert_eq!(body_of(&s), vec![c(1, 1)]);
    assert_eq!(s.progress, 400);
    s.step_forward();
    assert_eq!(body_of(&s), vec![c(1, 1)]);
    assert_eq!(s.progress, 800);
    s.step_forward();
    assert_eq!(body_of(&s), vec![c(1, 2)]);
    assert_eq!(s.progress, 200);
}

#[test]
fn fast_snake_jumps_whole_cells() {
    let mut s = State::new(field(), vec![c(1, 1)], c(5, 5), Direction::Up, 2500, 1000);
    s.step_forward();
    // Two and a half cells of speed: a jump of two, half a cell kept.
    assert_eq!(body_of(&s), vec![c(1, 3)]);
    assert_eq!(s.progress, 500);
    assert_index_matches(&s);
}

#[test]
fn body_never_exceeds_target_length() {
    let mut s = State::new(field(), vec![c(1, 1)], c(1, 2), Direction::Up, 1000, 5500);
    for _ in 0..40 {
        s.step_forward();
        let ceil_cells = (s.length + 999) / 1000;
        assert!((s.snake.len() as u64) <= ceil_cells);
        assert_index_matches(&s);
        if s.status == Status::Dead {
            break;
        }
    }
}

#[test]
fn reversal_is_rejected() {
    let mut s = State::new(field(), vec![c(1, 2), c(1, 1)], c(5, 5), Direction::Up, 1000, 1000);
    s.turn(Direction::Down);
    assert_eq!(s.direction, Direction::Up);
    s.turn(Direction::Left);
    assert_eq!(s.direction, Direction::Left);
    s.turn(Direction::Right);
    assert_eq!(s.direction, Direction::Left);
    s.turn(Direction::Up);
    assert_eq!(s.direction, Direction::Up);
}

#[test]
fn turn_changes_nothing_but_the_heading() {
    let mut s = State::new(field(), vec![c(1, 2), c(1, 1)], c(5, 5), Direction::Up, 1000, 1000);
    s.turn(Direction::Right);
    assert_eq!(s.status, Status::Alive);
    assert_eq!(body_of(&s), vec![c(1, 2), c(1, 1)]);
    assert_eq!(s.food, c(5, 5));
    assert_eq!(s.length, 2000);
    assert_eq!(s.progress, 0);
}

#[test]
fn relocated_food_varies_and_stays_legal() {
    let mut seen = std::collections::HashSet::new();
    for _ in 0..100 {
        let mut s = State::new(
            field(),
            vec![c(1, 2), c(1, 1)],
            c(1, 3),
            Direction::Up,
            1000,
            1000,
        );
        s.step_forward();
        assert_eq!(s.status, Status::Alive);
        assert!(coord_in_play(&field(), s.food));
        assert!(!body_of(&s).contains(&s.food));
        seen.insert((s.food.x, s.food.y));
    }
    // One hundred uniform draws from nearly a hundred free cells land on
    // a single cell only if the randomness is broken.
    assert!(seen.len() > 1);
}

#[test]
fn food_placement_fills_tight_boards() {
    // A one-by-two field: after the snake eats at the second cell, no
    // free cell is left for food, and the game ends rather than hanging.
    let b = Bounds { top: 1, bottom: 0, left: 0, right: 2 };
    let mut s = State::new(b, vec![c(0, 0)], c(1, 0), Direction::Right, 1000, 1000);
    s.step_forward();
    assert_eq!(s.status, Status::Dead);
    assert_eq!(s.length, 2000);
    assert_eq!(body_of(&s), vec![c(1, 0), c(0, 0)]);
}

#[test]
fn tall_thin_board_walks_to_the_top() {
    let b = Bounds { top: 5, bottom: 0, left: 0, right: 1 };
    let mut s = State::new(b, vec![c(0, 0)], c(0, 4), Direction::Up, 1000, 1000);
    for _ in 0..4 {
        s.step_forward();
    }
    // The snake ate at the top cell and still lives there.
    assert_eq!(s.status, Status::Alive);
    assert_eq!(s.length, 2000);
    assert_eq!(body_of(&s), vec![c(0, 4), c(0, 3)]);
    assert_index_matches(&s);
    // One more step runs it into the top border.
    s.step_forward();
    assert_eq!(s.status, Status::Dead);
    assert_eq!(body_of(&s), vec![c(0, 4), c(0, 3)]);
}
