use terminal_games::engine::input::Key;
use terminal_games::games::snake::game::Snake;
use terminal_games::games::snake::logic::{can_turn, handle_input, place_food, step_snake, tick};
use terminal_games::games::snake::state::SnakeState;
use terminal_games::types::game::GameResult;
use terminal_games::types::geometry::{Direction, Score, TerminalSize, Vec2};

fn viewport() -> TerminalSize {
    TerminalSize {
        width: 80,
        height: 24,
    }
}

#[test]
fn snake_moves_right_by_default() {
    let mut state = SnakeState::new(TerminalSize {
        width: 80,
        height: 24,
    });
    state.tick_rate = 30;
    state.tick_accumulator = 30;

    let old_head = state.segments[0];
    assert_eq!(state.direction, Direction::Right);

    tick(&mut state);

    let new_head = state.segments[0];
    assert_eq!(new_head.x, old_head.x + 1);
    assert_eq!(new_head.y, old_head.y);
}

#[test]
fn cannot_reverse_direction() {
    assert!(!can_turn(Direction::Up, Direction::Down));
    assert!(!can_turn(Direction::Left, Direction::Right));
    assert!(can_turn(Direction::Up, Direction::Left));
}

#[test]
fn new_snake_is_centred_with_food_ahead() {
    let state = SnakeState::new(viewport());
    assert_eq!(state.segments.len(), 3);
    assert_eq!(state.segments[0], Vec2::new(40, 12));
    assert_eq!(state.segments[2], Vec2::new(38, 12));
    assert_eq!(state.food, Vec2::new(48, 12));
    assert_eq!(state.tick_rate, 120);
    assert_eq!(state.play_area_top(), 2);
    assert_eq!(state.play_area_bottom(), 23);
    assert_eq!(state.play_area_right(), 79);
}

#[test]
fn queued_reversal_is_ignored() {
    let mut state = SnakeState::new(viewport());
    handle_input(&mut state, Key::Dir(Direction::Left));
    step_snake(&mut state);
    assert_eq!(state.direction, Direction::Right);
    assert_eq!(state.segments[0], Vec2::new(41, 12));
    assert!(state.input_queue.is_empty());
}

#[test]
fn input_queue_holds_at_most_two_turns() {
    let mut state = SnakeState::new(viewport());
    handle_input(&mut state, Key::Dir(Direction::Up));
    handle_input(&mut state, Key::Dir(Direction::Left));
    handle_input(&mut state, Key::Dir(Direction::Down));
    assert_eq!(state.input_queue.len(), 2);
}

#[test]
fn eating_food_grows_scores_and_speeds_up() {
    let mut state = SnakeState::new(viewport());
    state.food = Vec2::new(41, 12);
    step_snake(&mut state);
    assert_eq!(state.segments.len(), 4);
    assert_eq!(state.score, Score(10));
    assert_eq!(state.tick_rate, 118);
    assert!(!state.segments.contains(&state.food));
    assert!(state.food.y >= 2 && state.food.y < 24);
    assert!(state.food.x >= 0 && state.food.x < 80);
}

#[test]
fn hitting_the_wall_ends_the_game() {
    let mut state = SnakeState::new(TerminalSize {
        width: 10,
        height: 10,
    });
    for _ in 0..10 {
        step_snake(&mut state);
    }
    assert!(state.is_game_over);
    assert_eq!(state.segments[0].x, 9);
}

#[test]
fn place_food_avoids_the_body() {
    let mut state = SnakeState::new(viewport());
    place_food(&mut state);
    assert!(!state.segments.contains(&state.food));
}

#[test]
fn snake_retry_and_quit_results() {
    let mut snake = Snake::new(TerminalSize {
        width: 6,
        height: 6,
    });
    for _ in 0..100 {
        snake.tick();
    }
    assert!(snake.state().is_game_over);
    assert_eq!(snake.status(), None);
    snake.handle_input(Key::Quit);
    assert_eq!(
        snake.status(),
        Some(GameResult::GameOver {
            score: Score(0),
            level: snake.state().level,
        })
    );
    snake.handle_input(Key::Retry);
    assert!(snake.status().unwrap().should_retry());
}

#[test]
fn snake_finished_game_ignores_ticks_even_with_a_full_clock() {
    let mut state = SnakeState::new(TerminalSize {
        width: 80,
        height: 24,
    });
    state.is_game_over = true;
    state.tick_accumulator = u64::MAX;
    let before = state.clone();
    tick(&mut state);
    assert_eq!(state.tick_accumulator, before.tick_accumulator);
    assert_eq!(state.score, before.score);
    assert!(state.is_game_over);
}
