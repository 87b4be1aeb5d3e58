use terminal_games::engine::input::Key;
use terminal_games::games::runner::game::Runner;
use terminal_games::games::runner::logic::{
    check_collision, handle_input, tick, MAX_SPEED, MIN_SPEED,
};
use terminal_games::games::runner::state::{RunnerState, TrafficCar};
use terminal_games::types::game::GameResult;
use terminal_games::types::geometry::{Direction, Level, Score, TerminalSize};

fn default_viewport() -> TerminalSize {
    TerminalSize {
        width: 80,
        height: 24,
    }
}

#[test]
fn lane_change_moves_player_and_clamps_at_boundaries() {
    let mut state = RunnerState::new(default_viewport());
    assert_eq!(state.player_lane, 1);
    handle_input(&mut state, Key::Dir(Direction::Up));
    assert_eq!(state.player_lane, 0);
    handle_input(&mut state, Key::Dir(Direction::Up));
    assert_eq!(state.player_lane, 0); // clamped at top
    handle_input(&mut state, Key::Dir(Direction::Down));
    assert_eq!(state.player_lane, 1);
}

#[test]
fn speed_clamps_at_min_and_max_values() {
    let mut state = RunnerState::new(default_viewport());
    for _ in 0..100 {
        handle_input(&mut state, Key::Dir(Direction::Right));
    }
    assert_eq!(state.speed, MAX_SPEED);
    for _ in 0..100 {
        handle_input(&mut state, Key::Dir(Direction::Left));
    }
    assert_eq!(state.speed, MIN_SPEED);
}

#[test]
fn obstacle_in_player_lane_triggers_game_over() {
    let mut state = RunnerState::new(default_viewport());
    state.player_lane = 2;
    state.obstacles.push(TrafficCar {
        lane: 2,
        col: RunnerState::player_col(),
        width: 5,
    });
    check_collision(&mut state);
    assert!(state.is_game_over);
}

#[test]
fn runner_lane_geometry_on_default_terminal() {
    let state = RunnerState::new(default_viewport());
    // playfield 21 rows, lanes 5 rows high
    assert_eq!(state.lane_y(0), 4);
    assert_eq!(state.lane_y(3), 19);
    assert_eq!(state.lane_divider_y(0), 7);
    assert_eq!(RunnerState::lane_count(), 4);
    assert_eq!(RunnerState::hud_height(), 2);
}

#[test]
fn runner_lane_stays_in_bounds_at_bottom() {
    let mut state = RunnerState::new(default_viewport());
    for _ in 0..10 {
        handle_input(&mut state, Key::Dir(Direction::Down));
    }
    assert_eq!(state.player_lane, 3);
}

#[test]
fn car_in_other_lane_does_not_crash() {
    let mut state = RunnerState::new(default_viewport());
    state.obstacles.push(TrafficCar {
        lane: 3,
        col: RunnerState::player_col(),
        width: 5,
    });
    check_collision(&mut state);
    assert!(!state.is_game_over);
}

#[test]
fn car_just_behind_player_does_not_crash() {
    let mut state = RunnerState::new(default_viewport());
    // right edge at column 6: touches the player's left edge without overlap
    state.obstacles.push(TrafficCar {
        lane: 1,
        col: 1,
        width: 5,
    });
    check_collision(&mut state);
    assert!(!state.is_game_over);
}

#[test]
fn tenth_tick_scores_a_tenth_of_the_speed() {
    let mut state = RunnerState::new(default_viewport());
    for _ in 0..10 {
        tick(&mut state);
    }
    assert_eq!(state.tick, 10);
    assert_eq!(state.score, Score(6));
    assert_eq!(state.road_scroll, 30);
}

#[test]
fn first_spawn_happens_on_tick_35_at_right_border() {
    let mut state = RunnerState::new(default_viewport());
    for _ in 0..34 {
        tick(&mut state);
    }
    assert!(state.obstacles.is_empty());
    tick(&mut state);
    assert!(!state.obstacles.is_empty());
    assert_eq!(state.obstacles[0].col, 78);
    assert!(state.obstacles[0].lane < 4);
    assert!(state.obstacles[0].width == 5 || state.obstacles[0].width == 7);
}

#[test]
fn cars_scroll_and_leave_the_road() {
    let mut state = RunnerState::new(default_viewport());
    state.speed = 90; // 3 columns per tick
    state.obstacles.push(TrafficCar {
        lane: 3,
        col: 40,
        width: 5,
    });
    state.obstacles.push(TrafficCar {
        lane: 3,
        col: 2,
        width: 5,
    });
    tick(&mut state);
    assert_eq!(state.obstacles.len(), 1);
    assert_eq!(state.obstacles[0].col, 37);
}

#[test]
fn level_rises_at_500_points_per_level() {
    let mut state = RunnerState::new(default_viewport());
    state.score = Score(495);
    state.speed = 50;
    for _ in 0..10 {
        tick(&mut state);
    }
    assert_eq!(state.score, Score(500));
    assert_eq!(state.level, Level(2));
}

#[test]
fn crashed_runner_reports_game_over_after_a_key() {
    let mut runner = Runner::new(default_viewport());
    assert_eq!(runner.status(), None);
    let mut state = runner.state().clone();
    state.player_lane = 1;
    runner.handle_input(Key::Dir(Direction::Up));
    assert_eq!(runner.state().player_lane, 0);
    // a crash: put a car on the player
    let _ = state;
    let mut crashed = RunnerState::new(default_viewport());
    crashed.obstacles.push(TrafficCar {
        lane: 1,
        col: 6,
        width: 5,
    });
    tick(&mut crashed);
    assert!(crashed.is_game_over);
    let before = crashed.clone();
    tick(&mut crashed);
    assert_eq!(crashed.tick, before.tick);
}

#[test]
fn runner_session_ends_with_game_over_result() {
    let mut runner = Runner::new(default_viewport());
    for _ in 0..2000 {
        runner.tick();
        if runner.state().is_game_over {
            break;
        }
    }
    if runner.state().is_game_over {
        runner.handle_input(Key::Unbound);
        assert_eq!(runner.status(), None);
        runner.handle_input(Key::Action);
        assert_eq!(
            runner.status(),
            Some(GameResult::GameOver {
                score: runner.state().score,
                level: runner.state().level,
            })
        );
    }
}

#[test]
fn runner_retry_after_crash_asks_for_another_round() {
    let mut runner = Runner::new(default_viewport());
    for _ in 0..5000 {
        runner.tick();
        if runner.state().is_game_over {
            break;
        }
    }
    assert!(runner.state().is_game_over);
    let score = runner.state().score;
    let level = runner.state().level;
    runner.handle_input(Key::Retry);
    assert_eq!(runner.status(), Some(GameResult::Retry { score, level }));
}
