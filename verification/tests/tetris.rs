use terminal_games::engine::input::Key;
use terminal_games::games::tetris::game::Tetris;
use terminal_games::games::tetris::logic::{
    award_score, clear_lines, ghost_y, handle_input, hold_piece, lock_piece, piece_cells,
    random_piece, rotate, rotate_cell, soft_drop, tick,
};
use terminal_games::games::tetris::state::{origin, ActivePiece, TetrisState, Tetromino};
use terminal_games::types::geometry::{Direction, Level, Score, TerminalSize};

fn viewport() -> TerminalSize {
    TerminalSize {
        width: 80,
        height: 24,
    }
}

#[test]
fn ghost_piece_drops_to_bottom_on_empty_board() {
    let state = TetrisState::new(TerminalSize {
        width: 80,
        height: 24,
    });

    assert!(ghost_y(&state) > state.current.y);
}

#[test]
fn line_clear_awards_single_line_points() {
    let mut state = TetrisState::new(TerminalSize {
        width: 80,
        height: 24,
    });
    state.board[19] = [Some(0); 10];

    let cleared = clear_lines(&mut state);
    award_score(&mut state, cleared);

    assert_eq!(cleared, 1);
    assert_eq!(state.score.0, 100);
}

#[test]
fn ghost_of_t_piece_rests_on_floor() {
    let state = TetrisState::new(viewport());
    // T piece cells occupy box rows 0 and 1: the box can sink to row 18.
    assert_eq!(ghost_y(&state), 18);
}

#[test]
fn color_indices_follow_shape_order() {
    assert_eq!(Tetromino::I.color_index(), 0);
    assert_eq!(Tetromino::L.color_index(), 6);
    assert_eq!(random_piece(0), Tetromino::I);
    assert_eq!(random_piece(13), Tetromino::L);
}

#[test]
fn piece_cells_and_rotation() {
    let piece = ActivePiece {
        kind: Tetromino::I,
        rotation: 1,
        x: 3,
        y: 0,
    };
    assert_eq!(piece_cells(piece), [(5, 0), (5, 1), (5, 2), (5, 3)]);
    assert_eq!(rotate_cell(1, 0, 4), (1, 0));
    assert_eq!(rotate_cell(1, 0, 1), (3, 1));
}

#[test]
fn clearing_two_rows_keeps_the_rest_in_order() {
    let mut state = TetrisState::new(viewport());
    state.board[19] = [Some(1); 10];
    state.board[18][0] = Some(2);
    state.board[17] = [Some(3); 10];
    state.board[16][9] = Some(4);
    let cleared = clear_lines(&mut state);
    assert_eq!(cleared, 2);
    assert_eq!(state.board[19][0], Some(2));
    assert_eq!(state.board[18][9], Some(4));
    assert_eq!(state.board[17], [None; 10]);
    assert_eq!(state.lines_cleared, 2);
    award_score(&mut state, cleared);
    assert_eq!(state.score, Score(300));
}

#[test]
fn clearing_without_full_rows_keeps_the_board() {
    let mut state = TetrisState::new(viewport());
    state.board[0][4] = Some(2);
    state.board[19][4] = Some(2);
    let before = state.board;
    let cleared = clear_lines(&mut state);
    assert_eq!(cleared, 0);
    assert_eq!(state.board, before);
    assert_eq!(state.board[0][4], Some(2));
    assert_eq!(state.level, Level(1));
    assert_eq!(state.tick_rate, 700);
}

#[test]
fn ten_lines_raise_the_level_and_shorten_the_drop() {
    let mut state = TetrisState::new(viewport());
    state.lines_cleared = 9;
    state.board[19] = [Some(0); 10];
    clear_lines(&mut state);
    assert_eq!(state.level, Level(2));
    assert_eq!(state.tick_rate, 700 - 45);
    award_score(&mut state, 4);
    assert_eq!(state.score, Score(1600));
}

#[test]
fn moves_stop_at_the_walls() {
    let mut state = TetrisState::new(viewport());
    for _ in 0..10 {
        handle_input(&mut state, Key::Dir(Direction::Left));
    }
    assert_eq!(state.current.x, 0);
    for _ in 0..20 {
        handle_input(&mut state, Key::Dir(Direction::Right));
    }
    assert_eq!(state.current.x, 7);
}

#[test]
fn rotation_kicks_off_the_wall() {
    let mut state = TetrisState::new(viewport());
    state.current = ActivePiece {
        kind: Tetromino::I,
        rotation: 1,
        x: -2,
        y: 5,
    };
    rotate(&mut state);
    assert_eq!(state.current.rotation, 2);
    assert_eq!(state.current.x, 0);
}

#[test]
fn hold_swaps_once_per_piece() {
    let mut state = TetrisState::new(viewport());
    // empty slot: the next piece enters, and it may be held again
    hold_piece(&mut state);
    assert_eq!(state.hold, Some(Tetromino::T));
    assert_eq!(state.current.kind, Tetromino::I);
    assert!(state.can_hold);
    // swap with the held shape, after which holding is locked
    hold_piece(&mut state);
    assert_eq!(state.hold, Some(Tetromino::I));
    assert_eq!(state.current.kind, Tetromino::T);
    assert!(!state.can_hold);
    hold_piece(&mut state);
    assert_eq!(state.hold, Some(Tetromino::I));
    assert_eq!(state.current.kind, Tetromino::T);
}

#[test]
fn locking_paints_the_piece_and_spawns_the_next() {
    let mut state = TetrisState::new(viewport());
    for _ in 0..18 {
        soft_drop(&mut state);
    }
    assert_eq!(state.current.y, 18);
    soft_drop(&mut state);
    assert_eq!(state.board[18][4], Some(2));
    assert_eq!(state.board[19][3], Some(2));
    assert_eq!(state.current.kind, Tetromino::I);
    assert_eq!(state.current.y, -1);
    assert!(!state.is_game_over);
}

#[test]
fn locking_above_the_top_ends_the_game() {
    let mut state = TetrisState::new(viewport());
    state.current.y = -1;
    lock_piece(&mut state);
    assert!(state.is_game_over);
}

#[test]
fn gravity_drops_after_the_interval() {
    let mut state = TetrisState::new(viewport());
    for _ in 0..21 {
        tick(&mut state);
    }
    assert_eq!(state.current.y, 0);
    tick(&mut state);
    assert_eq!(state.current.y, 1);
    assert_eq!(state.tick, 22);
}

#[test]
fn tetris_session_reports_retry() {
    let mut game = Tetris::new(viewport());
    assert_eq!(game.status(), None);
    game.handle_input(Key::Dir(Direction::Down));
    assert_eq!(game.state().current.y, 1);
    let mut guard = 0;
    while !game.state().is_game_over && guard < 10000 {
        game.handle_input(Key::Dir(Direction::Down));
        guard += 1;
    }
    assert!(game.state().is_game_over);
    game.handle_input(Key::Retry);
    assert!(game.status().unwrap().should_retry());
}

#[test]
fn board_is_centred_below_the_hud() {
    let state = TetrisState::new(TerminalSize {
        width: 80,
        height: 24,
    });
    assert_eq!(origin(&state), (30, 3));
    let narrow = TetrisState::new(TerminalSize {
        width: 12,
        height: 24,
    });
    assert_eq!(origin(&narrow), (0, 3));
}

#[test]
fn tetris_finished_game_ignores_ticks_even_with_a_full_clock() {
    let mut state = TetrisState::new(TerminalSize {
        width: 80,
        height: 24,
    });
    state.is_game_over = true;
    state.tick_accumulator = u64::MAX;
    let before = state.clone();
    tick(&mut state);
    assert_eq!(state.tick_accumulator, before.tick_accumulator);
    assert_eq!(state.score, before.score);
    assert!(state.is_game_over);
}
