use terminal_games::engine::input::Key;
use terminal_games::games::minesweeper::game::Minesweeper;
use terminal_games::games::minesweeper::logic::{
    check_complete, generate_board, handle_input, is_safe_zone, neighbors, reveal_all_mines,
    tick,
};
use terminal_games::games::minesweeper::state::{difficulty_label, Difficulty, MinesweeperState};
use terminal_games::types::game::GameResult;
use terminal_games::types::geometry::{Direction, Level, TerminalSize};

fn viewport() -> TerminalSize {
    TerminalSize {
        width: 80,
        height: 24,
    }
}

fn mines_on_board(state: &MinesweeperState) -> usize {
    state.cells.iter().filter(|c| c.has_mine).count()
}

#[test]
fn first_reveal_is_safe_and_generates_board() {
    let mut state = MinesweeperState::new(TerminalSize {
        width: 80,
        height: 24,
    });
    state.cursor_x = 4;
    state.cursor_y = 4;

    handle_input(&mut state, Key::Action);

    let idx = state.index(4, 4);
    assert!(state.is_generated);
    assert!(!state.cells[idx].has_mine);
    assert!(state.cells[idx].is_revealed);
}

#[test]
fn difficulty_dimensions_and_levels() {
    assert_eq!(Difficulty::Easy.dimensions(), (9, 9, 10));
    assert_eq!(Difficulty::Medium.dimensions(), (16, 16, 40));
    assert_eq!(Difficulty::Hard.dimensions(), (30, 16, 99));
    assert_eq!(Difficulty::Easy.level(), Level(1));
    assert_eq!(Difficulty::Medium.level(), Level(3));
    assert_eq!(Difficulty::Hard.level(), Level(5));
}

#[test]
fn fresh_board_is_blank_and_easy() {
    let state = MinesweeperState::new(viewport());
    assert_eq!(state.cells.len(), 81);
    assert_eq!(state.board_width, 9);
    assert_eq!(state.mine_count, 10);
    assert!(!state.is_generated);
    assert_eq!(mines_on_board(&state), 0);
    assert_eq!(state.flags_used(), 0);
}

#[test]
fn number_keys_pick_difficulty_before_the_first_reveal_only() {
    let mut state = MinesweeperState::new(viewport());
    handle_input(&mut state, Key::Number(3));
    assert_eq!(state.difficulty, Difficulty::Hard);
    assert_eq!(state.cells.len(), 30 * 16);
    assert_eq!(state.level, Level(5));

    handle_input(&mut state, Key::Action);
    assert!(state.is_generated);
    handle_input(&mut state, Key::Number(1));
    assert_eq!(state.difficulty, Difficulty::Hard);
    assert_eq!(state.board_width, 30);
}

#[test]
fn cursor_stays_on_the_board() {
    let mut state = MinesweeperState::new(viewport());
    handle_input(&mut state, Key::Dir(Direction::Left));
    handle_input(&mut state, Key::Dir(Direction::Up));
    assert_eq!((state.cursor_x, state.cursor_y), (0, 0));
    for _ in 0..20 {
        handle_input(&mut state, Key::Dir(Direction::Right));
        handle_input(&mut state, Key::Dir(Direction::Down));
    }
    assert_eq!((state.cursor_x, state.cursor_y), (8, 8));
}

#[test]
fn neighbours_of_corner_and_centre() {
    let state = MinesweeperState::new(viewport());
    assert_eq!(neighbors(&state, 0, 0), vec![(1, 0), (0, 1), (1, 1)]);
    let centre = neighbors(&state, 4, 4);
    assert_eq!(centre.len(), 8);
    assert_eq!(centre[0], (3, 3));
    assert_eq!(centre[7], (5, 5));
    assert_eq!(neighbors(&state, 8, 8), vec![(7, 7), (8, 7), (7, 8)]);
}

#[test]
fn safe_zone_is_the_three_by_three_block() {
    assert!(is_safe_zone(4, 4, 3, 5));
    assert!(is_safe_zone(0, 0, 1, 1));
    assert!(!is_safe_zone(4, 4, 6, 4));
    assert!(!is_safe_zone(0, 0, 0, 2));
}

#[test]
fn generated_board_places_every_mine_outside_the_safe_zone() {
    let mut state = MinesweeperState::new(viewport());
    generate_board(&mut state, 2, 3);
    assert!(state.is_generated);
    assert_eq!(mines_on_board(&state), 10);
    for y in 0..9u16 {
        for x in 0..9u16 {
            let cell = state.cells[state.index(x, y)];
            if is_safe_zone(2, 3, x, y) {
                assert!(!cell.has_mine);
            }
            if !cell.has_mine {
                let around = neighbors(&state, x, y)
                    .iter()
                    .filter(|&&(nx, ny)| state.cells[state.index(nx, ny)].has_mine)
                    .count();
                assert_eq!(usize::from(cell.adjacent), around);
            }
        }
    }
}

#[test]
fn flags_toggle_on_hidden_squares_only() {
    let mut state = MinesweeperState::new(viewport());
    handle_input(&mut state, Key::Flag);
    assert!(state.cells[0].is_flagged);
    assert_eq!(state.flags_used(), 1);
    handle_input(&mut state, Key::Flag);
    assert!(!state.cells[0].is_flagged);
    assert_eq!(state.flags_used(), 0);

    state.cells[0].is_revealed = true;
    handle_input(&mut state, Key::Flag);
    assert!(!state.cells[0].is_flagged);
}

#[test]
fn flagged_square_is_not_revealed() {
    let mut state = MinesweeperState::new(viewport());
    handle_input(&mut state, Key::Action);
    let idx = state.index(8, 8);
    if !state.cells[idx].is_revealed {
        state.cursor_x = 8;
        state.cursor_y = 8;
        handle_input(&mut state, Key::Flag);
        handle_input(&mut state, Key::Action);
        assert!(!state.cells[idx].is_revealed);
        assert!(state.cells[idx].is_flagged);
        assert!(!state.is_game_over);
    }
}

#[test]
fn revealing_a_mine_ends_the_game_and_shows_all_mines() {
    let mut state = MinesweeperState::new(viewport());
    handle_input(&mut state, Key::Action);
    let mine = (0..81usize).find(|&i| state.cells[i].has_mine).unwrap();
    state.cursor_x = (mine % 9) as u16;
    state.cursor_y = (mine / 9) as u16;
    let score = state.score;
    handle_input(&mut state, Key::Action);
    assert!(state.is_game_over);
    assert_eq!(state.score, score);
    for cell in &state.cells {
        if cell.has_mine {
            assert!(cell.is_revealed);
        }
    }
    let before = state.cells.clone();
    handle_input(&mut state, Key::Flag);
    assert_eq!(state.cells, before);
}

#[test]
fn reveal_all_mines_leaves_safe_squares_hidden() {
    let mut state = MinesweeperState::new(viewport());
    state.cells[5].has_mine = true;
    reveal_all_mines(&mut state);
    assert!(state.cells[5].is_revealed);
    assert!(!state.cells[6].is_revealed);
}

#[test]
fn flood_from_an_empty_board_reveals_everything() {
    let mut state = MinesweeperState::new(viewport());
    state.mine_count = 0;
    handle_input(&mut state, Key::Action);
    assert!(state.cells.iter().all(|c| c.is_revealed));
    assert_eq!(state.score.0, 81);
    assert!(state.is_complete);
}

#[test]
fn completing_the_board_scores_five_points_per_mine() {
    let mut state = MinesweeperState::new(viewport());
    state.is_generated = true;
    for (i, cell) in state.cells.iter_mut().enumerate() {
        if i < 10 {
            cell.has_mine = true;
        } else {
            cell.is_revealed = true;
        }
    }
    check_complete(&mut state);
    assert!(state.is_complete);
    assert_eq!(state.score.0, 50);

    let mut open = MinesweeperState::new(viewport());
    check_complete(&mut open);
    assert!(!open.is_complete);
    assert_eq!(open.score.0, 0);
}

#[test]
fn time_counts_only_on_a_generated_running_board() {
    let mut state = MinesweeperState::new(viewport());
    tick(&mut state);
    assert_eq!(state.elapsed_ticks, 0);
    state.is_generated = true;
    tick(&mut state);
    tick(&mut state);
    assert_eq!(state.elapsed_ticks, 2);
    state.is_game_over = true;
    tick(&mut state);
    assert_eq!(state.elapsed_ticks, 2);
}

#[test]
fn session_reports_retry_after_a_lost_game() {
    let mut game = Minesweeper::new(viewport());
    assert_eq!(game.status(), None);
    game.handle_input(Key::Action);
    let mine = (0..81usize)
        .find(|&i| game.state().cells[i].has_mine)
        .unwrap();
    let (mx, my) = ((mine % 9) as u16, (mine / 9) as u16);
    let (cx, cy) = (game.state().cursor_x, game.state().cursor_y);
    for _ in cx..mx {
        game.handle_input(Key::Dir(Direction::Right));
    }
    for _ in cy..my {
        game.handle_input(Key::Dir(Direction::Down));
    }
    game.handle_input(Key::Action);
    assert!(game.state().is_game_over);
    assert_eq!(game.status(), None);
    game.handle_input(Key::Retry);
    assert!(matches!(game.status(), Some(GameResult::Retry { .. })));
}

#[test]
fn difficulty_labels_name_their_keys() {
    assert_eq!(difficulty_label(Difficulty::Easy), "1 Easy");
    assert_eq!(difficulty_label(Difficulty::Medium), "2 Medium");
    assert_eq!(difficulty_label(Difficulty::Hard), "3 Hard");
}

#[test]
fn first_reveal_shows_no_mine_and_places_every_mine() {
    for (key, mines) in [(1u8, 10usize), (2, 40), (3, 99)] {
        let mut state = MinesweeperState::new(viewport());
        handle_input(&mut state, Key::Number(key));
        state.cursor_x = 3;
        state.cursor_y = 2;
        let score = state.score.0;
        handle_input(&mut state, Key::Action);
        assert_eq!(mines_on_board(&state), mines);
        let revealed = state.cells.iter().filter(|c| c.is_revealed).count();
        assert!(revealed >= 1);
        assert!(state.cells.iter().all(|c| !c.is_revealed || !c.has_mine));
        if !state.is_complete {
            assert_eq!(state.score.0 as usize, score as usize + revealed);
        }
    }
}
