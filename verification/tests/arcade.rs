use terminal_games::engine::input::{parse_key, Key, KeyCode, KeyPress};
use terminal_games::engine::loop_::{action_for_key, result_after_key, LoopAction};
use terminal_games::games::rand::fast_rand;
use terminal_games::menu::{game_index, game_key, game_label, menu_step, MenuAction, GAME_COUNT};
use terminal_games::types::game::{end_key, end_key_any, session_status, EndKey, GameResult};
use terminal_games::types::geometry::{Direction, Level, Score};

fn press(code: KeyCode) -> KeyPress {
    KeyPress { code, ctrl: false }
}

#[test]
fn keys_map_to_semantic_input() {
    assert_eq!(parse_key(press(KeyCode::Char('q'))), Key::Quit);
    assert_eq!(parse_key(press(KeyCode::Char('Q'))), Key::Quit);
    assert_eq!(
        parse_key(KeyPress {
            code: KeyCode::Char('c'),
            ctrl: true
        }),
        Key::Quit
    );
    assert_eq!(parse_key(press(KeyCode::Char('c'))), Key::Hold);
    assert_eq!(parse_key(press(KeyCode::Char('f'))), Key::Flag);
    assert_eq!(parse_key(press(KeyCode::Char('R'))), Key::Retry);
    assert_eq!(parse_key(press(KeyCode::Char('p'))), Key::Pause);
    assert_eq!(parse_key(press(KeyCode::Char('a'))), Key::Dir(Direction::Left));
    assert_eq!(parse_key(press(KeyCode::Char('D'))), Key::Dir(Direction::Right));
    assert_eq!(parse_key(press(KeyCode::Up)), Key::Dir(Direction::Up));
    assert_eq!(parse_key(press(KeyCode::Char('s'))), Key::Dir(Direction::Down));
    assert_eq!(parse_key(press(KeyCode::Char(' '))), Key::Action);
    assert_eq!(parse_key(press(KeyCode::Enter)), Key::Action);
    assert_eq!(parse_key(press(KeyCode::Char('7'))), Key::Number(7));
    assert_eq!(parse_key(press(KeyCode::Char('0'))), Key::Unbound);
    assert_eq!(parse_key(press(KeyCode::Other)), Key::Unbound);
}

#[test]
fn loop_pauses_ignores_or_forwards() {
    assert_eq!(action_for_key(Key::Pause), LoopAction::Pause);
    assert_eq!(action_for_key(Key::Unbound), LoopAction::Ignore);
    assert_eq!(action_for_key(Key::Quit), LoopAction::Forward);
    assert_eq!(action_for_key(Key::Dir(Direction::Left)), LoopAction::Forward);
}

#[test]
fn quitting_always_ends_the_session() {
    assert_eq!(result_after_key(Key::Quit, None), Some(GameResult::Quit));
    let over = GameResult::GameOver {
        score: Score(40),
        level: Level(2),
    };
    assert_eq!(result_after_key(Key::Quit, Some(over)), Some(over));
    assert_eq!(result_after_key(Key::Action, None), None);
    assert_eq!(result_after_key(Key::Action, Some(over)), Some(over));
}

#[test]
fn results_carry_score_and_level_unless_quit() {
    let retry = GameResult::Retry {
        score: Score(12),
        level: Level(3),
    };
    assert_eq!(retry.score(), Some(Score(12)));
    assert_eq!(retry.level(), Some(Level(3)));
    assert!(retry.should_retry());
    assert_eq!(GameResult::Quit.score(), None);
    assert_eq!(GameResult::Quit.level(), None);
    assert!(!GameResult::Quit.should_retry());
    let done = GameResult::Complete {
        score: Score(5),
        level: Level(1),
    };
    assert!(!done.should_retry());
    assert_eq!(done.score(), Some(Score(5)));
}

#[test]
fn fast_rand_is_splitmix64() {
    assert_eq!(fast_rand(0), 0xE220_A839_7B1D_CDAF);
    assert_eq!(fast_rand(12345), fast_rand(12345));
    assert_ne!(fast_rand(1), fast_rand(2));
}

#[test]
fn games_are_found_by_key_ignoring_case() {
    assert_eq!(game_index("runner"), Some(0));
    assert_eq!(game_index("Snake"), Some(2));
    assert_eq!(game_index("MINESWEEPER"), Some(7));
    assert_eq!(game_index("flappy"), Some(8));
    assert_eq!(game_index("chess"), None);
    assert_eq!(game_index(""), None);
    assert_eq!(game_index("snakes"), None);
    for i in 0..GAME_COUNT {
        assert_eq!(game_index(game_key(i)), Some(i));
    }
    assert_eq!(game_key(9), "unknown");
    assert_eq!(game_label(6), "Space Invaders");
}

#[test]
fn menu_navigation_wraps_and_launches() {
    assert_eq!(menu_step(0, Key::Dir(Direction::Up)), (8, MenuAction::Stay));
    assert_eq!(menu_step(3, Key::Dir(Direction::Up)), (2, MenuAction::Stay));
    assert_eq!(menu_step(8, Key::Dir(Direction::Down)), (0, MenuAction::Stay));
    assert_eq!(menu_step(4, Key::Dir(Direction::Down)), (5, MenuAction::Stay));
    assert_eq!(menu_step(4, Key::Action), (4, MenuAction::Launch(4)));
    assert_eq!(menu_step(0, Key::Number(9)), (8, MenuAction::Launch(8)));
    assert_eq!(menu_step(2, Key::Number(1)), (0, MenuAction::Launch(0)));
    assert_eq!(menu_step(5, Key::Quit), (5, MenuAction::Exit));
    assert_eq!(menu_step(5, Key::Flag), (5, MenuAction::Stay));
}

#[test]
fn final_screen_keys() {
    assert_eq!(end_key(Key::Retry), EndKey::Retry);
    assert_eq!(end_key(Key::Action), EndKey::Retry);
    assert_eq!(end_key(Key::Quit), EndKey::Leave);
    assert_eq!(end_key(Key::Dir(Direction::Up)), EndKey::Stay);
    assert_eq!(end_key_any(Key::Retry), EndKey::Retry);
    assert_eq!(end_key_any(Key::Action), EndKey::Leave);
    assert_eq!(end_key_any(Key::Quit), EndKey::Leave);
    assert_eq!(end_key_any(Key::Unbound), EndKey::Stay);
}

#[test]
fn session_results() {
    let (s, l) = (Score(7), Level(2));
    assert_eq!(session_status(false, false, true, s, l), None);
    assert_eq!(
        session_status(true, true, true, s, l),
        Some(GameResult::Retry { score: s, level: l })
    );
    assert_eq!(
        session_status(false, true, true, s, l),
        Some(GameResult::GameOver { score: s, level: l })
    );
    assert_eq!(
        session_status(false, true, false, s, l),
        Some(GameResult::Complete { score: s, level: l })
    );
}
