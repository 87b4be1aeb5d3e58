use terminal_games::engine::input::Key;
use terminal_games::games::invaders::game::Invaders;
use terminal_games::games::invaders::logic::{
    check_player_hit, check_wave_clear, handle_input, hit_alien, hit_shield, march_aliens,
    march_interval, max_player_bullets, move_bullets, tick,
};
use terminal_games::games::invaders::state::{Bullet, InvadersState};
use terminal_games::types::geometry::{Direction, Level, TerminalSize};

fn viewport() -> TerminalSize {
    TerminalSize {
        width: 80,
        height: 24,
    }
}

#[test]
fn player_bullet_destroying_alien_awards_points() {
    let mut state = InvadersState::new(TerminalSize {
        width: 80,
        height: 24,
    });
    let alien = state.aliens[0];
    let bullet = Bullet {
        x: alien.x,
        y: alien.y,
    };

    assert!(hit_alien(&mut state, bullet));
    assert!(!state.aliens[0].is_alive);
    assert_eq!(state.score.0, 30);
}

#[test]
fn fresh_session_layout() {
    let state = InvadersState::new(viewport());
    assert_eq!(state.aliens.len(), 55);
    assert_eq!(state.aliens[0].x, 8);
    assert_eq!(state.aliens[0].y, 3);
    assert_eq!(state.aliens[54].x, 48);
    assert_eq!(state.aliens[54].y, 11);
    assert_eq!(state.aliens[54].row, 4);
    assert_eq!(state.shields.len(), 72);
    assert_eq!(state.shields[0].x, 13);
    assert_eq!(state.shields[0].y, 17);
    assert!(state.shields.iter().all(|s| s.hp == 2));
    assert_eq!(state.player_x, 40);
}

#[test]
fn lower_rows_score_fewer_points() {
    let mut state = InvadersState::new(viewport());
    let middle = state.aliens[11];
    assert!(hit_alien(&mut state, Bullet { x: middle.x + 1, y: middle.y }));
    assert_eq!(state.score.0, 20);
    let bottom = state.aliens[44];
    assert!(hit_alien(&mut state, Bullet { x: bottom.x - 1, y: bottom.y }));
    assert_eq!(state.score.0, 30);
    assert!(!hit_alien(&mut state, Bullet { x: bottom.x, y: bottom.y }));
}

#[test]
fn shields_wear_down() {
    let mut state = InvadersState::new(viewport());
    let cell = state.shields[0];
    let b = Bullet { x: cell.x, y: cell.y };
    assert!(hit_shield(&mut state, b));
    assert!(hit_shield(&mut state, b));
    assert!(!hit_shield(&mut state, b));
    assert_eq!(state.shields[0].hp, 0);
}

#[test]
fn player_moves_and_fires_within_limits() {
    let mut state = InvadersState::new(viewport());
    for _ in 0..50 {
        handle_input(&mut state, Key::Dir(Direction::Left));
    }
    assert_eq!(state.player_x, 1);
    for _ in 0..50 {
        handle_input(&mut state, Key::Dir(Direction::Right));
    }
    assert_eq!(state.player_x, 78);
    handle_input(&mut state, Key::Action);
    handle_input(&mut state, Key::Action);
    assert_eq!(state.player_bullets.len(), 1);
    assert_eq!(state.player_bullets[0].y, 20);
    assert_eq!(max_player_bullets(&state), 1);
    state.level = Level(6);
    assert_eq!(max_player_bullets(&state), 3);
    assert_eq!(march_interval(&state), 12);
}

#[test]
fn bullets_move_and_leave() {
    let mut state = InvadersState::new(viewport());
    state.player_bullets.push(Bullet { x: 5, y: 2 });
    state.player_bullets.push(Bullet { x: 6, y: 10 });
    state.alien_bullets.push(Bullet { x: 7, y: 22 });
    state.alien_bullets.push(Bullet { x: 8, y: 5 });
    move_bullets(&mut state);
    assert_eq!(state.player_bullets, vec![Bullet { x: 6, y: 9 }]);
    assert_eq!(state.alien_bullets, vec![Bullet { x: 8, y: 6 }]);
}

#[test]
fn formation_marches_and_turns_at_the_edge() {
    let mut state = InvadersState::new(viewport());
    march_aliens(&mut state);
    assert_eq!(state.aliens[0].x, 9);
    state.direction = 1;
    for a in state.aliens.iter_mut() {
        a.x += 20;
    }
    // rightmost alien at 69: next step 70 is fine; move until the edge
    for _ in 0..10 {
        march_aliens(&mut state);
    }
    assert_eq!(state.direction, -1);
    assert_eq!(state.aliens[0].y, 4);
    assert!(!state.is_game_over);
}

#[test]
fn formation_reaching_the_bottom_ends_the_game() {
    let mut state = InvadersState::new(TerminalSize {
        width: 80,
        height: 16,
    });
    // bottom row of the wave is at row 11 = height - 5
    march_aliens(&mut state);
    assert!(state.is_game_over);
}

#[test]
fn alien_bullet_on_player_ends_the_game() {
    let mut state = InvadersState::new(viewport());
    state.alien_bullets.push(Bullet { x: 41, y: 21 });
    check_player_hit(&mut state);
    assert!(state.is_game_over);
}

#[test]
fn cleared_wave_brings_next_level() {
    let mut state = InvadersState::new(viewport());
    for a in state.aliens.iter_mut() {
        a.is_alive = false;
    }
    check_wave_clear(&mut state);
    assert_eq!(state.level, Level(2));
    assert_eq!(state.aliens.len(), 55);
    assert_eq!(state.aliens[0].y, 4);
    assert!(state.aliens.iter().all(|a| a.is_alive));
}

#[test]
fn invaders_session_runs_and_reports() {
    let mut game = Invaders::new(viewport());
    for _ in 0..200 {
        game.tick();
    }
    assert_eq!(game.state().tick, if game.state().is_game_over { game.state().tick } else { 200 });
    assert_eq!(game.status(), None);
    if game.state().is_game_over {
        game.handle_input(Key::Quit);
        assert!(game.status().is_some());
    }
    let mut state = InvadersState::new(viewport());
    tick(&mut state);
    assert_eq!(state.tick, 1);
}
