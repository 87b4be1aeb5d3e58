use terminal_games::engine::input::Key;
use terminal_games::games::bricks::logic::{
    any_brick_alive, damage_brick_at, level_cleared, next_level, paddle_after_key,
};
use terminal_games::games::bricks::state::{spawn_level_bricks, Brick};
use terminal_games::games::dino::logic::{
    dino_key, level_for_score as dino_level, pick_kind, release_duck, JumpEffect,
};
use terminal_games::games::dino::state::{ground_line, is_night, DinoObstacleKind, DinoStatus};
use terminal_games::games::flappy::rules::{gap_height, level_for_score, pipe_gap_y};
use terminal_games::games::pong::rules::{pong_move, score_point, PongMove, PongTally, Scorer};
use terminal_games::types::geometry::{Direction, Level, Score, TerminalSize};

fn viewport() -> TerminalSize {
    TerminalSize {
        width: 80,
        height: 24,
    }
}

#[test]
fn dino_status_predicates() {
    assert!(DinoStatus::GameOver.is_game_over());
    assert!(!DinoStatus::Running.is_game_over());
    assert!(DinoStatus::Complete.is_complete());
    assert!(DinoStatus::Jumping.is_jumping());
    assert!(!DinoStatus::Ducking.is_jumping());
    assert!(DinoStatus::Ducking.is_ducking());
    assert_eq!(ground_line(viewport()), 21);
    assert_eq!(
        ground_line(TerminalSize {
            width: 10,
            height: 2
        }),
        0
    );
}

#[test]
fn obstacle_kinds_unlock_with_score() {
    assert_eq!(pick_kind(14, 0), DinoObstacleKind::LargeCactus);
    assert_eq!(pick_kind(6, 0), DinoObstacleKind::SmallCactus);
    assert_eq!(pick_kind(6, 300), DinoObstacleKind::CactusCluster);
    assert_eq!(pick_kind(7, 499), DinoObstacleKind::SmallCactus);
    assert_eq!(pick_kind(8, 500), DinoObstacleKind::LowBird);
    assert_eq!(pick_kind(19, 500), DinoObstacleKind::HighBird);
    assert_eq!(pick_kind(3, 1000), DinoObstacleKind::SmallCactus);
}

#[test]
fn level_wall_layout() {
    let bricks = spawn_level_bricks(viewport(), Level(1));
    assert_eq!(bricks.len(), 4 * 16);
    assert_eq!(
        bricks[0],
        Brick {
            col: 0,
            row: 3,
            hp: 1,
            is_alive: true
        }
    );
    assert_eq!(bricks[17].col, 5);
    assert_eq!(bricks[17].row, 4);

    let hard = spawn_level_bricks(
        TerminalSize {
            width: 83,
            height: 24,
        },
        Level(3),
    );
    assert_eq!(hard.len(), 6 * 16);
    assert_eq!(hard[0].col, 1);
    assert_eq!(hard[0].hp, 2);
    assert_eq!(hard[16].hp, 1);
}

#[test]
fn ball_damages_the_first_covering_brick() {
    let mut bricks = vec![
        Brick {
            col: 10,
            row: 5,
            hp: 2,
            is_alive: true,
        },
        Brick {
            col: 20,
            row: 5,
            hp: 1,
            is_alive: true,
        },
    ];
    let mut score = Score(0);
    assert_eq!(damage_brick_at(&mut bricks, &mut score, 13, 5), Some(0));
    assert_eq!(bricks[0].hp, 1);
    assert!(bricks[0].is_alive);
    assert_eq!(score, Score(10));
    assert_eq!(damage_brick_at(&mut bricks, &mut score, 14, 5), None);
    assert_eq!(score, Score(10));
    assert_eq!(damage_brick_at(&mut bricks, &mut score, 20, 5), Some(1));
    assert!(!bricks[1].is_alive);
    assert_eq!(damage_brick_at(&mut bricks, &mut score, 21, 5), None);
    assert!(any_brick_alive(&bricks));
    assert_eq!(damage_brick_at(&mut bricks, &mut score, 10, 5), Some(0));
    assert!(!any_brick_alive(&bricks));
    assert_eq!(score, Score(30));
}

#[test]
fn paddle_moves_two_columns_within_the_screen() {
    let vp = viewport();
    assert_eq!(paddle_after_key(10, 7, vp, Key::Dir(Direction::Left)), 8);
    assert_eq!(paddle_after_key(1, 7, vp, Key::Dir(Direction::Left)), 0);
    assert_eq!(paddle_after_key(10, 7, vp, Key::Dir(Direction::Right)), 12);
    assert_eq!(paddle_after_key(72, 7, vp, Key::Dir(Direction::Right)), 73);
    assert_eq!(paddle_after_key(10, 7, vp, Key::Action), 10);
}

#[test]
fn flappy_gap_and_levels() {
    assert_eq!(gap_height(Level(1)), 8);
    assert_eq!(gap_height(Level(5)), 4);
    assert_eq!(gap_height(Level(10)), 4);
    assert_eq!(pipe_gap_y(22, 0), 4);
    assert_eq!(pipe_gap_y(22, 13), 5);
    assert_eq!(pipe_gap_y(5, 99), 4);
    assert_eq!(level_for_score(0), Level(1));
    assert_eq!(level_for_score(25), Level(3));
    assert_eq!(level_for_score(1000), Level(10));
}

#[test]
fn pong_points_and_match_end() {
    let start = PongTally {
        player_score: 0,
        cpu_score: 0,
        score: Score(0),
        level: Level(1),
        is_game_over: false,
        is_complete: false,
    };
    let after = score_point(start, Some(Scorer::Player));
    assert_eq!(after.player_score, 1);
    assert_eq!(after.score.0, 100);
    assert_eq!(after.level, Level(1));
    assert_eq!(score_point(start, None), start);

    let close = PongTally {
        player_score: 10,
        ..start
    };
    let won = score_point(close, Some(Scorer::Player));
    assert!(won.is_complete);
    assert_eq!(won.level, Level(6));

    let lost = score_point(
        PongTally {
            cpu_score: 10,
            ..start
        },
        Some(Scorer::Cpu),
    );
    assert!(lost.is_game_over);
    assert!(!lost.is_complete);
}

#[test]
fn dino_nights_alternate_every_seven_hundred_points() {
    assert!(!is_night(0));
    assert!(!is_night(699));
    assert!(is_night(700));
    assert!(is_night(899));
    assert!(!is_night(900));
    assert!(!is_night(1000));
    assert!(!is_night(1399));
    assert!(is_night(1400));
    assert!(is_night(1599));
    assert!(!is_night(1600));
}

#[test]
fn dino_level_grows_every_250_points() {
    assert_eq!(dino_level(0), Level(1));
    assert_eq!(dino_level(249), Level(1));
    assert_eq!(dino_level(250), Level(2));
    assert_eq!(dino_level(100_000), Level(10));
}

#[test]
fn brick_collision_deflects() {
    let mut bricks = spawn_level_bricks(
        TerminalSize {
            width: 80,
            height: 24,
        },
        Level(1),
    );
    let mut score = Score(0);

    let target = bricks[0];
    let hit = damage_brick_at(&mut bricks, &mut score, target.col, target.row);

    let checked = bricks[0];
    assert_eq!(hit, Some(0));
    assert_ne!(checked.hp, target.hp);
}

#[test]
fn scoring_on_right_side_increments_player_score() {
    let start = PongTally {
        player_score: 0,
        cpu_score: 0,
        score: Score(0),
        level: Level(1),
        is_game_over: false,
        is_complete: false,
    };

    let state = score_point(start, Some(Scorer::Player));

    assert_eq!(state.player_score, 1);
    assert_eq!(state.score.0, 100);
}

#[test]
fn dino_jumps_ducks_and_falls_fast() {
    assert_eq!(
        dino_key(DinoStatus::Running, Key::Action),
        (DinoStatus::Jumping, JumpEffect::Launch)
    );
    assert_eq!(
        dino_key(DinoStatus::Running, Key::Dir(Direction::Up)),
        (DinoStatus::Jumping, JumpEffect::Launch)
    );
    assert_eq!(
        dino_key(DinoStatus::Ducking, Key::Action),
        (DinoStatus::Ducking, JumpEffect::Keep)
    );
    assert_eq!(
        dino_key(DinoStatus::Jumping, Key::Dir(Direction::Down)),
        (DinoStatus::Jumping, JumpEffect::FastFall)
    );
    assert_eq!(
        dino_key(DinoStatus::Running, Key::Dir(Direction::Down)),
        (DinoStatus::Ducking, JumpEffect::Keep)
    );
    assert_eq!(
        dino_key(DinoStatus::Running, Key::Flag),
        (DinoStatus::Running, JumpEffect::Keep)
    );
    assert_eq!(release_duck(DinoStatus::Ducking), DinoStatus::Running);
    assert_eq!(release_duck(DinoStatus::Jumping), DinoStatus::Jumping);
}

#[test]
fn bricks_levels_run_to_five() {
    let mut bricks = spawn_level_bricks(viewport(), Level(2));
    assert!(!level_cleared(Level(2), &bricks));
    for b in bricks.iter_mut() {
        b.is_alive = false;
    }
    assert!(level_cleared(Level(2), &bricks));
    assert!(!level_cleared(Level(6), &bricks));
    assert_eq!(next_level(Level(2)), Some(Level(3)));
    assert_eq!(next_level(Level(4)), Some(Level(5)));
    assert_eq!(next_level(Level(5)), None);
}

#[test]
fn pong_keys_move_paddles() {
    assert_eq!(pong_move(10, false, Key::Number(2)), PongMove::TwoPlayer);
    assert_eq!(pong_move(30, false, Key::Number(2)), PongMove::Stay);
    assert_eq!(pong_move(100, false, Key::Dir(Direction::Up)), PongMove::PlayerUp);
    assert_eq!(pong_move(100, false, Key::Dir(Direction::Down)), PongMove::PlayerDown);
    assert_eq!(pong_move(100, false, Key::Dir(Direction::Left)), PongMove::Stay);
    assert_eq!(pong_move(100, true, Key::Dir(Direction::Left)), PongMove::CpuUp);
    assert_eq!(pong_move(100, true, Key::Dir(Direction::Right)), PongMove::CpuDown);
    assert_eq!(pong_move(0, true, Key::Action), PongMove::Stay);
}
