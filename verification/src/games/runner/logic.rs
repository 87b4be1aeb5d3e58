use vstd::prelude::*;

use crate::engine::input::Key;
use crate::games::rand::{fast_rand, splitmix64};
use crate::games::runner::state::{RunnerModel, RunnerState, TrafficCar};
use crate::types::geometry::{Direction, Level, Score};

verus! {

pub const MIN_SPEED: u16 = 30;
pub const MAX_SPEED: u16 = 200;
pub const SPEED_INCREMENT: u16 = 5;
pub const PLAYER_WIDTH: u16 = 5;

/// The state after the player presses `key`: Up/Down change lane within the
/// four lanes, Right/Action speed up by 5 up to 200, Left slows down by 5 down
/// to 30; nothing changes once the game is over.
pub open spec fn after_input(m: RunnerModel, key: Key) -> RunnerModel {
    if m.is_game_over {
        m
    } else {
        match key {
            Key::Dir(Direction::Up) => if m.player_lane > 0 {
                RunnerModel { player_lane: (m.player_lane - 1) as u8, ..m }
            } else {
                m
            },
            Key::Dir(Direction::Down) => if m.player_lane < 3 {
                RunnerModel { player_lane: (m.player_lane + 1) as u8, ..m }
            } else {
                m
            },
            Key::Dir(Direction::Right) | Key::Action => RunnerModel {
                speed: if m.speed + SPEED_INCREMENT < MAX_SPEED {
                    (m.speed + SPEED_INCREMENT) as u16
                } else {
                    MAX_SPEED
                },
                ..m
            },
            Key::Dir(Direction::Left) => RunnerModel {
                speed: if m.speed.saturating_sub(SPEED_INCREMENT) > MIN_SPEED {
                    m.speed.saturating_sub(SPEED_INCREMENT)
                } else {
                    MIN_SPEED
                },
                ..m
            },
            _ => m,
        }
    }
}

/// Whether pressing `key` would add to a speed that leaves no room for it in a `u16`.
pub open spec fn input_overflows(m: RunnerModel, key: Key) -> bool {
    &&& !m.is_game_over
    &&& (key == Key::Dir(Direction::Right) || key == Key::Action)
    &&& m.speed + SPEED_INCREMENT > u16::MAX
}

/// One level up when the score has reached 500 points per current level,
/// up to level 5.
pub open spec fn level_up(m: RunnerModel) -> RunnerModel {
    if m.score.0 >= m.level.0 * 500 && m.level.0 < 5 {
        RunnerModel { level: Level((m.level.0 + 1) as u8), ..m }
    } else {
        m
    }
}

/// How far the cars move left in one tick: a thirtieth of the speed, at least 1.
pub open spec fn scroll_step(speed: u16) -> u16 {
    if speed / 30 > 1 { speed / 30 } else { 1 }
}

/// A car moved `scroll` columns to the left, stopping at column 0.
pub open spec fn scrolled(car: TrafficCar, scroll: u16) -> TrafficCar {
    TrafficCar { col: car.col.saturating_sub(scroll), ..car }
}

/// Whether a car is still on the road (left of it is column 0).
pub open spec fn on_road(car: TrafficCar) -> bool {
    car.col > 0
}

/// The cars after moving `scroll` columns left; those that reach column 0 leave.
pub open spec fn scroll_cars(cars: Seq<TrafficCar>, scroll: u16) -> Seq<TrafficCar> {
    cars.map_values(|c: TrafficCar| scrolled(c, scroll)).filter(|c: TrafficCar| on_road(c))
}

/// Whether `car` overlaps the player's car (columns 6 to 10) in `lane`.
pub open spec fn hits_player(car: TrafficCar, lane: u8) -> bool {
    &&& car.lane == lane
    &&& 6 < car.col + car.width
    &&& 6 + PLAYER_WIDTH > car.col
}

/// The game is over when some car overlaps the player's car.
pub open spec fn collision(m: RunnerModel) -> RunnerModel {
    if exists|i: int| 0 <= i < m.obstacles.len() && hits_player(#[trigger] m.obstacles[i], m.player_lane) {
        RunnerModel { is_game_over: true, ..m }
    } else {
        m
    }
}

/// Ticks between two spawn attempts: 40 less 5 per level, at least 15.
pub open spec fn base_gap(level: u8) -> u64 {
    let g = 40u64.saturating_sub((level * 5) as u64);
    if g > 15 { g } else { 15 }
}

/// Column at which new cars appear: two left of the right border.
pub open spec fn spawn_col(m: RunnerModel) -> u16 {
    m.bounds.width.saturating_sub(2)
}

/// Whether some car is still within the rightmost third of the road.
pub open spec fn road_is_busy(m: RunnerModel) -> bool {
    exists|i: int|
        0 <= i < m.obstacles.len() && #[trigger] m.obstacles[i].col > m.bounds.width.saturating_sub(
            m.bounds.width / 3,
        )
}

/// The cars that a spawn adds: one car (a truck of width 7 one time in five) in
/// a pseudo-random lane, and from level 3 on, one time in three, a second car in
/// another pseudo-random lane when it differs from the first.
pub open spec fn spawned_cars(m: RunnerModel) -> Seq<TrafficCar> {
    let r = splitmix64(m.tick ^ (m.score.0 as u64));
    let first = TrafficCar {
        lane: (r % 4) as u8,
        col: spawn_col(m),
        width: if r % 5 == 0 { 7 } else { 5 },
    };
    let r2 = splitmix64(vstd::wrapping::u64_specs::wrapping_mul(m.tick, 7));
    if m.level.0 >= 3 && r % 3 == 0 && (r2 % 4) as u8 != first.lane {
        seq![first, TrafficCar { lane: (r2 % 4) as u8, col: spawn_col(m), width: 5 }]
    } else {
        seq![first]
    }
}

/// New cars appear every `base_gap` ticks unless the rightmost third of the
/// road is still occupied.
pub open spec fn spawn(m: RunnerModel) -> RunnerModel {
    if m.tick % base_gap(m.level.0) != 0 || road_is_busy(m) {
        m
    } else {
        RunnerModel { obstacles: m.obstacles + spawned_cars(m), ..m }
    }
}

/// The first part of a tick: the tick counter and the road markings advance,
/// and every tenth tick a tenth of the speed is scored and the level may rise.
pub open spec fn advance(m: RunnerModel) -> RunnerModel {
    let t = vstd::wrapping::u64_specs::wrapping_add(m.tick, 1);
    let m1 = RunnerModel {
        tick: t,
        road_scroll: vstd::wrapping::u16_specs::wrapping_add(m.road_scroll, m.speed / 20),
        ..m
    };
    if t % 10 == 0 {
        level_up(RunnerModel { score: Score(m1.score.0.saturating_add((m.speed / 10) as u32)), ..m1 })
    } else {
        m1
    }
}

/// One tick of a Runner session: advance, move the cars, detect a crash,
/// spawn new cars. A finished game does not change.
pub open spec fn runner_tick(m: RunnerModel) -> RunnerModel {
    if m.is_game_over {
        m
    } else {
        let m2 = advance(m);
        let m3 = RunnerModel { obstacles: scroll_cars(m2.obstacles, scroll_step(m2.speed)), ..m2 };
        spawn(collision(m3))
    }
}

/// Advances the session by one tick.
pub fn tick(state: &mut RunnerState)
    ensures
        final(state)@ == runner_tick(old(state)@),
{
    if state.is_game_over {
        return;
    }
    state.tick = state.tick.wrapping_add(1);
    state.road_scroll = state.road_scroll.wrapping_add(state.speed / 20);

    if state.tick % 10 == 0 {
        state.score.0 = state.score.0.saturating_add((state.speed as u32) / 10);
        check_level_up(state);
    }
    assert(state@ == advance(old(state)@));

    move_obstacles(state);
    check_collision(state);
    spawn_obstacles(state);
}

/// Applies one key press.
pub fn handle_input(state: &mut RunnerState, key: Key)
    requires
        !input_overflows(old(state)@, key),
    ensures
        final(state)@ == after_input(old(state)@, key),
{
    if state.is_game_over {
        return;
    }
    match key {
        Key::Dir(Direction::Up) => {
            if state.player_lane > 0 {
                state.player_lane = state.player_lane - 1;
            }
        },
        Key::Dir(Direction::Down) => {
            if state.player_lane < RunnerState::lane_count() - 1 {
                state.player_lane = state.player_lane + 1;
            }
        },
        Key::Dir(Direction::Right) | Key::Action => {
            let faster = state.speed + SPEED_INCREMENT;
            state.speed = if faster < MAX_SPEED { faster } else { MAX_SPEED };
        },
        Key::Dir(Direction::Left) => {
            let slower = state.speed.saturating_sub(SPEED_INCREMENT);
            state.speed = if slower > MIN_SPEED { slower } else { MIN_SPEED };
        },
        _ => {},
    }
}

/// Raises the level by one when the score reaches 500 per level, up to 5.
pub fn check_level_up(state: &mut RunnerState)
    ensures
        final(state)@ == level_up(old(state)@),
{
    let threshold: u32 = (state.level.0 as u32) * 500;
    if state.score.0 >= threshold && state.level.0 < 5 {
        state.level.0 = state.level.0 + 1;
    }
}

/// Moves every car left by the scroll step and drops those that reach column 0.
pub fn move_obstacles(state: &mut RunnerState)
    ensures
        final(state)@ == (RunnerModel {
            obstacles: scroll_cars(old(state).obstacles@, scroll_step(old(state).speed)),
            ..old(state)@
        }),
{
    let scroll: u16 = if state.speed / 30 > 1 { state.speed / 30 } else { 1 };
    let ghost cars = state.obstacles@;
    let ghost moved = cars.map_values(|c: TrafficCar| scrolled(c, scroll));
    let mut kept: Vec<TrafficCar> = Vec::with_capacity(state.obstacles.len());
    let n = state.obstacles.len();
    let mut i: usize = 0;
    while i < n
        invariant
            n == cars.len(),
            state.obstacles@ == cars,
            i <= n,
            moved == cars.map_values(|c: TrafficCar| scrolled(c, scroll)),
            kept@ == moved.take(i as int).filter(|c: TrafficCar| on_road(c)),
        decreases n - i,
    {
        let car = state.obstacles[i];
        let next = TrafficCar { col: car.col.saturating_sub(scroll), ..car };
        proof {
            assert(moved.take(i + 1) =~= moved.take(i as int).push(next));
            moved.take(i as int).lemma_filter_push(next, |c: TrafficCar| on_road(c));
        }
        if next.col > 0 {
            kept.push(next);
        }
        i = i + 1;
    }
    proof {
        assert(moved.take(n as int) =~= moved);
    }
    state.obstacles = kept;
}

/// Ends the game when a car overlaps the player's car. A car's right edge is
/// compared without adding its width to its column, so that no car position
/// overflows.
pub fn check_collision(state: &mut RunnerState)
    ensures
        final(state)@ == collision(old(state)@),
{
    let player_left = RunnerState::player_col();
    let player_right = player_left + PLAYER_WIDTH;
    let player_lane = state.player_lane;
    let n = state.obstacles.len();
    let mut i: usize = 0;
    while i < n
        invariant
            state@ == old(state)@,
            n == state.obstacles@.len(),
            i <= n,
            player_left == 6,
            player_right == 11,
            player_lane == state.player_lane,
            forall|j: int| 0 <= j < i ==> !hits_player(#[trigger] state.obstacles@[j], player_lane),
        decreases n - i,
    {
        let car = state.obstacles[i];
        if car.lane == player_lane {
            let reaches_player = car.col > player_left || car.width > player_left - car.col;
            if reaches_player && player_right > car.col {
                state.is_game_over = true;
                return;
            }
        }
        i = i + 1;
    }
}

/// Adds new cars at the right border on spawn ticks when the road has room.
pub fn spawn_obstacles(state: &mut RunnerState)
    ensures
        final(state)@ == spawn(old(state)@),
{
    let scaled: u64 = (state.level.0 as u64) * 5;
    let gap = 40u64.saturating_sub(scaled);
    let base_gap: u64 = if gap > 15 { gap } else { 15 };
    if state.tick % base_gap != 0 {
        return;
    }

    let min_spacing = state.bounds.width / 3;
    let limit = state.bounds.width.saturating_sub(min_spacing);
    let n = state.obstacles.len();
    let mut i: usize = 0;
    while i < n
        invariant
            state@ == old(state)@,
            n == state.obstacles@.len(),
            i <= n,
            limit == state.bounds.width.saturating_sub(state.bounds.width / 3),
            forall|j: int| 0 <= j < i ==> !(#[trigger] state.obstacles@[j].col > limit),
        decreases n - i,
    {
        if state.obstacles[i].col > limit {
            return;
        }
        i = i + 1;
    }

    let rand_value = fast_rand(state.tick ^ (state.score.0 as u64));
    let lane = (rand_value % (RunnerState::lane_count() as u64)) as u8;
    let width: u16 = if rand_value % 5 == 0 { 7 } else { 5 };
    let col = state.bounds.width.saturating_sub(2);
    state.obstacles.push(TrafficCar { lane, col, width });

    if state.level.0 >= 3 && rand_value % 3 == 0 {
        let second_rand = fast_rand(state.tick.wrapping_mul(7));
        let second_lane = (second_rand % (RunnerState::lane_count() as u64)) as u8;
        if second_lane != lane {
            state.obstacles.push(TrafficCar { lane: second_lane, col, width: 5 });
        }
    }
    assert(state.obstacles@ =~= old(state).obstacles@ + spawned_cars(old(state)@));
}


/// The player's car never leaves the four lanes: neither a key press nor a tick
/// moves it out of them.
pub proof fn lemma_lane_stays_on_road(m: RunnerModel, key: Key)
    requires
        m.player_lane < 4,
    ensures
        after_input(m, key).player_lane < 4,
        runner_tick(m).player_lane < 4,
{
}

/// The speed never leaves the range 30 to 200 once it is in it: key presses
/// clamp it and ticks do not change it.
pub proof fn lemma_speed_stays_in_range(m: RunnerModel, key: Key)
    requires
        MIN_SPEED <= m.speed <= MAX_SPEED,
    ensures
        MIN_SPEED <= after_input(m, key).speed <= MAX_SPEED,
        runner_tick(m).speed == m.speed,
{
}

/// A tick never lowers the score or the level, and never raises the level past 5.
pub proof fn lemma_tick_progress(m: RunnerModel)
    requires
        m.level.0 <= 5,
    ensures
        runner_tick(m).score.0 >= m.score.0,
        m.level.0 <= runner_tick(m).level.0 <= 5,
{
}

/// Once the game is over, ticks and key presses leave the session unchanged.
pub proof fn lemma_game_over_is_final(m: RunnerModel, key: Key)
    requires
        m.is_game_over,
    ensures
        runner_tick(m) == m,
        after_input(m, key) == m,
{
}

/// A tick never ends a running game unless some car then overlaps the
/// player's car; and a crash is never missed.
pub proof fn lemma_crash_iff_overlap(m: RunnerModel)
    requires
        !m.is_game_over,
    ensures
        ({
            let m2 = advance(m);
            let cars = scroll_cars(m2.obstacles, scroll_step(m2.speed));
            runner_tick(m).is_game_over <==> exists|i: int|
                0 <= i < cars.len() && hits_player(#[trigger] cars[i], m.player_lane)
        }),
{
}

} // verus!
