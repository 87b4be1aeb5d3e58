use std::collections::VecDeque;

use vstd::prelude::*;

use crate::engine::input::Key;
use crate::games::rand::{fast_rand, splitmix64};
use crate::games::snake::state::{SnakeModel, SnakeState, SNAKE_HUD_HEIGHT};
use crate::types::geometry::{Direction, Score, TerminalSize, Vec2};

verus! {

/// Milliseconds of play time that one frame of the game loop adds.
pub const FRAME_MS: u64 = 33;
/// Points for one piece of food.
pub const FOOD_POINTS: u32 = 10;
/// Number of food positions tried before one on the snake is accepted.
pub const FOOD_ATTEMPTS: u64 = 1001;

/// The direction that points the other way.
pub open spec fn opposite(d: Direction) -> Direction {
    match d {
        Direction::Up => Direction::Down,
        Direction::Down => Direction::Up,
        Direction::Left => Direction::Right,
        Direction::Right => Direction::Left,
    }
}

/// The cell next to `p` in direction `d`.
pub open spec fn neighbour(p: Vec2, d: Direction) -> Vec2 {
    match d {
        Direction::Up => Vec2 { x: p.x, y: (p.y - 1) as i32 },
        Direction::Down => Vec2 { x: p.x, y: (p.y + 1) as i32 },
        Direction::Left => Vec2 { x: (p.x - 1) as i32, y: p.y },
        Direction::Right => Vec2 { x: (p.x + 1) as i32, y: p.y },
    }
}

/// The snake has a head whose neighbours all have `i32` coordinates.
pub open spec fn snake_wf(m: SnakeModel) -> bool {
    &&& m.segments.len() >= 1
    &&& i32::MIN < m.segments[0].x < i32::MAX
    &&& i32::MIN < m.segments[0].y < i32::MAX
}

/// The first queued turn is taken off the queue and applied unless it would
/// reverse the snake.
pub open spec fn apply_queued_turn(m: SnakeModel) -> SnakeModel {
    if m.input_queue.len() > 0 {
        let d = m.input_queue[0];
        SnakeModel {
            input_queue: m.input_queue.drop_first(),
            direction: if d != opposite(m.direction) { d } else { m.direction },
            ..m
        }
    } else {
        m
    }
}

/// Whether `p` lies outside the play area: columns 0 to width - 1, rows 2 to
/// height - 1.
pub open spec fn outside_area(bounds: TerminalSize, p: Vec2) -> bool {
    p.x < 0 || p.x > bounds.width - 1 || p.y < SNAKE_HUD_HEIGHT || p.y > bounds.height - 1
}

/// The `attempt`-th pseudo-random food position for a given score: any column,
/// any row below the HUD.
pub open spec fn food_candidate(score: u32, bounds: TerminalSize, attempt: u64) -> Vec2 {
    Vec2 {
        x: (splitmix64((score as u64) ^ attempt) % (bounds.width as u64)) as i32,
        y: ((splitmix64(vstd::wrapping::u64_specs::wrapping_mul(score as u64, 11) ^ attempt) % (
        bounds.height.saturating_sub(SNAKE_HUD_HEIGHT) as u64)) + SNAKE_HUD_HEIGHT) as i32,
    }
}

/// The food position chosen from attempt `k` on: the first candidate that is
/// not on the snake, or the last candidate when all of them are.
pub open spec fn food_from(segments: Seq<Vec2>, score: u32, bounds: TerminalSize, k: int) -> Vec2
    decreases FOOD_ATTEMPTS - k,
{
    let c = food_candidate(score, bounds, k as u64);
    if !segments.contains(c) || k >= FOOD_ATTEMPTS {
        c
    } else {
        food_from(segments, score, bounds, k + 1)
    }
}

/// One step of the snake: take a queued turn, move the head; leaving the play
/// area or running into the body ends the game; eating the food scores 10,
/// grows the snake by one, places new food and speeds up by 2 ms down to 50 ms.
pub open spec fn step(m: SnakeModel) -> SnakeModel {
    let m1 = apply_queued_turn(m);
    let head = neighbour(m1.segments[0], m1.direction);
    if outside_area(m1.bounds, head) || m1.segments.contains(head) {
        SnakeModel { is_game_over: true, ..m1 }
    } else if head == m1.food {
        let segments = seq![head] + m1.segments;
        let score = m1.score.0.saturating_add(FOOD_POINTS);
        SnakeModel {
            segments,
            score: Score(score),
            food: food_from(segments, score, m1.bounds, 1),
            tick_rate: if m1.tick_rate > 50 { m1.tick_rate.saturating_sub(2) } else { m1.tick_rate },
            ..m1
        }
    } else {
        SnakeModel { segments: (seq![head] + m1.segments).drop_last(), ..m1 }
    }
}

/// One frame: 33 ms are added to the accumulator, and once it reaches the step
/// interval the snake steps and the interval is taken off. A finished game
/// does not change.
pub open spec fn snake_tick(m: SnakeModel) -> SnakeModel {
    if m.is_game_over || m.is_complete {
        m
    } else {
        let acc = (m.tick_accumulator + FRAME_MS) as u64;
        if acc >= m.tick_rate {
            step(SnakeModel { tick_accumulator: (acc - m.tick_rate) as u64, ..m })
        } else {
            SnakeModel { tick_accumulator: acc, ..m }
        }
    }
}

/// A direction key is queued when fewer than two turns wait; other keys and
/// keys after the end are ignored.
pub open spec fn after_input(m: SnakeModel, key: Key) -> SnakeModel {
    if m.is_game_over || m.is_complete {
        m
    } else {
        match key {
            Key::Dir(d) => if m.input_queue.len() < 2 {
                SnakeModel { input_queue: m.input_queue.push(d), ..m }
            } else {
                m
            },
            _ => m,
        }
    }
}

/// Advances the session by one frame (a finished game does not change).
pub fn tick(state: &mut SnakeState)
    requires
        !old(state).is_game_over && !old(state).is_complete ==> snake_wf(old(state)@)
            && old(state).tick_accumulator + FRAME_MS <= u64::MAX,
    ensures
        final(state)@ == snake_tick(old(state)@),
        snake_wf(old(state)@) ==> snake_wf(final(state)@),
{
    if state.is_game_over || state.is_complete {
        return;
    }
    state.tick_accumulator = state.tick_accumulator + FRAME_MS;
    if state.tick_accumulator >= state.tick_rate {
        state.tick_accumulator = state.tick_accumulator - state.tick_rate;
        step_snake(state);
    }
}

/// Queues a turn.
pub fn handle_input(state: &mut SnakeState, key: Key)
    ensures
        final(state)@ == after_input(old(state)@, key),
{
    if state.is_game_over || state.is_complete {
        return;
    }
    if let Key::Dir(dir) = key {
        if state.input_queue.len() < 2 {
            state.input_queue.push_back(dir);
        }
    }
}

/// Moves the snake by one cell.
pub fn step_snake(state: &mut SnakeState)
    requires
        snake_wf(old(state)@),
    ensures
        final(state)@ == step(old(state)@),
        snake_wf(final(state)@),
{
    let ghost m0 = state@;
    if let Some(next_dir) = state.input_queue.pop_front() {
        if can_turn(state.direction, next_dir) {
            state.direction = next_dir;
        }
    }
    assert(state@ == apply_queued_turn(m0));

    let head = state.segments[0];
    let next_head = match state.direction {
        Direction::Up => Vec2::new(head.x, head.y - 1),
        Direction::Down => Vec2::new(head.x, head.y + 1),
        Direction::Left => Vec2::new(head.x - 1, head.y),
        Direction::Right => Vec2::new(head.x + 1, head.y),
    };

    if next_head.x < 0 || next_head.x > state.play_area_right() || next_head.y
        < state.play_area_top() || next_head.y > state.play_area_bottom() {
        state.is_game_over = true;
        return;
    }

    if deque_contains(&state.segments, next_head) {
        state.is_game_over = true;
        return;
    }

    state.segments.push_front(next_head);

    if next_head == state.food {
        state.score.0 = state.score.0.saturating_add(FOOD_POINTS);
        place_food(state);
        if state.tick_rate > 50 {
            state.tick_rate = state.tick_rate.saturating_sub(2);
        }
    } else {
        state.segments.pop_back();
    }
}

/// Whether a turn from `current` to `next` is allowed: any turn but a reversal.
pub fn can_turn(current: Direction, next: Direction) -> (r: bool)
    ensures
        r == (next != opposite(current)),
{
    match (current, next) {
        (Direction::Up, Direction::Down) => false,
        (Direction::Down, Direction::Up) => false,
        (Direction::Left, Direction::Right) => false,
        (Direction::Right, Direction::Left) => false,
        _ => true,
    }
}

/// Whether `p` is one of the cells of `cells`.
pub fn deque_contains(cells: &VecDeque<Vec2>, p: Vec2) -> (r: bool)
    ensures
        r == cells@.contains(p),
{
    let n = cells.len();
    let mut i: usize = 0;
    while i < n
        invariant
            n == cells@.len(),
            i <= n,
            forall|j: int| 0 <= j < i ==> cells@[j] != p,
        decreases n - i,
    {
        if cells[i] == p {
            assert(cells@[i as int] == p);
            return true;
        }
        i = i + 1;
    }
    false
}

/// Places new food on a pseudo-random cell off the snake (see `food_from`).
pub fn place_food(state: &mut SnakeState)
    requires
        old(state).bounds.width > 0,
        old(state).bounds.height > SNAKE_HUD_HEIGHT,
    ensures
        final(state)@ == (SnakeModel {
            food: food_from(old(state)@.segments, old(state).score.0, old(state).bounds, 1),
            ..old(state)@
        }),
{
    let mut attempt: u64 = 1;
    let score = state.score.0 as u64;
    let width = state.bounds.width as u64;
    let rows = state.bounds.height.saturating_sub(SNAKE_HUD_HEIGHT) as u64;
    loop
        invariant
            state@ == old(state)@,
            1 <= attempt <= FOOD_ATTEMPTS,
            score == state.score.0,
            width == state.bounds.width,
            width > 0,
            rows == state.bounds.height - SNAKE_HUD_HEIGHT,
            rows > 0,
            food_from(state@.segments, state.score.0, state.bounds, 1) == food_from(
                state@.segments,
                state.score.0,
                state.bounds,
                attempt as int,
            ),
        decreases FOOD_ATTEMPTS - attempt,
    {
        let rx = (fast_rand(score ^ attempt) % width) as i32;
        let ry_raw = (fast_rand(score.wrapping_mul(11) ^ attempt) % rows) as i32;
        let ry = ry_raw + (SNAKE_HUD_HEIGHT as i32);
        let candidate = Vec2::new(rx, ry);
        assert(candidate == food_candidate(state.score.0, state.bounds, attempt));

        if !deque_contains(&state.segments, candidate) || attempt >= FOOD_ATTEMPTS {
            state.food = candidate;
            return;
        }
        attempt = attempt + 1;
    }
}


/// Two cells are adjacent when they differ by one in exactly one coordinate.
pub open spec fn adjacent(a: Vec2, b: Vec2) -> bool {
    (a.x == b.x && (a.y - b.y == 1 || b.y - a.y == 1)) || (a.y == b.y && (a.x - b.x == 1 || b.x
        - a.x == 1))
}

/// Every segment is adjacent to the next one.
pub open spec fn contiguous(segments: Seq<Vec2>) -> bool {
    forall|i: int| 0 <= i < segments.len() - 1 ==> adjacent(#[trigger] segments[i], segments[i + 1])
}

/// The snake never reverses: whatever was queued, the direction after a step
/// is not the opposite of the direction before it, and the head moves to the
/// neighbouring cell in that direction.
pub proof fn lemma_step_never_reverses(m: SnakeModel)
    requires
        snake_wf(m),
    ensures
        step(m).direction != opposite(m.direction),
        !step(m).is_game_over ==> step(m).segments[0] == neighbour(m.segments[0], step(m).direction),
{
}

/// A step never runs the snake into itself or off the play area: when the
/// cell ahead is on the snake the game ends; when the game goes on, the new
/// head is inside the play area and on no cell the snake covered before; and
/// a snake that covers no cell twice still covers none twice.
pub proof fn lemma_step_never_bites_itself(m: SnakeModel)
    requires
        snake_wf(m),
        !m.is_game_over,
    ensures
        m.segments.contains(neighbour(m.segments[0], step(m).direction)) ==> step(m).is_game_over,
        !step(m).is_game_over ==> {
            let head = step(m).segments[0];
            &&& !m.segments.contains(head)
            &&& 0 <= head.x < m.bounds.width
            &&& SNAKE_HUD_HEIGHT <= head.y < m.bounds.height
        },
        !step(m).is_game_over && m.segments.no_duplicates() ==> step(m).segments.no_duplicates(),
{
    let m1 = apply_queued_turn(m);
    let head = neighbour(m1.segments[0], m1.direction);
    assert(m1.segments == m.segments);
    if !step(m).is_game_over {
        let grown = seq![head] + m1.segments;
        assert(grown[0] == head);
        if m.segments.no_duplicates() {
            assert forall|a: int, b: int| 0 <= a < grown.len() && 0 <= b < grown.len() && a != b implies grown[a]
                != grown[b] by {
                if a == 0 {
                    assert(grown[b] == m.segments[b - 1]);
                } else if b == 0 {
                    assert(grown[a] == m.segments[a - 1]);
                } else {
                    assert(grown[a] == m.segments[a - 1]);
                    assert(grown[b] == m.segments[b - 1]);
                }
            }
            assert(grown.no_duplicates());
            let shrunk = grown.drop_last();
            assert forall|a: int, b: int| 0 <= a < shrunk.len() && 0 <= b < shrunk.len() && a != b implies shrunk[a]
                != shrunk[b] by {
                assert(shrunk[a] == grown[a]);
                assert(shrunk[b] == grown[b]);
            }
        }
    }
}

/// The snake grows by exactly one segment when it eats and keeps its length
/// otherwise; eating scores 10 points (up to the score's limit).
pub proof fn lemma_step_growth(m: SnakeModel)
    requires
        snake_wf(m),
        !step(m).is_game_over,
        m.score.0 + FOOD_POINTS <= u32::MAX,
    ensures
        ({
            let ate = neighbour(m.segments[0], apply_queued_turn(m).direction) == m.food;
            &&& ate ==> step(m).segments.len() == m.segments.len() + 1 && step(m).score.0
                == m.score.0 + FOOD_POINTS
            &&& !ate ==> step(m).segments.len() == m.segments.len() && step(m).score == m.score
        }),
{
}

/// A step keeps the body connected: each segment stays next to the following one.
pub proof fn lemma_step_keeps_body_connected(m: SnakeModel)
    requires
        snake_wf(m),
        contiguous(m.segments),
    ensures
        contiguous(step(m).segments),
{
    let m1 = apply_queued_turn(m);
    let head = neighbour(m1.segments[0], m1.direction);
    let grown = seq![head] + m1.segments;
    assert(adjacent(grown[0], grown[1]));
    assert forall|i: int| 0 <= i < grown.len() - 1 implies adjacent(#[trigger] grown[i], grown[i + 1]) by {
        if i > 0 {
            assert(grown[i] == m1.segments[i - 1]);
            assert(grown[i + 1] == m1.segments[i]);
        }
    }
    let shrunk = grown.drop_last();
    assert forall|i: int| 0 <= i < shrunk.len() - 1 implies adjacent(#[trigger] shrunk[i], shrunk[i + 1]) by {
        assert(shrunk[i] == grown[i]);
        assert(shrunk[i + 1] == grown[i + 1]);
    }
}

/// A fresh snake is connected.
pub proof fn lemma_reset_connected(m: SnakeModel)
    requires
        m.bounds.width / 2 >= 0,
    ensures
        contiguous(crate::games::snake::state::reset_model(m).segments),
{
    let s = crate::games::snake::state::reset_model(m).segments;
    assert forall|i: int| 0 <= i < s.len() - 1 implies adjacent(#[trigger] s[i], s[i + 1]) by {
        assert(i == 0 || i == 1);
    }
}

/// At most two turns ever wait in the queue.
pub proof fn lemma_queue_bounded(m: SnakeModel, key: Key)
    requires
        m.input_queue.len() <= 2,
        snake_wf(m),
    ensures
        after_input(m, key).input_queue.len() <= 2,
        snake_tick(m).input_queue.len() <= 2,
{
}

/// Once the game has ended, frames and key presses change nothing.
pub proof fn lemma_finished_game_is_frozen(m: SnakeModel, key: Key)
    requires
        m.is_game_over || m.is_complete,
    ensures
        snake_tick(m) == m,
        after_input(m, key) == m,
{
}

/// New food is never placed on the snake unless every one of the tries landed
/// on it, in which case the last try is used.
pub proof fn lemma_food_off_snake(segments: Seq<Vec2>, score: u32, bounds: TerminalSize, k: int)
    requires
        1 <= k <= FOOD_ATTEMPTS,
    ensures
        !segments.contains(food_from(segments, score, bounds, k)) || food_from(
            segments,
            score,
            bounds,
            k,
        ) == food_candidate(score, bounds, FOOD_ATTEMPTS),
    decreases FOOD_ATTEMPTS - k,
{
    if k < FOOD_ATTEMPTS {
        lemma_food_off_snake(segments, score, bounds, k + 1);
    }
}

} // verus!
