use vstd::prelude::*;

use crate::engine::input::Key;
use crate::games::invaders::state::{wave, Alien, Bullet, InvadersModel, InvadersState, ShieldCell};
use crate::games::rand::{fast_rand, splitmix64};
use crate::types::geometry::{Direction, Level, Score};

verus! {

/// Coordinates stay within this distance of the origin, so that the game's
/// arithmetic never leaves `i32`.
pub const COORD_LIMIT: i32 = 70_000;

/// Whether a coordinate is within the limit.
pub open spec fn small(v: i32) -> bool {
    -COORD_LIMIT <= v <= COORD_LIMIT
}

/// Every bullet is at a small position.
pub open spec fn bullets_small(bs: Seq<Bullet>) -> bool {
    forall|i: int| #![trigger bs[i]] 0 <= i < bs.len() ==> small(bs[i].x) && small(bs[i].y)
}

/// Every alien is in a small column.
pub open spec fn aliens_x_small(aliens: Seq<Alien>) -> bool {
    forall|i: int| #![trigger aliens[i]] 0 <= i < aliens.len() ==> small(aliens[i].x)
}

/// Aliens are in small columns and in rows 0 to 65536; while the game runs
/// the living ones are at most at row 65535.
pub open spec fn aliens_ok(aliens: Seq<Alien>, over: bool) -> bool {
    &&& aliens_x_small(aliens)
    &&& forall|i: int| #![trigger aliens[i]] 0 <= i < aliens.len() ==> 0 <= aliens[i].y <= 65_536
    &&& forall|i: int| #![trigger aliens[i]] 0 <= i < aliens.len() && !over && aliens[i].is_alive ==> aliens[i].y <= 65_535
}

/// The session's numbers stay where its arithmetic is exact: the formation
/// marches by one column either way, and every position is small.
pub open spec fn invaders_wf(m: InvadersModel) -> bool {
    &&& (m.direction == 1 || m.direction == -1)
    &&& small(m.player_x)
    &&& aliens_ok(m.aliens, m.is_game_over)
    &&& bullets_small(m.player_bullets)
    &&& bullets_small(m.alien_bullets)
}

/// Ticks between two marches: 24 less 2 per level, at least 6.
pub open spec fn spec_march_interval(level: u8) -> u64 {
    let v = 24u64.saturating_sub((level * 2) as u64);
    if v > 6 { v } else { 6 }
}

/// How many of the player's bullets may fly at once: 1, 2 from level 3, 3 from level 6.
pub open spec fn spec_max_player_bullets(level: u8) -> int {
    if level >= 6 {
        3
    } else if level >= 3 {
        2
    } else {
        1
    }
}

/// `v - d`, clamped to the `i32` range.
pub open spec fn sat_sub_i32(v: i32, d: i32) -> i32 {
    if v - d < i32::MIN { i32::MIN } else { (v - d) as i32 }
}

/// `v + d`, clamped to the `i32` range.
pub open spec fn sat_add_i32(v: i32, d: i32) -> i32 {
    if v + d > i32::MAX { i32::MAX } else { (v + d) as i32 }
}

/// Row from which the player fires: four above the bottom.
pub open spec fn fire_row(m: InvadersModel) -> i32 {
    m.bounds.height.saturating_sub(4) as i32
}

/// A key press: Left/Right move the player two columns, staying within
/// columns 1 to width - 2; Action fires when fewer bullets fly than the level allows.
pub open spec fn after_input(m: InvadersModel, key: Key) -> InvadersModel {
    match key {
        Key::Dir(Direction::Left) => {
            let x = sat_sub_i32(m.player_x, 2);
            InvadersModel { player_x: if x > 1 { x } else { 1 }, ..m }
        },
        Key::Dir(Direction::Right) => {
            let max_x = m.bounds.width.saturating_sub(2) as i32;
            let x = sat_add_i32(m.player_x, 2);
            InvadersModel { player_x: if x < max_x { x } else { max_x }, ..m }
        },
        Key::Action => if m.player_bullets.len() < spec_max_player_bullets(m.level.0) {
            InvadersModel {
                player_bullets: m.player_bullets.push(Bullet { x: m.player_x, y: fire_row(m) }),
                ..m
            }
        } else {
            m
        },
        _ => m,
    }
}

/// A player bullet one row higher.
pub open spec fn bullet_up(b: Bullet) -> Bullet {
    Bullet { y: (b.y - 1) as i32, ..b }
}

/// An alien bullet one row lower.
pub open spec fn bullet_down(b: Bullet) -> Bullet {
    Bullet { y: (b.y + 1) as i32, ..b }
}

/// Bullets move one row: the player's up, the aliens' down; the player's leave
/// above row 2 and the aliens' at the bottom row.
pub open spec fn move_bullets_model(m: InvadersModel) -> InvadersModel {
    let floor = m.bounds.height.saturating_sub(1) as i32;
    InvadersModel {
        player_bullets: m.player_bullets.map_values(|b: Bullet| bullet_up(b)).filter(|b: Bullet| b.y > 1),
        alien_bullets: m.alien_bullets.map_values(|b: Bullet| bullet_down(b)).filter(|b: Bullet| b.y < floor),
        ..m
    }
}

/// Whether a living alien's next step would reach column 1 or the column two
/// from the right border.
pub open spec fn at_edge(m: InvadersModel, a: Alien) -> bool {
    a.is_alive && (a.x + m.direction <= 1 || a.x + m.direction >= m.bounds.width.saturating_sub(2))
}

/// A living alien one row lower.
pub open spec fn dropped(a: Alien) -> Alien {
    if a.is_alive { Alien { y: (a.y + 1) as i32, ..a } } else { a }
}

/// A living alien one step sideways.
pub open spec fn stepped(a: Alien, direction: i32) -> Alien {
    if a.is_alive { Alien { x: (a.x + direction) as i32, ..a } } else { a }
}

/// The formation moves: one row down with a change of direction when a living
/// alien would reach an edge, one column sideways otherwise.
pub open spec fn march_move(m: InvadersModel) -> InvadersModel {
    if exists|i: int| 0 <= i < m.aliens.len() && at_edge(m, #[trigger] m.aliens[i]) {
        InvadersModel {
            direction: -m.direction as i32,
            aliens: m.aliens.map_values(|a: Alien| dropped(a)),
            ..m
        }
    } else {
        InvadersModel { aliens: m.aliens.map_values(|a: Alien| stepped(a, m.direction)), ..m }
    }
}

/// Whether a living alien has come within five rows of the bottom.
pub open spec fn too_low(m: InvadersModel, a: Alien) -> bool {
    a.is_alive && a.y >= m.bounds.height.saturating_sub(5)
}

/// The formation marches, and the game is over once a living alien has come
/// within five rows of the bottom.
pub open spec fn march_model(m: InvadersModel) -> InvadersModel {
    let m1 = march_move(m);
    if exists|i: int| 0 <= i < m1.aliens.len() && too_low(m1, #[trigger] m1.aliens[i]) {
        InvadersModel { is_game_over: true, ..m1 }
    } else {
        m1
    }
}

/// Ticks between two alien shots: 34 less 3 per level, at least 10.
pub open spec fn fire_interval(level: u8) -> u64 {
    let v = 34u64.saturating_sub((level * 3) as u64);
    if v > 10 { v } else { 10 }
}

/// The living aliens, in formation order.
pub open spec fn living(aliens: Seq<Alien>) -> Seq<Alien> {
    aliens.filter(|a: Alien| a.is_alive)
}

/// On shot ticks a pseudo-randomly chosen living alien fires from just below itself.
pub open spec fn fire_model(m: InvadersModel) -> InvadersModel {
    let alive = living(m.aliens);
    if m.tick % fire_interval(m.level.0) != 0 || alive.len() == 0 {
        m
    } else {
        let shooter = alive[(splitmix64(m.tick) % (alive.len() as u64)) as int];
        InvadersModel {
            alien_bullets: m.alien_bullets.push(Bullet { x: shooter.x, y: (shooter.y + 1) as i32 }),
            ..m
        }
    }
}

/// Points for an alien of a formation row: 30 on the top row, 20 on the next
/// two, 10 below.
pub open spec fn alien_points(row: u8) -> u32 {
    if row == 0 {
        30
    } else if row == 1 || row == 2 {
        20
    } else {
        10
    }
}

/// Whether a bullet hits a living alien: same row, at most one column apart.
pub open spec fn bullet_hits_alien(b: Bullet, a: Alien) -> bool {
    a.is_alive && -1 <= b.x - a.x <= 1 && b.y == a.y
}

/// The index of the first alien from `k` on that the bullet hits, or the
/// number of aliens if none.
pub open spec fn first_alien_hit(aliens: Seq<Alien>, b: Bullet, k: int) -> int
    decreases aliens.len() - k,
{
    if k >= aliens.len() {
        aliens.len() as int
    } else if bullet_hits_alien(b, aliens[k]) {
        k
    } else {
        first_alien_hit(aliens, b, k + 1)
    }
}

/// A bullet against the formation: the first alien it hits dies and its
/// points are scored. The flag tells whether an alien was hit.
pub open spec fn hit_alien_model(m: InvadersModel, b: Bullet) -> (InvadersModel, bool) {
    let i = first_alien_hit(m.aliens, b, 0);
    if i < m.aliens.len() {
        (
            InvadersModel {
                aliens: m.aliens.update(i, Alien { is_alive: false, ..m.aliens[i] }),
                score: Score(m.score.0.saturating_add(alien_points(m.aliens[i].row))),
                ..m
            },
            true,
        )
    } else {
        (m, false)
    }
}

/// Whether a bullet hits an intact shield cell: the same position.
pub open spec fn bullet_hits_shield(b: Bullet, s: ShieldCell) -> bool {
    s.hp > 0 && s.x == b.x && s.y == b.y
}

/// The index of the first shield cell from `k` on that the bullet hits, or
/// the number of cells if none.
pub open spec fn first_shield_hit(shields: Seq<ShieldCell>, b: Bullet, k: int) -> int
    decreases shields.len() - k,
{
    if k >= shields.len() {
        shields.len() as int
    } else if bullet_hits_shield(b, shields[k]) {
        k
    } else {
        first_shield_hit(shields, b, k + 1)
    }
}

/// A bullet against the shields: the first cell it hits loses a hit point.
pub open spec fn hit_shield_model(m: InvadersModel, b: Bullet) -> (InvadersModel, bool) {
    let i = first_shield_hit(m.shields, b, 0);
    if i < m.shields.len() {
        (
            InvadersModel {
                shields: m.shields.update(i, ShieldCell { hp: (m.shields[i].hp - 1) as u8, ..m.shields[i] }),
                ..m
            },
            true,
        )
    } else {
        (m, false)
    }
}

/// The player's bullets in order against aliens, then shields; the state after
/// them and the bullets that hit nothing.
pub open spec fn player_volley(m: InvadersModel, bullets: Seq<Bullet>) -> (InvadersModel, Seq<Bullet>)
    decreases bullets.len(),
{
    if bullets.len() == 0 {
        (m, Seq::empty())
    } else {
        let (m1, kept) = player_volley(m, bullets.drop_last());
        let b = bullets.last();
        let (m2, hit_a) = hit_alien_model(m1, b);
        if hit_a {
            (m2, kept)
        } else {
            let (m3, hit_s) = hit_shield_model(m2, b);
            if hit_s { (m3, kept) } else { (m3, kept.push(b)) }
        }
    }
}

/// The aliens' bullets in order against the shields; the state after them and
/// the bullets that hit nothing.
pub open spec fn alien_volley(m: InvadersModel, bullets: Seq<Bullet>) -> (InvadersModel, Seq<Bullet>)
    decreases bullets.len(),
{
    if bullets.len() == 0 {
        (m, Seq::empty())
    } else {
        let (m1, kept) = alien_volley(m, bullets.drop_last());
        let b = bullets.last();
        let (m2, hit_s) = hit_shield_model(m1, b);
        if hit_s { (m2, kept) } else { (m2, kept.push(b)) }
    }
}

/// Resolves all hits: bullets that hit something are spent.
pub open spec fn hits_model(m: InvadersModel) -> InvadersModel {
    let (m1, kept) = player_volley(InvadersModel { player_bullets: Seq::empty(), ..m }, m.player_bullets);
    let (m2, kept2) = alien_volley(
        InvadersModel { player_bullets: kept, alien_bullets: Seq::empty(), ..m1 },
        m.alien_bullets,
    );
    InvadersModel { alien_bullets: kept2, ..m2 }
}

/// When no alien is left the level rises (at most to 10) and a new wave comes.
pub open spec fn wave_clear_model(m: InvadersModel) -> InvadersModel {
    if exists|i: int| 0 <= i < m.aliens.len() && #[trigger] m.aliens[i].is_alive {
        m
    } else {
        let level = if m.level.0 + 1 < 10 { (m.level.0 + 1) as u8 } else { 10 };
        InvadersModel { level: Level(level), aliens: wave(level), ..m }
    }
}

/// Whether an alien bullet strikes the player: within one column of the
/// player, at or below the player's row (three above the bottom).
pub open spec fn strikes_player(m: InvadersModel, b: Bullet) -> bool {
    -1 <= b.x - m.player_x <= 1 && b.y >= m.bounds.height.saturating_sub(3)
}

/// An alien bullet striking the player ends the game.
pub open spec fn player_hit_model(m: InvadersModel) -> InvadersModel {
    if exists|i: int| 0 <= i < m.alien_bullets.len() && strikes_player(m, #[trigger] m.alien_bullets[i]) {
        InvadersModel { is_game_over: true, ..m }
    } else {
        m
    }
}

/// One tick: bullets move, the formation marches on march ticks, an alien may
/// fire, hits are resolved, a cleared wave is replaced, and a struck player
/// loses. A finished game does not change.
pub open spec fn invaders_tick(m: InvadersModel) -> InvadersModel {
    if m.is_game_over || m.is_complete {
        m
    } else {
        let m0 = InvadersModel { tick: vstd::wrapping::u64_specs::wrapping_add(m.tick, 1), ..m };
        let m1 = move_bullets_model(m0);
        let m2 = if m1.tick % spec_march_interval(m1.level.0) == 0 { march_model(m1) } else { m1 };
        player_hit_model(wave_clear_model(hits_model(fire_model(m2))))
    }
}



/// The well-formedness of a session depends only on its positions, its
/// marching direction and whether it is over.
pub proof fn lemma_wf_frame(a: InvadersModel, b: InvadersModel)
    requires
        invaders_wf(a),
        b.direction == a.direction,
        small(b.player_x),
        b.aliens == a.aliens,
        bullets_small(b.player_bullets),
        b.alien_bullets == a.alien_bullets,
        b.is_game_over == a.is_game_over,
    ensures
        invaders_wf(b),
{
}


/// A bullet of a set of bullets at small positions is at a small position.
pub proof fn lemma_bullet_small(bs: Seq<Bullet>, i: int)
    requires
        bullets_small(bs),
        0 <= i < bs.len(),
    ensures
        small(bs[i].x),
        small(bs[i].y),
{
}

/// Adding a bullet at a small position keeps all bullets at small positions.
pub proof fn lemma_push_small(bs: Seq<Bullet>, b: Bullet)
    requires
        bullets_small(bs),
        small(b.x),
        small(b.y),
    ensures
        bullets_small(bs.push(b)),
{
    assert forall|q: int| 0 <= q < bs.push(b).len() implies small(#[trigger] bs.push(b)[q].x)
        && small(bs.push(b)[q].y) by {
        if q < bs.len() {
            assert(bs.push(b)[q] == bs[q]);
        }
    }
}

/// Advances the session by one tick.
pub fn tick(state: &mut InvadersState)
    requires
        invaders_wf(old(state)@),
    ensures
        final(state)@ == invaders_tick(old(state)@),
        invaders_wf(final(state)@),
{
    if state.is_game_over || state.is_complete {
        return;
    }
    state.tick = state.tick.wrapping_add(1);
    proof {
        lemma_wf_frame(old(state)@, state@);
    }
    move_bullets(state);
    if state.tick % march_interval(state) == 0 {
        march_aliens(state);
    }
    maybe_fire_alien_bullet(state);
    handle_hits(state);
    check_wave_clear(state);
    check_player_hit(state);
}

/// Applies one key press.
pub fn handle_input(state: &mut InvadersState, key: Key)
    ensures
        final(state)@ == after_input(old(state)@, key),
        invaders_wf(old(state)@) ==> invaders_wf(final(state)@),
{
    let ghost m0 = state@;
    match key {
        Key::Dir(Direction::Left) => {
            let x = if state.player_x >= i32::MIN + 2 { state.player_x - 2 } else { i32::MIN };
            state.player_x = if x > 1 { x } else { 1 };
        },
        Key::Dir(Direction::Right) => {
            let max_x = state.bounds.width.saturating_sub(2) as i32;
            let x = if state.player_x <= i32::MAX - 2 { state.player_x + 2 } else { i32::MAX };
            state.player_x = if x < max_x { x } else { max_x };
        },
        Key::Action => {
            if state.player_bullets.len() < max_player_bullets(state) {
                state.player_bullets.push(
                    Bullet { x: state.player_x, y: state.bounds.height.saturating_sub(4) as i32 },
                );
            }
        },
        _ => {},
    }
    proof {
        if invaders_wf(m0) {
            assert forall|i: int| 0 <= i < state@.player_bullets.len() implies small(
                #[trigger] state@.player_bullets[i].x,
            ) && small(state@.player_bullets[i].y) by {
                if i < m0.player_bullets.len() {
                    assert(state@.player_bullets[i] == m0.player_bullets[i]);
                }
            }
            lemma_wf_frame(m0, state@);
        }
    }
}

/// Ticks between two marches of the formation.
pub fn march_interval(state: &InvadersState) -> (r: u64)
    ensures
        r == spec_march_interval(state.level.0),
        r >= 6,
{
    let v = 24u64.saturating_sub((state.level.0 as u64) * 2);
    if v > 6 { v } else { 6 }
}

/// How many of the player's bullets may fly at once.
pub fn max_player_bullets(state: &InvadersState) -> (r: usize)
    ensures
        r == spec_max_player_bullets(state.level.0),
{
    if state.level.0 >= 6 {
        3
    } else if state.level.0 >= 3 {
        2
    } else {
        1
    }
}

/// Moves the bullets one row and drops those that leave the field.
pub fn move_bullets(state: &mut InvadersState)
    requires
        invaders_wf(old(state)@),
    ensures
        final(state)@ == move_bullets_model(old(state)@),
        invaders_wf(final(state)@),
{
    let ghost m0 = state@;
    let ghost up = m0.player_bullets.map_values(|b: Bullet| bullet_up(b));
    let ghost high = |b: Bullet| b.y > 1;
    let n = state.player_bullets.len();
    let mut kept: Vec<Bullet> = Vec::with_capacity(n);
    let mut i: usize = 0;
    while i < n
        invariant
            state@ == m0,
            n == m0.player_bullets.len(),
            i <= n,
            invaders_wf(m0),
            up == m0.player_bullets.map_values(|b: Bullet| bullet_up(b)),
            high == (|b: Bullet| b.y > 1),
            kept@ == up.take(i as int).filter(high),
            bullets_small(kept@),
        decreases n - i,
    {
        let b = state.player_bullets[i];
        let moved = Bullet { x: b.x, y: b.y - 1 };
        proof {
            assert(up.take(i + 1) =~= up.take(i as int).push(moved));
            up.take(i as int).lemma_filter_push(moved, high);
        }
        if moved.y > 1 {
            kept.push(moved);
        }
        i = i + 1;
    }
    assert(up.take(n as int) =~= up);
    state.player_bullets = kept;

    let floor = state.bounds.height.saturating_sub(1) as i32;
    let ghost m1 = state@;
    let ghost down = m0.alien_bullets.map_values(|b: Bullet| bullet_down(b));
    let ghost low = |b: Bullet| b.y < floor;
    let n2 = state.alien_bullets.len();
    let mut kept2: Vec<Bullet> = Vec::with_capacity(n2);
    let mut i2: usize = 0;
    while i2 < n2
        invariant
            state@ == m1,
            m1.alien_bullets == m0.alien_bullets,
            n2 == m0.alien_bullets.len(),
            i2 <= n2,
            invaders_wf(m0),
            floor == m0.bounds.height.saturating_sub(1) as i32,
            down == m0.alien_bullets.map_values(|b: Bullet| bullet_down(b)),
            low == (|b: Bullet| b.y < floor),
            kept2@ == down.take(i2 as int).filter(low),
            bullets_small(kept2@),
        decreases n2 - i2,
    {
        let b = state.alien_bullets[i2];
        let moved = Bullet { x: b.x, y: b.y + 1 };
        proof {
            assert(down.take(i2 + 1) =~= down.take(i2 as int).push(moved));
            down.take(i2 as int).lemma_filter_push(moved, low);
        }
        if moved.y < floor {
            kept2.push(moved);
        }
        i2 = i2 + 1;
    }
    assert(down.take(n2 as int) =~= down);
    state.alien_bullets = kept2;
}

/// Marches the formation one step and ends the game when it comes too low.
/// The march works the same on a finished game; only a running game is sure
/// to keep its aliens within the rows where the arithmetic stays exact.
pub fn march_aliens(state: &mut InvadersState)
    requires
        invaders_wf(old(state)@),
    ensures
        final(state)@ == march_model(old(state)@),
        !old(state).is_game_over ==> invaders_wf(final(state)@),
{
    let ghost m0 = state@;
    let edge = state.bounds.width.saturating_sub(2) as i32;
    let n = state.aliens.len();
    let mut should_drop = false;
    let mut i: usize = 0;
    while i < n
        invariant
            state@ == m0,
            invaders_wf(m0),
            n == m0.aliens.len(),
            i <= n,
            edge == m0.bounds.width.saturating_sub(2) as i32,
            should_drop == exists|j: int| 0 <= j < i && at_edge(m0, #[trigger] m0.aliens[j]),
        decreases n - i,
    {
        let a = state.aliens[i];
        assert(small(m0.aliens[i as int].x));
        if a.is_alive && (a.x + state.direction <= 1 || a.x + state.direction >= edge) {
            should_drop = true;
        }
        proof {
            if should_drop {
                if at_edge(m0, m0.aliens[i as int]) {
                } else {
                    let w = choose|j: int| 0 <= j < i && at_edge(m0, #[trigger] m0.aliens[j]);
                    assert(0 <= w < i + 1 && at_edge(m0, m0.aliens[w]));
                }
            }
        }
        i = i + 1;
    }

    let ghost target = march_move(m0).aliens;
    if should_drop {
        state.direction = -state.direction;
    }
    let mut k: usize = 0;
    while k < n
        invariant
            invaders_wf(m0),
            n == m0.aliens.len(),
            k <= n,
            state.aliens@.len() == n,
            should_drop == exists|j: int| 0 <= j < n && at_edge(m0, #[trigger] m0.aliens[j]),
            state.direction == (if should_drop { -m0.direction } else { m0.direction as int }),
            target == march_move(m0).aliens,
            forall|j: int| 0 <= j < k ==> #[trigger] state.aliens@[j] == target[j],
            forall|j: int| k <= j < n ==> #[trigger] state.aliens@[j] == m0.aliens[j],
            state@ == (InvadersModel { aliens: state.aliens@, direction: state.direction, ..m0 }),
        decreases n - k,
    {
        let a = state.aliens[k];
        assert(small(m0.aliens[k as int].x));
        assert(0 <= m0.aliens[k as int].y <= 65_536);
        if a.is_alive {
            if should_drop {
                state.aliens.set(k, Alien { y: a.y + 1, ..a });
            } else {
                proof {
                    assert(!at_edge(m0, m0.aliens[k as int]));
                }
                state.aliens.set(k, Alien { x: a.x + state.direction, ..a });
            }
        }
        k = k + 1;
    }
    assert(state.aliens@ =~= target);
    let ghost m1 = state@;
    assert(m1 =~= march_move(m0));
    proof {
        assert forall|q: int| 0 <= q < m1.aliens.len() implies small(#[trigger] m1.aliens[q].x) by {
            assert(small(m0.aliens[q].x));
            if !should_drop && m0.aliens[q].is_alive {
                assert(!at_edge(m0, m0.aliens[q]));
            }
        }
        if !m0.is_game_over {
            assert forall|q: int| 0 <= q < m1.aliens.len() implies 0 <= #[trigger] m1.aliens[q].y <= 65_536 by {
                assert(0 <= m0.aliens[q].y <= 65_536);
                if m0.aliens[q].is_alive {
                    assert(m0.aliens[q].y <= 65_535);
                }
            }
        }
    }

    let limit = state.bounds.height.saturating_sub(5) as i32;
    let mut j: usize = 0;
    while j < n
        invariant
            state@ == m1,
            m1 == march_move(m0),
            m0 == old(state)@,
            invaders_wf(m0),
            !m0.is_game_over ==> aliens_ok(m1.aliens, true),
            m1.direction == 1 || m1.direction == -1,
            n == m1.aliens.len(),
            j <= n,
            limit == m1.bounds.height.saturating_sub(5) as i32,
            forall|q: int| 0 <= q < j ==> !too_low(m1, #[trigger] m1.aliens[q]),
        decreases n - j,
    {
        let a = state.aliens[j];
        if a.is_alive && a.y >= limit {
            assert(too_low(m1, m1.aliens[j as int]));
            state.is_game_over = true;
            assert(state@ =~= march_model(m0));
            return;
        }
        j = j + 1;
    }
    assert(state@ =~= march_model(m0));
    assert forall|q: int| 0 <= q < m1.aliens.len() && m1.aliens[q].is_alive implies #[trigger] m1.aliens[q].y <= 65_535 by {
        assert(!too_low(m1, m1.aliens[q]));
    }
}

/// On shot ticks, a pseudo-randomly chosen living alien fires.
pub fn maybe_fire_alien_bullet(state: &mut InvadersState)
    requires
        invaders_wf(old(state)@),
    ensures
        final(state)@ == fire_model(old(state)@),
        invaders_wf(final(state)@),
{
    let v = 34u64.saturating_sub((state.level.0 as u64) * 3);
    let interval: u64 = if v > 10 { v } else { 10 };
    if state.tick % interval != 0 {
        return;
    }
    let ghost alive = |a: Alien| a.is_alive;
    let n = state.aliens.len();
    let mut living_aliens: Vec<Alien> = Vec::new();
    let mut i: usize = 0;
    while i < n
        invariant
            state@ == old(state)@,
            n == state.aliens@.len(),
            i <= n,
            alive == (|a: Alien| a.is_alive),
            living_aliens@ == state.aliens@.take(i as int).filter(alive),
        decreases n - i,
    {
        let a = state.aliens[i];
        proof {
            assert(state.aliens@.take(i + 1) =~= state.aliens@.take(i as int).push(a));
            state.aliens@.take(i as int).lemma_filter_push(a, alive);
        }
        if a.is_alive {
            living_aliens.push(a);
        }
        i = i + 1;
    }
    assert(state.aliens@.take(n as int) =~= state.aliens@);
    assert(living_aliens@ == state.aliens@.filter(alive));
    assert(aliens_ok(state.aliens@, state.is_game_over));
    if living_aliens.len() == 0 {
        return;
    }
    let idx = (fast_rand(state.tick) % (living_aliens.len() as u64)) as usize;
    let alien = living_aliens[idx];
    proof {
        assert(living_aliens@[idx as int] == alien);
        assert(state.aliens@.filter(alive).contains(alien));
        state.aliens@.lemma_filter_contains_rev(alive, alien);
        let w = choose|q: int| 0 <= q < state.aliens@.len() && state.aliens@[q] == alien;
        assert(small(state.aliens@[w].x));
        assert(0 <= state.aliens@[w].y <= 65_536);
    }
    state.alien_bullets.push(Bullet { x: alien.x, y: alien.y + 1 });
}

/// Resolves the hits of all bullets; spent bullets are removed.
pub fn handle_hits(state: &mut InvadersState)
    requires
        invaders_wf(old(state)@),
    ensures
        final(state)@ == hits_model(old(state)@),
        invaders_wf(final(state)@),
{
    let ghost m = state@;
    let mut player_bullets: Vec<Bullet> = Vec::new();
    std::mem::swap(&mut player_bullets, &mut state.player_bullets);
    let n = player_bullets.len();
    let mut remaining: Vec<Bullet> = Vec::with_capacity(n);
    let mut i: usize = 0;
    while i < n
        invariant
            invaders_wf(m),
            player_bullets@ == m.player_bullets,
            n == player_bullets@.len(),
            i <= n,
            (state@, remaining@) == player_volley(
                InvadersModel { player_bullets: Seq::empty(), ..m },
                player_bullets@.take(i as int),
            ),
            state.aliens@.len() == m.aliens.len(),
            forall|j: int| 0 <= j < m.aliens.len() ==> (#[trigger] state.aliens@[j]).x == m.aliens[j].x
                && state.aliens@[j].y == m.aliens[j].y && (state.aliens@[j].is_alive ==> m.aliens[j].is_alive),
            aliens_x_small(state.aliens@),
            bullets_small(remaining@),
            state.alien_bullets@ == m.alien_bullets,
            state.player_x == m.player_x,
            state.direction == m.direction,
            state.is_game_over == m.is_game_over,
        decreases n - i,
    {
        let b = player_bullets[i];
        proof {
            assert(player_bullets@.take(i + 1).drop_last() =~= player_bullets@.take(i as int));
            assert(player_bullets@.take(i + 1).last() == b);
        }
        if hit_alien(state, b) {
            i = i + 1;
            continue;
        }
        if hit_shield(state, b) {
            i = i + 1;
            continue;
        }
        proof {
            lemma_bullet_small(m.player_bullets, i as int);
            lemma_push_small(remaining@, b);
        }
        remaining.push(b);
        i = i + 1;
    }
    assert(player_bullets@.take(n as int) =~= player_bullets@);
    state.player_bullets = remaining;
    proof {
        assert forall|q: int| 0 <= q < state.aliens@.len() implies 0 <= #[trigger] state.aliens@[q].y <= 65_536 by {
            assert(0 <= m.aliens[q].y <= 65_536);
        }
        assert forall|q: int| 0 <= q < state.aliens@.len() && !state.is_game_over && state.aliens@[q].is_alive
            implies #[trigger] state.aliens@[q].y <= 65_535 by {
            assert(m.aliens[q].is_alive);
        }
    }

    let ghost m1 = state@;
    let mut incoming: Vec<Bullet> = Vec::new();
    std::mem::swap(&mut incoming, &mut state.alien_bullets);
    let n2 = incoming.len();
    let mut alien_bullets: Vec<Bullet> = Vec::with_capacity(n2);
    let mut k: usize = 0;
    while k < n2
        invariant
            incoming@ == m.alien_bullets,
            n2 == incoming@.len(),
            k <= n2,
            invaders_wf(m),
            (state@, alien_bullets@) == alien_volley(
                InvadersModel { alien_bullets: Seq::empty(), ..m1 },
                incoming@.take(k as int),
            ),
            bullets_small(alien_bullets@),
            state@ == (InvadersModel { shields: state@.shields, alien_bullets: state@.alien_bullets, ..m1 }),
            state.alien_bullets@ == Seq::<Bullet>::empty(),
            invaders_wf(InvadersModel { alien_bullets: Seq::empty(), ..m1 }),
        decreases n2 - k,
    {
        let b = incoming[k];
        proof {
            assert(incoming@.take(k + 1).drop_last() =~= incoming@.take(k as int));
            assert(incoming@.take(k + 1).last() == b);
        }
        if hit_shield(state, b) {
            k = k + 1;
            continue;
        }
        proof {
            lemma_bullet_small(m.alien_bullets, k as int);
            lemma_push_small(alien_bullets@, b);
        }
        alien_bullets.push(b);
        k = k + 1;
    }
    assert(incoming@.take(n2 as int) =~= incoming@);
    state.alien_bullets = alien_bullets;
}

/// Kills the first living alien that the bullet hits and scores it.
/// Returns whether an alien was hit.
pub fn hit_alien(state: &mut InvadersState, bullet: Bullet) -> (r: bool)
    requires
        small(bullet.x),
        aliens_x_small(old(state)@.aliens),
    ensures
        (final(state)@, r) == hit_alien_model(old(state)@, bullet),
        final(state)@ == (InvadersModel {
            aliens: final(state)@.aliens,
            score: final(state)@.score,
            ..old(state)@
        }),
        final(state)@.aliens.len() == old(state)@.aliens.len(),
        forall|j: int| 0 <= j < old(state)@.aliens.len() ==> (#[trigger] final(state)@.aliens[j]).x
            == old(state)@.aliens[j].x && final(state)@.aliens[j].y == old(state)@.aliens[j].y
            && (final(state)@.aliens[j].is_alive ==> old(state)@.aliens[j].is_alive),
{
    let n = state.aliens.len();
    let mut i: usize = 0;
    while i < n
        invariant
            state@ == old(state)@,
            n == state.aliens@.len(),
            i <= n,
            small(bullet.x),
            aliens_x_small(state.aliens@),
            first_alien_hit(state.aliens@, bullet, 0) == first_alien_hit(state.aliens@, bullet, i as int),
        decreases n - i,
    {
        let alien = state.aliens[i];
        let dx = bullet.x - alien.x;
        if alien.is_alive && -1 <= dx && dx <= 1 && bullet.y == alien.y {
            let points: u32 = if alien.row == 0 {
                30
            } else if alien.row == 1 || alien.row == 2 {
                20
            } else {
                10
            };
            state.aliens.set(i, Alien { is_alive: false, ..alien });
            state.score.0 = state.score.0.saturating_add(points);
            return true;
        }
        i = i + 1;
    }
    false
}

/// Wears down the first intact shield cell that the bullet hits.
/// Returns whether a shield was hit.
pub fn hit_shield(state: &mut InvadersState, bullet: Bullet) -> (r: bool)
    ensures
        (final(state)@, r) == hit_shield_model(old(state)@, bullet),
        final(state)@ == (InvadersModel { shields: final(state)@.shields, ..old(state)@ }),
{
    let n = state.shields.len();
    let mut i: usize = 0;
    while i < n
        invariant
            state@ == old(state)@,
            n == state.shields@.len(),
            i <= n,
            first_shield_hit(state.shields@, bullet, 0) == first_shield_hit(state.shields@, bullet, i as int),
        decreases n - i,
    {
        let shield = state.shields[i];
        if shield.hp > 0 && shield.x == bullet.x && shield.y == bullet.y {
            state.shields.set(i, ShieldCell { hp: shield.hp - 1, ..shield });
            return true;
        }
        i = i + 1;
    }
    false
}

/// Brings a new wave, one level higher, once all aliens are dead.
pub fn check_wave_clear(state: &mut InvadersState)
    requires
        invaders_wf(old(state)@),
    ensures
        final(state)@ == wave_clear_model(old(state)@),
        invaders_wf(final(state)@),
{
    let n = state.aliens.len();
    let mut i: usize = 0;
    while i < n
        invariant
            state@ == old(state)@,
            n == state.aliens@.len(),
            i <= n,
            forall|q: int| 0 <= q < i ==> !(#[trigger] state.aliens@[q]).is_alive,
            invaders_wf(old(state)@),
        decreases n - i,
    {
        if state.aliens[i].is_alive {
            return;
        }
        i = i + 1;
    }
    let next = state.level.0.saturating_add(1);
    state.level.0 = if next < 10 { next } else { 10 };
    state.spawn_wave();
}

/// Ends the game when an alien bullet strikes the player.
pub fn check_player_hit(state: &mut InvadersState)
    requires
        invaders_wf(old(state)@),
    ensures
        final(state)@ == player_hit_model(old(state)@),
        invaders_wf(final(state)@),
{
    let player_y = state.bounds.height.saturating_sub(3) as i32;
    let n = state.alien_bullets.len();
    let mut i: usize = 0;
    while i < n
        invariant
            state@ == old(state)@,
            invaders_wf(state@),
            n == state.alien_bullets@.len(),
            i <= n,
            player_y == state.bounds.height.saturating_sub(3) as i32,
            forall|q: int| 0 <= q < i ==> !strikes_player(state@, #[trigger] state.alien_bullets@[q]),
        decreases n - i,
    {
        let b = state.alien_bullets[i];
        assert(small(state@.alien_bullets[i as int].x));
        let dx = b.x - state.player_x;
        if -1 <= dx && dx <= 1 && b.y >= player_y {
            state.is_game_over = true;
            return;
        }
        i = i + 1;
    }
}


/// A bullet that hits the formation kills exactly one alien that was alive and
/// hit by it, scores that alien's row points, and changes no other alien.
pub proof fn lemma_hit_kills_one_alien(m: InvadersModel, b: Bullet)
    requires
        hit_alien_model(m, b).1,
    ensures
        ({
            let after = hit_alien_model(m, b).0;
            exists|i: int|
                0 <= i < m.aliens.len() && bullet_hits_alien(b, #[trigger] m.aliens[i])
                    && !after.aliens[i].is_alive && after.score.0 == m.score.0.saturating_add(
                    alien_points(m.aliens[i].row),
                ) && forall|j: int| 0 <= j < m.aliens.len() && j != i ==> #[trigger] after.aliens[j] == m.aliens[j]
        }),
        hit_alien_model(m, b).0.aliens.len() == m.aliens.len(),
{
    lemma_first_alien_hit(m.aliens, b, 0);
    let i = first_alien_hit(m.aliens, b, 0);
    assert(bullet_hits_alien(b, m.aliens[i]));
}

/// The first hit found from `k` on is a hit, at or after `k`.
pub proof fn lemma_first_alien_hit(aliens: Seq<Alien>, b: Bullet, k: int)
    requires
        0 <= k,
    ensures
        k <= first_alien_hit(aliens, b, k) <= aliens.len() || (k > aliens.len() && first_alien_hit(aliens, b, k) == aliens.len()),
        first_alien_hit(aliens, b, k) < aliens.len() ==> bullet_hits_alien(b, aliens[first_alien_hit(aliens, b, k)]),
    decreases aliens.len() - k,
{
    if k < aliens.len() && !bullet_hits_alien(b, aliens[k]) {
        lemma_first_alien_hit(aliens, b, k + 1);
    }
}

/// The player stays within columns 1 to width - 2 when moving: a move left
/// never goes below column 1 and a move right never past width - 2.
pub proof fn lemma_player_moves_stay_on_screen(m: InvadersModel)
    ensures
        after_input(m, Key::Dir(Direction::Left)).player_x >= 1,
        after_input(m, Key::Dir(Direction::Right)).player_x <= m.bounds.width.saturating_sub(2),
{
}

/// Bullets fired by the player never outnumber what the level allows: key
/// presses and ticks keep the count within the limit.
pub proof fn lemma_player_bullets_bounded(m: InvadersModel, key: Key)
    requires
        m.player_bullets.len() <= spec_max_player_bullets(m.level.0),
    ensures
        after_input(m, key).player_bullets.len() <= spec_max_player_bullets(after_input(m, key).level.0),
        invaders_tick(m).player_bullets.len() <= spec_max_player_bullets(invaders_tick(m).level.0),
{
    if !m.is_game_over && !m.is_complete {
        let m0 = InvadersModel { tick: vstd::wrapping::u64_specs::wrapping_add(m.tick, 1), ..m };
        let up = m0.player_bullets.map_values(|b: Bullet| bullet_up(b));
        up.lemma_filter_len(|b: Bullet| b.y > 1);
        let m1 = move_bullets_model(m0);
        let m2 = if m1.tick % spec_march_interval(m1.level.0) == 0 { march_model(m1) } else { m1 };
        let m3 = fire_model(m2);
        lemma_player_volley_len(InvadersModel { player_bullets: Seq::empty(), ..m3 }, m3.player_bullets);
        let m4 = hits_model(m3);
        lemma_alien_volley_keeps_player_bullets(
            InvadersModel { player_bullets: player_volley(InvadersModel { player_bullets: Seq::empty(), ..m3 }, m3.player_bullets).1, alien_bullets: Seq::empty(), ..player_volley(InvadersModel { player_bullets: Seq::empty(), ..m3 }, m3.player_bullets).0 },
            m3.alien_bullets,
        );
        assert(m4.player_bullets.len() <= m3.player_bullets.len());
    }
}

/// The player's volley keeps at most the bullets it was given and leaves the
/// level alone.
pub proof fn lemma_player_volley_len(m: InvadersModel, bullets: Seq<Bullet>)
    ensures
        player_volley(m, bullets).1.len() <= bullets.len(),
        player_volley(m, bullets).0.level == m.level,
        player_volley(m, bullets).0.score.0 >= m.score.0,
    decreases bullets.len(),
{
    if bullets.len() > 0 {
        lemma_player_volley_len(m, bullets.drop_last());
    }
}

/// The aliens' volley leaves the player's bullets, the level and the score alone.
pub proof fn lemma_alien_volley_keeps_player_bullets(m: InvadersModel, bullets: Seq<Bullet>)
    ensures
        alien_volley(m, bullets).0.player_bullets == m.player_bullets,
        alien_volley(m, bullets).0.level == m.level,
        alien_volley(m, bullets).0.score == m.score,
    decreases bullets.len(),
{
    if bullets.len() > 0 {
        lemma_alien_volley_keeps_player_bullets(m, bullets.drop_last());
    }
}

/// A tick never lowers the score or the level, and keeps the level at most 10.
pub proof fn lemma_invaders_progress(m: InvadersModel)
    requires
        m.level.0 <= 10,
    ensures
        invaders_tick(m).score.0 >= m.score.0,
        m.level.0 <= invaders_tick(m).level.0 <= 10,
{
    if !m.is_game_over && !m.is_complete {
        let m0 = InvadersModel { tick: vstd::wrapping::u64_specs::wrapping_add(m.tick, 1), ..m };
        let m1 = move_bullets_model(m0);
        let m2 = if m1.tick % spec_march_interval(m1.level.0) == 0 { march_model(m1) } else { m1 };
        let m3 = fire_model(m2);
        let pv = player_volley(InvadersModel { player_bullets: Seq::empty(), ..m3 }, m3.player_bullets);
        lemma_player_volley_len(InvadersModel { player_bullets: Seq::empty(), ..m3 }, m3.player_bullets);
        lemma_alien_volley_keeps_player_bullets(
            InvadersModel { player_bullets: pv.1, alien_bullets: Seq::empty(), ..pv.0 },
            m3.alien_bullets,
        );
    }
}

/// Once no alien is alive, the next wave is a full formation of 55 living aliens.
pub proof fn lemma_cleared_wave_is_replaced(m: InvadersModel)
    requires
        forall|i: int| 0 <= i < m.aliens.len() ==> !(#[trigger] m.aliens[i]).is_alive,
    ensures
        wave_clear_model(m).aliens.len() == 55,
        forall|i: int| 0 <= i < 55 ==> (#[trigger] wave_clear_model(m).aliens[i]).is_alive,
{
}

/// A fresh session has 55 living aliens.
pub proof fn lemma_fresh_session(bounds: crate::types::geometry::TerminalSize)
    ensures
        crate::games::invaders::state::initial_invaders(bounds).aliens.len() == 55,
        forall|i: int| 0 <= i < 55 ==> (#[trigger] crate::games::invaders::state::initial_invaders(bounds).aliens[i]).is_alive,
{
}

/// The sum of the shield cells' hit points.
pub open spec fn shield_hp_total(shields: Seq<ShieldCell>) -> int
    decreases shields.len(),
{
    if shields.len() == 0 {
        0
    } else {
        shield_hp_total(shields.drop_last()) + shields.last().hp
    }
}

/// The cells `b` are the cells `a` worn down: the same cells in the same
/// places, none with more hit points.
pub open spec fn shields_worn(a: Seq<ShieldCell>, b: Seq<ShieldCell>) -> bool {
    &&& a.len() == b.len()
    &&& forall|i: int|
        0 <= i < a.len() ==> (#[trigger] b[i]).x == a[i].x && b[i].y == a[i].y && b[i].hp <= a[i].hp
}

/// No bullet sits on a shield cell that has hit points left.
pub open spec fn clear_of_shields(bullets: Seq<Bullet>, shields: Seq<ShieldCell>) -> bool {
    forall|k: int, i: int|
        0 <= k < bullets.len() && 0 <= i < shields.len() ==> !((#[trigger] shields[i]).hp > 0 && shields[i].x
            == (#[trigger] bullets[k]).x && shields[i].y == bullets[k].y)
}

/// The search for the shield cell a bullet hits finds a cell with hit points
/// at the bullet's position, or, when it finds none, there is none from `k` on.
proof fn lemma_first_shield_hit(shields: Seq<ShieldCell>, b: Bullet, k: int)
    requires
        0 <= k <= shields.len(),
    ensures
        k <= first_shield_hit(shields, b, k) <= shields.len(),
        first_shield_hit(shields, b, k) < shields.len() ==> ({
            let s = shields[first_shield_hit(shields, b, k)];
            s.hp > 0 && s.x == b.x && s.y == b.y
        }),
        first_shield_hit(shields, b, k) == shields.len() ==> forall|j: int|
            k <= j < shields.len() ==> !((#[trigger] shields[j]).hp > 0 && shields[j].x == b.x && shields[j].y == b.y),
    decreases shields.len() - k,
{
    if k < shields.len() && !bullet_hits_shield(b, shields[k]) {
        lemma_first_shield_hit(shields, b, k + 1);
    }
}

/// Taking one hit point off a cell lowers the total by one.
proof fn lemma_hp_one(shields: Seq<ShieldCell>, i: int)
    requires
        0 <= i < shields.len(),
        shields[i].hp > 0,
    ensures
        shield_hp_total(shields.update(i, ShieldCell { hp: (shields[i].hp - 1) as u8, ..shields[i] })) + 1
            == shield_hp_total(shields),
    decreases shields.len(),
{
    let u = shields.update(i, ShieldCell { hp: (shields[i].hp - 1) as u8, ..shields[i] });
    if i < shields.len() - 1 {
        assert(u.drop_last() =~= shields.drop_last().update(i, ShieldCell { hp: (shields[i].hp - 1) as u8, ..shields[i] }));
        lemma_hp_one(shields.drop_last(), i);
    } else {
        assert(u.drop_last() =~= shields.drop_last());
    }
}

/// One bullet against the shields: only the shields change, they are worn
/// down; a hit takes exactly one hit point, and a miss means no cell with hit
/// points is at the bullet's position.
proof fn lemma_hit_shield_step(m: InvadersModel, b: Bullet)
    ensures
        ({
            let (m2, hit) = hit_shield_model(m, b);
            &&& m2 == (InvadersModel { shields: m2.shields, ..m })
            &&& shields_worn(m.shields, m2.shields)
            &&& hit ==> shield_hp_total(m2.shields) + 1 == shield_hp_total(m.shields)
            &&& !hit ==> m2 == m && forall|j: int|
                0 <= j < m.shields.len() ==> !((#[trigger] m.shields[j]).hp > 0 && m.shields[j].x == b.x
                    && m.shields[j].y == b.y)
        }),
{
    lemma_first_shield_hit(m.shields, b, 0);
    let i = first_shield_hit(m.shields, b, 0);
    if i < m.shields.len() {
        lemma_hp_one(m.shields, i);
    }
}

/// Worn-down shields stop no bullet that the original ones let through.
proof fn lemma_clear_when_worn(bullets: Seq<Bullet>, a: Seq<ShieldCell>, b: Seq<ShieldCell>)
    requires
        clear_of_shields(bullets, a),
        shields_worn(a, b),
    ensures
        clear_of_shields(bullets, b),
{
    assert forall|k: int, i: int| 0 <= k < bullets.len() && 0 <= i < b.len() implies !((#[trigger] b[i]).hp > 0 && b[i].x
        == (#[trigger] bullets[k]).x && b[i].y == bullets[k].y) by {
        assert(a[i].hp >= b[i].hp);
    }
}

/// The aliens' bullets against the shields: every bullet that reaches a cell
/// with hit points left is spent and takes exactly one hit point off it (the
/// shields lose as many hit points as bullets are spent); the bullets that go
/// on are bullets of the volley, and none of them sits on a cell with hit
/// points left; nothing but the shields changes.
pub proof fn lemma_alien_bullets_stop_at_shields(m: InvadersModel, bullets: Seq<Bullet>)
    ensures
        ({
            let (r, kept) = alien_volley(m, bullets);
            &&& r == (InvadersModel { shields: r.shields, ..m })
            &&& shields_worn(m.shields, r.shields)
            &&& shield_hp_total(r.shields) + bullets.len() == shield_hp_total(m.shields) + kept.len()
            &&& clear_of_shields(kept, r.shields)
            &&& forall|k: int| 0 <= k < kept.len() ==> bullets.contains(#[trigger] kept[k])
        }),
    decreases bullets.len(),
{
    if bullets.len() > 0 {
        let (m1, kept) = alien_volley(m, bullets.drop_last());
        lemma_alien_bullets_stop_at_shields(m, bullets.drop_last());
        let b = bullets.last();
        let (m2, hit) = hit_shield_model(m1, b);
        lemma_hit_shield_step(m1, b);
        lemma_clear_when_worn(kept, m1.shields, m2.shields);
        let (r, kept2) = alien_volley(m, bullets);
        assert forall|k: int| 0 <= k < kept2.len() implies bullets.contains(#[trigger] kept2[k]) by {
            if k < kept.len() {
                assert(kept2[k] == kept[k]);
                let t = choose|t: int| 0 <= t < bullets.drop_last().len() && bullets.drop_last()[t] == kept[k];
                assert(bullets[t] == kept[k]);
            } else {
                assert(bullets[bullets.len() - 1] == b);
            }
        }
        if !hit {
            assert forall|k: int, i: int| 0 <= k < kept2.len() && 0 <= i < m2.shields.len() implies !((#[trigger] m2.shields[i]).hp
                > 0 && m2.shields[i].x == (#[trigger] kept2[k]).x && m2.shields[i].y == kept2[k].y) by {
                if k < kept.len() {
                    assert(kept2[k] == kept[k]);
                }
            }
        }
        assert forall|i: int| 0 <= i < m.shields.len() implies (#[trigger] r.shields[i]).x == m.shields[i].x
            && r.shields[i].y == m.shields[i].y && r.shields[i].hp <= m.shields[i].hp by {
            assert(m1.shields[i].hp <= m.shields[i].hp);
        }
    }
}

/// The player's bullets: only aliens, score and shields change, the shields
/// are worn down, and no bullet that goes on sits on a cell with hit points left.
proof fn lemma_player_bullets_stop_at_shields(m: InvadersModel, bullets: Seq<Bullet>)
    ensures
        ({
            let (r, kept) = player_volley(m, bullets);
            &&& shields_worn(m.shields, r.shields)
            &&& clear_of_shields(kept, r.shields)
        }),
    decreases bullets.len(),
{
    if bullets.len() > 0 {
        let (m1, kept) = player_volley(m, bullets.drop_last());
        lemma_player_bullets_stop_at_shields(m, bullets.drop_last());
        let b = bullets.last();
        let (m2, hit_a) = hit_alien_model(m1, b);
        assert(m2.shields == m1.shields);
        let (m3, hit_s) = hit_shield_model(m2, b);
        lemma_hit_shield_step(m2, b);
        lemma_clear_when_worn(kept, m1.shields, m3.shields);
        let (r, kept2) = player_volley(m, bullets);
        if !hit_a && !hit_s {
            assert forall|k: int, i: int| 0 <= k < kept2.len() && 0 <= i < m3.shields.len() implies !((#[trigger] m3.shields[i]).hp
                > 0 && m3.shields[i].x == (#[trigger] kept2[k]).x && m3.shields[i].y == kept2[k].y) by {
                if k < kept.len() {
                    assert(kept2[k] == kept[k]);
                }
            }
        }
        if hit_a {
            lemma_clear_when_worn(kept, m1.shields, m2.shields);
        }
        assert forall|i: int| 0 <= i < m.shields.len() implies (#[trigger] r.shields[i]).x == m.shields[i].x
            && r.shields[i].y == m.shields[i].y && r.shields[i].hp <= m.shields[i].hp by {
            assert(m1.shields[i].hp <= m.shields[i].hp);
        }
    }
}

/// After the hits are resolved no bullet in flight, the player's or the
/// aliens', sits on a shield cell with hit points left; the shields are only
/// worn down; and the shields lose exactly one hit point per alien bullet
/// they stop.
pub proof fn lemma_hits_leave_no_bullet_on_shields(m: InvadersModel)
    ensures
        ({
            let r = hits_model(m);
            let (m1, kept) = player_volley(InvadersModel { player_bullets: Seq::empty(), ..m }, m.player_bullets);
            &&& clear_of_shields(r.alien_bullets, r.shields)
            &&& clear_of_shields(r.player_bullets, r.shields)
            &&& shields_worn(m.shields, r.shields)
            &&& shield_hp_total(r.shields) + m.alien_bullets.len() == shield_hp_total(m1.shields) + r.alien_bullets.len()
        }),
{
    let m0 = InvadersModel { player_bullets: Seq::empty(), ..m };
    let (m1, kept) = player_volley(m0, m.player_bullets);
    lemma_player_bullets_stop_at_shields(m0, m.player_bullets);
    let mi = InvadersModel { player_bullets: kept, alien_bullets: Seq::empty(), ..m1 };
    lemma_alien_bullets_stop_at_shields(mi, m.alien_bullets);
    let (m2, kept2) = alien_volley(mi, m.alien_bullets);
    lemma_clear_when_worn(kept, m1.shields, m2.shields);
    let r = hits_model(m);
    assert forall|i: int| 0 <= i < m.shields.len() implies (#[trigger] r.shields[i]).x == m.shields[i].x
        && r.shields[i].y == m.shields[i].y && r.shields[i].hp <= m.shields[i].hp by {
        assert(m1.shields[i].hp <= m.shields[i].hp);
    }
}

} // verus!
