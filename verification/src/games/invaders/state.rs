use vstd::prelude::*;

use crate::types::geometry::{Level, Score, TerminalSize};

verus! {

/// Alien columns in a wave.
pub const WAVE_COLUMNS: i32 = 11;
/// Alien rows in a wave.
pub const WAVE_ROWS: u8 = 5;

#[derive(Debug, Clone, Copy, PartialEq, Eq, Structural)]
pub struct Alien {
    pub x: i32,
    pub y: i32,
    /// Row of the formation (0 at the top).
    pub row: u8,
    pub is_alive: bool,
}

#[derive(Debug, Clone, Copy, PartialEq, Eq, Structural)]
pub struct Bullet {
    pub x: i32,
    pub y: i32,
}

#[derive(Debug, Clone, Copy, PartialEq, Eq, Structural)]
pub struct ShieldCell {
    pub x: i32,
    pub y: i32,
    pub hp: u8,
}

/// The whole state of an Invaders session.
#[derive(Debug, Clone)]
pub struct InvadersState {
    pub player_x: i32,
    pub aliens: Vec<Alien>,
    pub player_bullets: Vec<Bullet>,
    pub alien_bullets: Vec<Bullet>,
    pub shields: Vec<ShieldCell>,
    pub score: Score,
    pub level: Level,
    pub tick: u64,
    /// Horizontal marching direction of the formation: 1 or -1.
    pub direction: i32,
    pub bounds: TerminalSize,
    pub is_game_over: bool,
    pub is_complete: bool,
}

/// The state of an Invaders session as a mathematical value.
#[verifier::ext_equal]
pub struct InvadersModel {
    pub player_x: i32,
    pub aliens: Seq<Alien>,
    pub player_bullets: Seq<Bullet>,
    pub alien_bullets: Seq<Bullet>,
    pub shields: Seq<ShieldCell>,
    pub score: Score,
    pub level: Level,
    pub tick: u64,
    pub direction: i32,
    pub bounds: TerminalSize,
    pub is_game_over: bool,
    pub is_complete: bool,
}

impl View for InvadersState {
    type V = InvadersModel;

    open spec fn view(&self) -> InvadersModel {
        InvadersModel {
            player_x: self.player_x,
            aliens: self.aliens@,
            player_bullets: self.player_bullets@,
            alien_bullets: self.alien_bullets@,
            shields: self.shields@,
            score: self.score,
            level: self.level,
            tick: self.tick,
            direction: self.direction,
            bounds: self.bounds,
            is_game_over: self.is_game_over,
            is_complete: self.is_complete,
        }
    }
}

/// Top row of a wave: row 3, one lower per level after the first, at most row 7.
pub open spec fn wave_top(level: u8) -> i32 {
    let extra = level.saturating_sub(1);
    if extra < 4 { (3 + extra) as i32 } else { 7 }
}

/// The `i`-th alien of a fresh wave: eleven per row, four columns apart from
/// column 8, rows two apart from the wave's top, all alive.
pub open spec fn wave_alien(level: u8, i: int) -> Alien {
    Alien {
        x: (8 + (i % 11) * 4) as i32,
        y: (wave_top(level) + (i / 11) * 2) as i32,
        row: (i / 11) as u8,
        is_alive: true,
    }
}

/// A fresh wave of 55 aliens, row by row.
pub open spec fn wave(level: u8) -> Seq<Alien> {
    Seq::new(55, |i: int| wave_alien(level, i))
}

/// The 3x7 grid of positions around a shield centred at column `cx` from row `y`.
pub open spec fn shield_grid(cx: i32, y: i32) -> Seq<ShieldCell> {
    Seq::new(21, |k: int| ShieldCell { x: (cx + k % 7 - 3) as i32, y: (y + k / 7) as i32, hp: 2 })
}

/// Whether a grid position belongs to the shield: all but the middle three of
/// its bottom row (the arch).
pub open spec fn in_shield(cx: i32, y: i32, c: ShieldCell) -> bool {
    !(c.y == y + 2 && cx - 1 <= c.x <= cx + 1)
}

/// The cells of one shield, top row first, each with 2 hit points.
pub open spec fn shield_cells(cx: i32, y: i32) -> Seq<ShieldCell> {
    shield_grid(cx, y).filter(|c: ShieldCell| in_shield(cx, y, c))
}

/// Column spacing of the shields: a fifth of the width.
pub open spec fn shield_spacing(bounds: TerminalSize) -> i32 {
    (bounds.width / 5) as i32
}

/// Top row of the shields: seven rows above the bottom.
pub open spec fn shield_row(bounds: TerminalSize) -> i32 {
    bounds.height.saturating_sub(7) as i32
}

/// The four shields, centred at one to four fifths of the width.
pub open spec fn shields_for(bounds: TerminalSize) -> Seq<ShieldCell> {
    let s = shield_spacing(bounds);
    let y = shield_row(bounds);
    shield_cells(s, y) + shield_cells((2 * s) as i32, y) + shield_cells((3 * s) as i32, y)
        + shield_cells((4 * s) as i32, y)
}

/// A fresh session: the player in the middle, a full wave, four shields,
/// no bullets, score 0, level 1, marching right.
pub open spec fn initial_invaders(bounds: TerminalSize) -> InvadersModel {
    InvadersModel {
        player_x: (bounds.width / 2) as i32,
        aliens: wave(1),
        player_bullets: Seq::empty(),
        alien_bullets: Seq::empty(),
        shields: shields_for(bounds),
        score: Score(0),
        level: Level(1),
        tick: 0,
        direction: 1,
        bounds,
        is_game_over: false,
        is_complete: false,
    }
}

impl InvadersState {
    /// A fresh session on a terminal of the given size.
    pub fn new(bounds: TerminalSize) -> (r: Self)
        ensures
            r@ == initial_invaders(bounds),
    {
        let mut state = Self {
            player_x: (bounds.width / 2) as i32,
            aliens: Vec::with_capacity(55),
            player_bullets: Vec::with_capacity(3),
            alien_bullets: Vec::with_capacity(12),
            shields: Vec::with_capacity(96),
            score: Score(0),
            level: Level(1),
            tick: 0,
            direction: 1,
            bounds,
            is_game_over: false,
            is_complete: false,
        };
        state.spawn_wave();
        state.spawn_shields();
        state
    }

    /// Replaces the aliens by a fresh wave for the current level.
    pub fn spawn_wave(&mut self)
        ensures
            final(self)@ == (InvadersModel { aliens: wave(old(self).level.0), ..old(self)@ }),
    {
        self.aliens.clear();
        let extra = self.level.0.saturating_sub(1) as i32;
        let start_x: i32 = 8;
        let start_y: i32 = 3 + if extra < 4 { extra } else { 4 };
        let mut row: u8 = 0;
        while row < WAVE_ROWS
            invariant
                row <= WAVE_ROWS,
                start_y == wave_top(self.level.0),
                start_x == 8,
                self.aliens@.len() == row * 11,
                forall|j: int| 0 <= j < self.aliens@.len() ==> #[trigger] self.aliens@[j] == wave_alien(self.level.0, j),
                self@ == (InvadersModel { aliens: self.aliens@, ..old(self)@ }),
            decreases WAVE_ROWS - row,
        {
            let mut col: i32 = 0;
            while col < WAVE_COLUMNS
                invariant
                    row < WAVE_ROWS,
                    0 <= col <= WAVE_COLUMNS,
                    start_y == wave_top(self.level.0),
                    start_x == 8,
                    self.aliens@.len() == row * 11 + col,
                    forall|j: int| 0 <= j < self.aliens@.len() ==> #[trigger] self.aliens@[j] == wave_alien(self.level.0, j),
                    self@ == (InvadersModel { aliens: self.aliens@, ..old(self)@ }),
                decreases WAVE_COLUMNS - col,
            {
                proof {
                    vstd::arithmetic::div_mod::lemma_fundamental_div_mod_converse(
                        row * 11 + col,
                        11,
                        row as int,
                        col as int,
                    );
                }
                self.aliens.push(Alien {
                    x: start_x + col * 4,
                    y: start_y + (row as i32) * 2,
                    row,
                    is_alive: true,
                });
                col = col + 1;
            }
            row = row + 1;
        }
        assert(self.aliens@ =~= wave(self.level.0));
    }

    /// Replaces the shields by four fresh ones.
    pub fn spawn_shields(&mut self)
        ensures
            final(self)@ == (InvadersModel { shields: shields_for(old(self).bounds), ..old(self)@ }),
    {
        self.shields.clear();
        let spacing = (self.bounds.width / 5) as i32;
        let y = self.bounds.height.saturating_sub(7) as i32;
        let mut shield: i32 = 1;
        while shield <= 4
            invariant
                1 <= shield <= 5,
                spacing == shield_spacing(self.bounds),
                y == shield_row(self.bounds),
                self.shields@ == (if shield == 1 {
                    Seq::empty()
                } else if shield == 2 {
                    shield_cells(spacing, y)
                } else if shield == 3 {
                    shield_cells(spacing, y) + shield_cells((2 * spacing) as i32, y)
                } else if shield == 4 {
                    shield_cells(spacing, y) + shield_cells((2 * spacing) as i32, y) + shield_cells(
                        (3 * spacing) as i32,
                        y,
                    )
                } else {
                    shields_for(self.bounds)
                }),
                self@ == (InvadersModel { shields: self.shields@, ..old(self)@ }),
            decreases 5 - shield,
        {
            push_shield(&mut self.shields, spacing * shield, y);
            shield = shield + 1;
        }
    }
}

/// Appends the cells of one shield centred at column `cx` from row `y`.
pub fn push_shield(shields: &mut Vec<ShieldCell>, cx: i32, y: i32)
    requires
        i32::MIN + 3 <= cx <= i32::MAX - 3,
        y <= i32::MAX - 2,
    ensures
        final(shields)@ == old(shields)@ + shield_cells(cx, y),
{
    let ghost keep = |c: ShieldCell| in_shield(cx, y, c);
    let ghost grid = shield_grid(cx, y);
    let mut k: i32 = 0;
    while k < 21
        invariant
            0 <= k <= 21,
            i32::MIN + 3 <= cx <= i32::MAX - 3,
            y <= i32::MAX - 2,
            grid == shield_grid(cx, y),
            keep == (|c: ShieldCell| in_shield(cx, y, c)),
            shields@ == old(shields)@ + grid.take(k as int).filter(keep),
        decreases 21 - k,
    {
        let dy = k / 7;
        let dx = k % 7 - 3;
        let cell = ShieldCell { x: cx + dx, y: y + dy, hp: 2 };
        proof {
            assert(grid.take(k + 1) =~= grid.take(k as int).push(cell));
            grid.take(k as int).lemma_filter_push(cell, keep);
        }
        if !(dy == 2 && -1 <= dx && dx <= 1) {
            shields.push(cell);
        }
        k = k + 1;
    }
    assert(grid.take(21) =~= grid);
}

} // verus!
