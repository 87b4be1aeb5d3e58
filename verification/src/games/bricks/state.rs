use vstd::prelude::*;

use crate::types::geometry::{Level, TerminalSize};

verus! {

/// Width of a brick in columns.
pub const BRICK_WIDTH: u16 = 4;

/// Distance between the left edges of neighbouring bricks.
pub const BRICK_SPACING: u16 = 5;

/// Rows taken by the HUD above the play field.
pub const HUD_HEIGHT: u16 = 2;

/// Width of the paddle at the start of a game.
pub const PADDLE_DEFAULT_WIDTH: u16 = 7;

/// One brick of the wall.
#[derive(Debug, Clone, Copy, PartialEq, Eq, Structural)]
pub struct Brick {
    pub col: u16,
    pub row: u16,
    pub hp: u8,
    pub is_alive: bool,
}

/// Rows of bricks at a level: three more than the level.
pub open spec fn brick_rows(level: Level) -> int {
    3 + level.0
}

/// Bricks per row: as many as fit the terminal's width.
pub open spec fn brick_cols(bounds: TerminalSize) -> int {
    (bounds.width / BRICK_SPACING) as int
}

/// The wall is centred: the columns left over are split on both sides.
pub open spec fn brick_offset(bounds: TerminalSize) -> int {
    (bounds.width - brick_cols(bounds) * BRICK_SPACING) / 2
}

/// The brick in row `r` and column `c` of the wall: two hit points in the top
/// row from level 3 on, one otherwise.
pub open spec fn level_brick(bounds: TerminalSize, level: Level, r: int, c: int) -> Brick {
    Brick {
        col: (brick_offset(bounds) + c * BRICK_SPACING) as u16,
        row: (HUD_HEIGHT + 1 + r) as u16,
        hp: if level.0 >= 3 && r == 0 { 2 } else { 1 },
        is_alive: true,
    }
}

/// The wall of a level, row by row.
pub open spec fn level_bricks(bounds: TerminalSize, level: Level) -> Seq<Brick> {
    let cols = brick_cols(bounds);
    Seq::new(
        (brick_rows(level) * cols) as nat,
        |k: int| level_brick(bounds, level, k / cols, k % cols),
    )
}

/// Builds the wall of bricks for a level on a terminal of the given size.
pub fn spawn_level_bricks(bounds: TerminalSize, level: Level) -> (r: Vec<Brick>)
    ensures
        r@ == level_bricks(bounds, level),
        forall|k: int| 0 <= k < r@.len() ==> wall_brick_fits(bounds, #[trigger] r@[k]),
{
    let rows: u16 = 3 + level.0 as u16;
    let cols: u16 = bounds.width / BRICK_SPACING;
    let offset_x: u16 = bounds.width.saturating_sub(cols * BRICK_SPACING) / 2;
    let ghost cols_i = cols as int;
    let mut bricks: Vec<Brick> = Vec::new();
    let mut r: u16 = 0;
    while r < rows
        invariant
            rows == brick_rows(level),
            cols == brick_cols(bounds),
            cols_i == cols as int,
            offset_x == brick_offset(bounds),
            r <= rows,
            bricks@ =~= Seq::new(
                (r * cols_i) as nat,
                |k: int| level_brick(bounds, level, k / cols_i, k % cols_i),
            ),
        decreases rows - r,
    {
        let mut c: u16 = 0;
        while c < cols
            invariant
                rows == brick_rows(level),
                cols == brick_cols(bounds),
                cols_i == cols as int,
                offset_x == brick_offset(bounds),
                r < rows,
                c <= cols,
                bricks@ =~= Seq::new(
                    (r * cols_i + c) as nat,
                    |k: int| level_brick(bounds, level, k / cols_i, k % cols_i),
                ),
            decreases cols - c,
        {
            let top_y: u16 = HUD_HEIGHT + 1 + r;
            let left_x: u16 = offset_x + c * BRICK_SPACING;
            let hp: u8 = if level.0 >= 3 && r == 0 { 2 } else { 1 };
            let ghost k = r * cols_i + c;
            proof {
                assert(0 <= r * cols_i) by (nonlinear_arith)
                    requires
                        0 <= r,
                        0 <= cols_i,
                ;
                vstd::arithmetic::div_mod::lemma_fundamental_div_mod_converse(k, cols_i, r as int, c as int);
            }
            bricks.push(Brick { col: left_x, row: top_y, hp, is_alive: true });
            c = c + 1;
        }
        proof {
            assert((r + 1) * cols_i == r * cols_i + cols_i) by (nonlinear_arith);
        }
        r = r + 1;
    }
    proof {
        lemma_wall_fits(bounds, level);
    }
    bricks
}

/// A brick of a new wall: standing, below the HUD, and with all of its
/// columns on the screen.
pub open spec fn wall_brick_fits(bounds: TerminalSize, b: Brick) -> bool {
    &&& b.is_alive
    &&& b.row > HUD_HEIGHT
    &&& b.col + BRICK_WIDTH < bounds.width
}

/// Every brick of a level's wall stands within the screen's width.
pub proof fn lemma_wall_fits(bounds: TerminalSize, level: Level)
    ensures
        forall|k: int| 0 <= k < level_bricks(bounds, level).len() ==> wall_brick_fits(
            bounds,
            #[trigger] level_bricks(bounds, level)[k],
        ),
{
    let cols = brick_cols(bounds);
    let w = bounds.width as int;
    assert forall|k: int| 0 <= k < level_bricks(bounds, level).len() implies wall_brick_fits(
        bounds,
        #[trigger] level_bricks(bounds, level)[k],
    ) by {
        assert(cols > 0) by (nonlinear_arith)
            requires
                0 <= k < brick_rows(level) * cols,
                brick_rows(level) > 0,
        ;
        let c = k % cols;
        let r = k / cols;
        assert(0 <= c < cols) by (nonlinear_arith)
            requires
                cols > 0,
                c == k % cols,
        ;
        assert(0 <= r) by (nonlinear_arith)
            requires
                cols > 0,
                k >= 0,
                r == k / cols,
        ;
        assert(cols * 5 <= w) by (nonlinear_arith)
            requires
                cols == w / 5,
                w >= 0,
        ;
        assert(c * 5 + 5 <= cols * 5) by (nonlinear_arith)
            requires
                c < cols,
        ;
        assert(0 <= c * 5) by (nonlinear_arith)
            requires
                c >= 0,
        ;
        assert(r < brick_rows(level)) by (nonlinear_arith)
            requires
                cols > 0,
                0 <= k < brick_rows(level) * cols,
                r == k / cols,
        ;
        let off = brick_offset(bounds);
        assert(0 <= off && 2 * off <= w - cols * 5);
        assert(level_bricks(bounds, level)[k] == level_brick(bounds, level, r, c));
    }
}

} // verus!
