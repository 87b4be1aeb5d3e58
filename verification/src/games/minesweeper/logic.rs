use std::collections::VecDeque;

use vstd::prelude::*;

use crate::engine::input::Key;
use crate::games::minesweeper::state::{
    mines_wf, with_difficulty, Difficulty, MineCell, MinesweeperModel, MinesweeperState,
};
use crate::games::rand::{fast_rand, splitmix64};
use crate::types::geometry::{Direction, Score};

verus! {

/// Points for each mine of a completed board.
pub const POINTS_PER_MINE: u32 = 5;

/// Whether (x, y) lies in the 3x3 zone centred on the first revealed square.
pub open spec fn spec_is_safe_zone(safe_x: u16, safe_y: u16, x: u16, y: u16) -> bool {
    -1 <= safe_x - x <= 1 && -1 <= safe_y - y <= 1
}

/// The square that the `attempt`-th pseudo-random draw proposes for a mine.
pub open spec fn mine_target(m: MinesweeperModel, attempt: u64) -> (u16, u16) {
    let r = splitmix64(attempt ^ (m.mine_count as u64));
    ((r % (m.board_width as u64)) as u16, (splitmix64(r) % (m.board_height as u64)) as u16)
}

/// The square (x, y) with a mine.
pub open spec fn mined(c: MineCell) -> MineCell {
    MineCell { has_mine: true, ..c }
}

/// Pseudo-random placement from attempt `attempt` on with `placed` mines placed:
/// each draw that falls outside the safe zone on a square without a mine
/// places one, until all mines are placed or the attempts (2^64 - 1) run out.
/// Returns the squares and the number of mines placed.
pub open spec fn place_random(
    m: MinesweeperModel,
    cells: Seq<MineCell>,
    safe_x: u16,
    safe_y: u16,
    placed: int,
    attempt: u64,
) -> (Seq<MineCell>, int)
    decreases u64::MAX - attempt,
{
    if placed >= m.mine_count || attempt == u64::MAX {
        (cells, placed)
    } else {
        let next = (attempt + 1) as u64;
        let (x, y) = mine_target(m, next);
        let i = y * m.board_width + x;
        if spec_is_safe_zone(safe_x, safe_y, x, y) || cells[i].has_mine {
            place_random(m, cells, safe_x, safe_y, placed, next)
        } else {
            place_random(m, cells.update(i, mined(cells[i])), safe_x, safe_y, placed + 1, next)
        }
    }
}

/// Completes a placement that the draws could not finish: squares are taken
/// in order from square `i` on, skipping the safe zone and squares with mines.
pub open spec fn place_in_order(
    m: MinesweeperModel,
    cells: Seq<MineCell>,
    safe_x: u16,
    safe_y: u16,
    placed: int,
    i: int,
) -> Seq<MineCell>
    decreases cells.len() - i,
{
    if placed >= m.mine_count || i >= cells.len() || i < 0 {
        cells
    } else {
        let x = (i % m.board_width as int) as u16;
        let y = (i / m.board_width as int) as u16;
        if spec_is_safe_zone(safe_x, safe_y, x, y) || cells[i].has_mine {
            place_in_order(m, cells, safe_x, safe_y, placed, i + 1)
        } else {
            place_in_order(m, cells.update(i, mined(cells[i])), safe_x, safe_y, placed + 1, i + 1)
        }
    }
}

/// The squares after placing the mines around a safe first square.
pub open spec fn placed_mines(m: MinesweeperModel, safe_x: u16, safe_y: u16) -> Seq<MineCell> {
    let (cells, placed) = place_random(m, m.cells, safe_x, safe_y, 0, 0);
    place_in_order(m, cells, safe_x, safe_y, placed, 0)
}

/// The 3x3 block of positions centred on (x, y), row by row.
pub open spec fn neighbor_grid(x: u16, y: u16) -> Seq<(int, int)> {
    Seq::new(9, |k: int| (x + k % 3 - 1, y + k / 3 - 1))
}

/// Whether a position of the block around (x, y) is a neighbour on a `w` by
/// `h` board: on the board and not (x, y) itself.
pub open spec fn neighbor_keep(w: u16, h: u16, x: u16, y: u16) -> spec_fn((int, int)) -> bool {
    |p: (int, int)| !(p.0 == x && p.1 == y) && 0 <= p.0 < w && 0 <= p.1 < h
}

/// A position as board coordinates.
pub open spec fn as_square(p: (int, int)) -> (u16, u16) {
    (p.0 as u16, p.1 as u16)
}

/// The up to eight neighbours of (x, y) on a `w` by `h` board, row by row.
pub open spec fn neighbor_list(w: u16, h: u16, x: u16, y: u16) -> Seq<(u16, u16)> {
    neighbor_grid(x, y).filter(neighbor_keep(w, h, x, y)).map_values(|p: (int, int)| as_square(p))
}

/// Whether the square (p.0, p.1) of a `w`-wide board holds a mine.
pub open spec fn mine_at(cells: Seq<MineCell>, w: u16, p: (u16, u16)) -> bool {
    cells[p.1 * w + p.0].has_mine
}

/// The number of mines around (x, y).
pub open spec fn adjacent_mines(cells: Seq<MineCell>, w: u16, h: u16, x: u16, y: u16) -> nat {
    neighbor_list(w, h, x, y).filter(|p: (u16, u16)| mine_at(cells, w, p)).len()
}

/// Every square without a mine records the number of mines around it.
pub open spec fn with_adjacency(cells: Seq<MineCell>, w: u16, h: u16) -> Seq<MineCell> {
    Seq::new(
        cells.len(),
        |i: int|
            if cells[i].has_mine {
                cells[i]
            } else {
                MineCell {
                    adjacent: adjacent_mines(cells, w, h, (i % w as int) as u16, (i / w as int) as u16) as u8,
                    ..cells[i]
                }
            },
    )
}

/// Generating the board: mines placed around the safe square, counts filled in.
pub open spec fn generate_model(m: MinesweeperModel, safe_x: u16, safe_y: u16) -> MinesweeperModel {
    MinesweeperModel {
        cells: with_adjacency(placed_mines(m, safe_x, safe_y), m.board_width, m.board_height),
        is_generated: true,
        ..m
    }
}

/// The number of hidden squares.
pub open spec fn hidden_count(cells: Seq<MineCell>) -> nat
    decreases cells.len(),
{
    if cells.len() == 0 {
        0
    } else {
        hidden_count(cells.drop_last()) + if cells.last().is_revealed { 0nat } else { 1nat }
    }
}

/// The square made visible.
pub open spec fn revealed(c: MineCell) -> MineCell {
    MineCell { is_revealed: true, ..c }
}

/// Revealing from a queue of squares: each hidden, unflagged square taken from
/// the front is revealed and scores a point; a revealed square with no mine
/// around it adds its hidden neighbours to the back of the queue.
pub open spec fn flood(m: MinesweeperModel, queue: Seq<(u16, u16)>) -> MinesweeperModel
    decreases hidden_count(m.cells), queue.len(),
{
    if queue.len() == 0 {
        m
    } else {
        let (cx, cy) = queue[0];
        let rest = queue.drop_first();
        let i = cy * m.board_width + cx;
        if !(0 <= i < m.cells.len()) || m.cells[i].is_revealed || m.cells[i].is_flagged {
            flood(m, rest)
        } else {
            let m1 = MinesweeperModel {
                cells: m.cells.update(i, revealed(m.cells[i])),
                score: Score(m.score.0.saturating_add(1)),
                ..m
            };
            proof {
                lemma_reveal_one(m.cells, i);
            }
            if m1.cells[i].adjacent != 0 {
                flood(m1, rest)
            } else {
                flood(
                    m1,
                    rest + neighbor_list(m.board_width, m.board_height, cx, cy).filter(
                        |p: (u16, u16)| !m1.cells[p.1 * m.board_width + p.0].is_revealed,
                    ),
                )
            }
        }
    }
}

/// Revealing a hidden square lowers the number of hidden squares by one.
pub proof fn lemma_reveal_one(cells: Seq<MineCell>, i: int)
    requires
        0 <= i < cells.len(),
        !cells[i].is_revealed,
    ensures
        hidden_count(cells.update(i, revealed(cells[i]))) + 1 == hidden_count(cells),
    decreases cells.len(),
{
    let u = cells.update(i, revealed(cells[i]));
    if i < cells.len() - 1 {
        assert(u.drop_last() =~= cells.drop_last().update(i, revealed(cells[i])));
        lemma_reveal_one(cells.drop_last(), i);
    } else {
        assert(u.drop_last() =~= cells.drop_last());
    }
}

/// Every mine becomes visible.
pub open spec fn reveal_mines(cells: Seq<MineCell>) -> Seq<MineCell> {
    cells.map_values(|c: MineCell| if c.has_mine { revealed(c) } else { c })
}

/// Whether some square without a mine is still hidden.
pub open spec fn safe_square_hidden(cells: Seq<MineCell>) -> bool {
    exists|i: int| 0 <= i < cells.len() && !(#[trigger] cells[i]).has_mine && !cells[i].is_revealed
}

/// The board is complete once every square without a mine is revealed; that
/// scores 5 points per mine.
pub open spec fn complete_model(m: MinesweeperModel) -> MinesweeperModel {
    if safe_square_hidden(m.cells) {
        m
    } else {
        MinesweeperModel {
            is_complete: true,
            score: Score(m.score.0.saturating_add((m.mine_count * POINTS_PER_MINE) as u32)),
            ..m
        }
    }
}

/// The index of the cursor's square.
pub open spec fn cursor_index(m: MinesweeperModel) -> int {
    m.cursor_y * m.board_width + m.cursor_x
}

/// Revealing the cursor's square: the board is generated around it on the
/// first reveal; a flagged square is left alone; a mine ends the game and
/// shows all mines; otherwise the flood reveal runs and completion is checked.
pub open spec fn reveal_model(m: MinesweeperModel) -> MinesweeperModel {
    let m1 = if !m.is_generated { generate_model(m, m.cursor_x, m.cursor_y) } else { m };
    let i = cursor_index(m1);
    if m1.cells[i].is_flagged {
        m1
    } else if m1.cells[i].has_mine {
        MinesweeperModel { is_game_over: true, cells: reveal_mines(m1.cells), ..m1 }
    } else {
        complete_model(flood(m1, seq![(m1.cursor_x, m1.cursor_y)]))
    }
}

/// Flags or unflags the cursor's square unless it is revealed.
pub open spec fn toggle_model(m: MinesweeperModel) -> MinesweeperModel {
    let i = cursor_index(m);
    if m.cells[i].is_revealed {
        m
    } else {
        MinesweeperModel {
            cells: m.cells.update(i, MineCell { is_flagged: !m.cells[i].is_flagged, ..m.cells[i] }),
            ..m
        }
    }
}

/// A key press: 1-3 choose the difficulty (before the first reveal), arrows
/// move the cursor within the board, Flag toggles a flag, Action reveals;
/// nothing happens after the end.
pub open spec fn after_input(m: MinesweeperModel, key: Key) -> MinesweeperModel {
    if m.is_game_over || m.is_complete {
        m
    } else {
        match key {
            Key::Number(1) => if m.is_generated { m } else { with_difficulty(m, Difficulty::Easy) },
            Key::Number(2) => if m.is_generated { m } else { with_difficulty(m, Difficulty::Medium) },
            Key::Number(3) => if m.is_generated { m } else { with_difficulty(m, Difficulty::Hard) },
            Key::Dir(Direction::Left) => MinesweeperModel { cursor_x: m.cursor_x.saturating_sub(1), ..m },
            Key::Dir(Direction::Right) => MinesweeperModel {
                cursor_x: if m.cursor_x + 1 < m.board_width - 1 {
                    (m.cursor_x + 1) as u16
                } else {
                    (m.board_width - 1) as u16
                },
                ..m
            },
            Key::Dir(Direction::Up) => MinesweeperModel { cursor_y: m.cursor_y.saturating_sub(1), ..m },
            Key::Dir(Direction::Down) => MinesweeperModel {
                cursor_y: if m.cursor_y + 1 < m.board_height - 1 {
                    (m.cursor_y + 1) as u16
                } else {
                    (m.board_height - 1) as u16
                },
                ..m
            },
            Key::Flag => toggle_model(m),
            Key::Action => reveal_model(m),
            _ => m,
        }
    }
}

/// A frame adds one to the play time while a generated board is being played.
pub open spec fn mines_tick(m: MinesweeperModel) -> MinesweeperModel {
    if !m.is_game_over && !m.is_complete && m.is_generated {
        MinesweeperModel { elapsed_ticks: m.elapsed_ticks.saturating_add(1), ..m }
    } else {
        m
    }
}


/// The board's shape is unchanged: same size, same mine count and cursor.
pub open spec fn same_layout(a: MinesweeperModel, b: MinesweeperModel) -> bool {
    &&& a.board_width == b.board_width
    &&& a.board_height == b.board_height
    &&& a.mine_count == b.mine_count
    &&& a.cursor_x == b.cursor_x
    &&& a.cursor_y == b.cursor_y
    &&& a.cells.len() == b.cells.len()
}


/// Filtering with two predicates that agree on every element gives the same result.
pub proof fn lemma_filter_congruent<A>(s: Seq<A>, p: spec_fn(A) -> bool, q: spec_fn(A) -> bool)
    requires
        forall|i: int| 0 <= i < s.len() ==> p(#[trigger] s[i]) == q(s[i]),
    ensures
        s.filter(p) == s.filter(q),
    decreases s.len(),
{
    reveal_with_fuel(Seq::<_>::filter, 1);
    if s.len() > 0 {
        lemma_filter_congruent(s.drop_last(), p, q);
        assert(p(s[s.len() - 1]) == q(s[s.len() - 1]));
    }
}

/// The count of mines around a square depends only on where the mines are.
pub proof fn lemma_adjacent_mines_depend_on_mines(
    a: Seq<MineCell>,
    b: Seq<MineCell>,
    w: u16,
    h: u16,
    x: u16,
    y: u16,
)
    requires
        a.len() == b.len(),
        a.len() == w * h,
        forall|j: int| 0 <= j < a.len() ==> (#[trigger] a[j]).has_mine == b[j].has_mine,
    ensures
        adjacent_mines(a, w, h, x, y) == adjacent_mines(b, w, h, x, y),
{
    let nb = neighbor_list(w, h, x, y);
    let grid = neighbor_grid(x, y);
    let keep = neighbor_keep(w, h, x, y);
    assert forall|k: int| 0 <= k < nb.len() implies mine_at(a, w, #[trigger] nb[k]) == mine_at(b, w, nb[k]) by {
        grid.lemma_filter_pred(keep, k);
        let p = grid.filter(keep)[k];
        assert(nb[k] == as_square(p));
        assert(0 <= nb[k].1 * w + nb[k].0 < w * h) by (nonlinear_arith)
            requires
                0 <= nb[k].0 < w,
                0 <= nb[k].1 < h,
        ;
    }
    lemma_filter_congruent(nb, |p: (u16, u16)| mine_at(a, w, p), |p: (u16, u16)| mine_at(b, w, p));
}

/// Adds one to the play time of a running, generated board.
pub fn tick(state: &mut MinesweeperState)
    ensures
        final(state)@ == mines_tick(old(state)@),
{
    if !state.is_game_over && !state.is_complete && state.is_generated {
        state.elapsed_ticks = state.elapsed_ticks.saturating_add(1);
    }
}

/// Applies one key press.
pub fn handle_input(state: &mut MinesweeperState, key: Key)
    requires
        mines_wf(old(state)@),
    ensures
        final(state)@ == after_input(old(state)@, key),
        mines_wf(final(state)@),
{
    if state.is_game_over || state.is_complete {
        return;
    }
    match key {
        Key::Number(1) => state.set_difficulty(Difficulty::Easy),
        Key::Number(2) => state.set_difficulty(Difficulty::Medium),
        Key::Number(3) => state.set_difficulty(Difficulty::Hard),
        Key::Dir(Direction::Left) => state.cursor_x = state.cursor_x.saturating_sub(1),
        Key::Dir(Direction::Right) => {
            let next = state.cursor_x.saturating_add(1);
            let last = state.board_width - 1;
            state.cursor_x = if next < last { next } else { last };
        },
        Key::Dir(Direction::Up) => state.cursor_y = state.cursor_y.saturating_sub(1),
        Key::Dir(Direction::Down) => {
            let next = state.cursor_y.saturating_add(1);
            let last = state.board_height - 1;
            state.cursor_y = if next < last { next } else { last };
        },
        Key::Flag => toggle_flag(state),
        Key::Action => reveal_current(state),
        _ => {},
    }
}

/// Flags or unflags the cursor's square unless it is revealed.
pub fn toggle_flag(state: &mut MinesweeperState)
    requires
        mines_wf(old(state)@),
    ensures
        final(state)@ == toggle_model(old(state)@),
        mines_wf(final(state)@),
{
    proof {
        lemma_square_index(old(state)@, state.cursor_x, state.cursor_y);
    }
    let idx = state.index(state.cursor_x, state.cursor_y);
    let cell = state.cells[idx];
    if !cell.is_revealed {
        state.cells.set(idx, MineCell { is_flagged: !cell.is_flagged, ..cell });
    }
}

/// A square of the board has an index within the cells.
pub proof fn lemma_square_index(m: MinesweeperModel, x: u16, y: u16)
    requires
        mines_wf(m),
        x < m.board_width,
        y < m.board_height,
    ensures
        0 <= y * m.board_width + x < m.cells.len(),
        y * m.board_width + x <= u16::MAX,
{
    assert(y * m.board_width + x < m.board_width * m.board_height) by (nonlinear_arith)
        requires
            x < m.board_width,
            y < m.board_height,
    ;
    assert(0 <= y * m.board_width) by (nonlinear_arith);
}

/// Reveals the cursor's square (generating the board on the first reveal).
pub fn reveal_current(state: &mut MinesweeperState)
    requires
        mines_wf(old(state)@),
    ensures
        final(state)@ == reveal_model(old(state)@),
        mines_wf(final(state)@),
{
    if !state.is_generated {
        generate_board(state, state.cursor_x, state.cursor_y);
    }
    proof {
        lemma_square_index(state@, state.cursor_x, state.cursor_y);
    }
    let idx = state.index(state.cursor_x, state.cursor_y);
    if state.cells[idx].is_flagged {
        return;
    }
    if state.cells[idx].has_mine {
        state.is_game_over = true;
        reveal_all_mines(state);
        return;
    }
    flood_reveal(state, state.cursor_x, state.cursor_y);
    check_complete(state);
}

/// Places the mines around the safe square and fills in the counts.
pub fn generate_board(state: &mut MinesweeperState, safe_x: u16, safe_y: u16)
    requires
        mines_wf(old(state)@),
    ensures
        final(state)@ == generate_model(old(state)@, safe_x, safe_y),
        mines_wf(final(state)@),
{
    let ghost m0 = state@;
    let mut placed: u16 = 0;
    let mut attempt: u64 = 0;
    while placed < state.mine_count && attempt < u64::MAX
        invariant
            mines_wf(state@),
            same_layout(state@, m0),
            state@ == (MinesweeperModel { cells: state@.cells, ..m0 }),
            placed <= m0.mine_count,
            place_random(m0, m0.cells, safe_x, safe_y, 0, 0) == place_random(
                m0,
                state@.cells,
                safe_x,
                safe_y,
                placed as int,
                attempt,
            ),
        decreases u64::MAX - attempt,
    {
        attempt = attempt + 1;
        let rand_value = fast_rand(attempt ^ (state.mine_count as u64));
        let x = (rand_value % (state.board_width as u64)) as u16;
        let y = (fast_rand(rand_value) % (state.board_height as u64)) as u16;
        assert((x, y) == mine_target(m0, attempt));
        if is_safe_zone(safe_x, safe_y, x, y) {
            continue;
        }
        proof {
            lemma_square_index(state@, x, y);
        }
        let idx = state.index(x, y);
        let cell = state.cells[idx];
        if cell.has_mine {
            continue;
        }
        state.cells.set(idx, MineCell { has_mine: true, ..cell });
        placed = placed + 1;
    }
    let ghost after_draws = state@.cells;
    let ghost drawn = placed as int;
    let n = state.cells.len();
    let mut i: usize = 0;
    while placed < state.mine_count && i < n
        invariant
            mines_wf(state@),
            same_layout(state@, m0),
            state@ == (MinesweeperModel { cells: state@.cells, ..m0 }),
            n == m0.cells.len(),
            i <= n,
            placed <= m0.mine_count,
            placed_mines(m0, safe_x, safe_y) == place_in_order(
                m0,
                state@.cells,
                safe_x,
                safe_y,
                placed as int,
                i as int,
            ),
        decreases n - i,
    {
        let x = (i % (state.board_width as usize)) as u16;
        let y = (i / (state.board_width as usize)) as u16;
        let cell = state.cells[i];
        if !is_safe_zone(safe_x, safe_y, x, y) && !cell.has_mine {
            state.cells.set(i, MineCell { has_mine: true, ..cell });
            placed = placed + 1;
        }
        i = i + 1;
    }
    calculate_adjacency(state);
    state.is_generated = true;
}

/// Whether (x, y) is within one square of (safe_x, safe_y) in both directions.
pub fn is_safe_zone(safe_x: u16, safe_y: u16, x: u16, y: u16) -> (r: bool)
    ensures
        r == spec_is_safe_zone(safe_x, safe_y, x, y),
{
    let dx = (safe_x as i32) - (x as i32);
    let dy = (safe_y as i32) - (y as i32);
    -1 <= dx && dx <= 1 && -1 <= dy && dy <= 1
}

/// Fills in, for every square without a mine, the number of mines around it.
pub fn calculate_adjacency(state: &mut MinesweeperState)
    requires
        mines_wf(old(state)@),
    ensures
        final(state)@ == (MinesweeperModel {
            cells: with_adjacency(old(state)@.cells, old(state).board_width, old(state).board_height),
            ..old(state)@
        }),
        mines_wf(final(state)@),
{
    let ghost base = state@.cells;
    let ghost target = with_adjacency(base, state.board_width, state.board_height);
    let w = state.board_width;
    let h = state.board_height;
    let mut y: u16 = 0;
    while y < h
        invariant
            mines_wf(state@),
            state@ == (MinesweeperModel { cells: state@.cells, ..old(state)@ }),
            base == old(state)@.cells,
            target == with_adjacency(base, w, h),
            w == state.board_width,
            h == state.board_height,
            y <= h,
            state@.cells.len() == base.len(),
            forall|j: int| 0 <= j < y * w ==> #[trigger] state@.cells[j] == target[j],
            forall|j: int| y * w <= j < base.len() ==> #[trigger] state@.cells[j] == base[j],
            forall|j: int| 0 <= j < base.len() ==> (#[trigger] state@.cells[j]).has_mine == base[j].has_mine,
        decreases h - y,
    {
        let mut x: u16 = 0;
        while x < w
            invariant
                mines_wf(state@),
                state@ == (MinesweeperModel { cells: state@.cells, ..old(state)@ }),
                base == old(state)@.cells,
                target == with_adjacency(base, w, h),
                w == state.board_width,
                h == state.board_height,
                y < h,
                x <= w,
                state@.cells.len() == base.len(),
                forall|j: int| 0 <= j < y * w + x ==> #[trigger] state@.cells[j] == target[j],
                forall|j: int| y * w + x <= j < base.len() ==> #[trigger] state@.cells[j] == base[j],
                forall|j: int| 0 <= j < base.len() ==> (#[trigger] state@.cells[j]).has_mine == base[j].has_mine,
            decreases w - x,
        {
            proof {
                lemma_square_index(state@, x, y);
                vstd::arithmetic::div_mod::lemma_fundamental_div_mod_converse(
                    y * w + x,
                    w as int,
                    y as int,
                    x as int,
                );
            }
            let idx = state.index(x, y);
            let cell = state.cells[idx];
            if !cell.has_mine {
                let count = count_adjacent_mines(state, x, y);
                proof {
                    lemma_adjacent_mines_depend_on_mines(state@.cells, base, w, h, x, y);
                }
                state.cells.set(idx, MineCell { adjacent: count, ..cell });
            }
            x = x + 1;
        }
        proof {
            assert(y * w + w == (y + 1) * w) by (nonlinear_arith);
        }
        y = y + 1;
    }
    proof {
        assert(y * w == base.len()) by (nonlinear_arith)
            requires
                y == h,
                base.len() == w * h,
        ;
        assert(state@.cells =~= target);
    }
}

/// The number of mines around (x, y).
fn count_adjacent_mines(state: &MinesweeperState, x: u16, y: u16) -> (r: u8)
    requires
        mines_wf(state@),
        x < state.board_width,
        y < state.board_height,
    ensures
        r == adjacent_mines(state@.cells, state.board_width, state.board_height, x, y),
{
    let nb = neighbors(state, x, y);
    let ghost has_mine = |p: (u16, u16)| mine_at(state@.cells, state.board_width, p);
    let n = nb.len();
    let mut count: u8 = 0;
    let mut i: usize = 0;
    while i < n
        invariant
            mines_wf(state@),
            nb@ == neighbor_list(state.board_width, state.board_height, x, y),
            n == nb@.len(),
            n <= 9,
            i <= n,
            has_mine == (|p: (u16, u16)| mine_at(state@.cells, state.board_width, p)),
            count == nb@.take(i as int).filter(has_mine).len(),
            count <= i,
            forall|k: int| 0 <= k < n ==> (#[trigger] nb@[k]).0 < state.board_width && nb@[k].1 < state.board_height,
        decreases n - i,
    {
        let (nx, ny) = nb[i];
        proof {
            assert(nb@.take(i + 1) =~= nb@.take(i as int).push((nx, ny)));
            nb@.take(i as int).lemma_filter_push((nx, ny), has_mine);
            lemma_square_index(state@, nx, ny);
        }
        let idx = state.index(nx, ny);
        if state.cells[idx].has_mine {
            count = count + 1;
        }
        i = i + 1;
    }
    assert(nb@.take(n as int) =~= nb@);
    count
}

/// The squares around (x, y), row by row.
pub fn neighbors(state: &MinesweeperState, x: u16, y: u16) -> (r: Vec<(u16, u16)>)
    ensures
        r@ == neighbor_list(state.board_width, state.board_height, x, y),
        r@.len() <= 9,
        forall|k: int| 0 <= k < r@.len() ==> (#[trigger] r@[k]).0 < state.board_width && r@[k].1 < state.board_height,
{
    let ghost grid = neighbor_grid(x, y);
    let ghost keep = neighbor_keep(state.board_width, state.board_height, x, y);
    let ghost cast = |p: (int, int)| as_square(p);
    let mut result: Vec<(u16, u16)> = Vec::with_capacity(8);
    let mut k: i32 = 0;
    while k < 9
        invariant
            0 <= k <= 9,
            grid == neighbor_grid(x, y),
            keep == neighbor_keep(state.board_width, state.board_height, x, y),
            cast == (|p: (int, int)| as_square(p)),
            result@ == grid.take(k as int).filter(keep).map_values(cast),
            result@.len() <= k,
        decreases 9 - k,
    {
        let dy = k / 3 - 1;
        let dx = k % 3 - 1;
        let nx = (x as i32) + dx;
        let ny = (y as i32) + dy;
        proof {
            assert(grid[k as int] == (nx as int, ny as int));
            assert(grid.take(k + 1) =~= grid.take(k as int).push(grid[k as int]));
            grid.take(k as int).lemma_filter_push(grid[k as int], keep);
            grid.take(k as int).filter(keep).lemma_filter_len(keep);
        }
        if !(dx == 0 && dy == 0) && state.contains(nx, ny) {
            let ghost before = grid.take(k as int).filter(keep);
            result.push((nx as u16, ny as u16));
            assert(before.push(grid[k as int]).map_values(cast) =~= before.map_values(cast).push(cast(grid[k as int])));
        }
        k = k + 1;
    }
    assert(grid.take(9) =~= grid);
    proof {
        assert(result@ == neighbor_list(state.board_width, state.board_height, x, y));
        assert forall|q: int| 0 <= q < result@.len() implies (#[trigger] result@[q]).0 < state.board_width
            && result@[q].1 < state.board_height by {
            grid.lemma_filter_pred(keep, q);
        }
    }
    result
}

/// Reveals from (x, y) outwards (see `flood`).
pub fn flood_reveal(state: &mut MinesweeperState, x: u16, y: u16)
    requires
        mines_wf(old(state)@),
        x < old(state).board_width,
        y < old(state).board_height,
    ensures
        final(state)@ == flood(old(state)@, seq![(x, y)]),
        mines_wf(final(state)@),
        same_layout(final(state)@, old(state)@),
{
    let ghost m0 = state@;
    let mut queue: VecDeque<(u16, u16)> = VecDeque::new();
    queue.push_back((x, y));
    assert(queue@ =~= seq![(x, y)]);
    loop
        invariant
            mines_wf(state@),
            same_layout(state@, m0),
            state@ == (MinesweeperModel { cells: state@.cells, score: state@.score, ..m0 }),
            flood(m0, seq![(x, y)]) == flood(state@, queue@),
            forall|k: int| 0 <= k < queue@.len() ==> (#[trigger] queue@[k]).0 < m0.board_width && queue@[k].1 < m0.board_height,
        ensures
            flood(m0, seq![(x, y)]) == state@,
            mines_wf(state@),
            same_layout(state@, m0),
        decreases hidden_count(state@.cells), queue@.len(),
    {
        let ghost q = queue@;
        match queue.pop_front() {
            None => {
                break;
            },
            Some((cx, cy)) => {
                proof {
                    lemma_square_index(state@, cx, cy);
                }
                let idx = state.index(cx, cy);
                let cell = state.cells[idx];
                if cell.is_revealed || cell.is_flagged {
                    continue;
                }
                proof {
                    lemma_reveal_one(state@.cells, idx as int);
                }
                state.cells.set(idx, MineCell { is_revealed: true, ..cell });
                state.score.0 = state.score.0.saturating_add(1);
                if cell.adjacent != 0 {
                    continue;
                }
                let nb = neighbors(state, cx, cy);
                let ghost m1 = state@;
                let ghost rest = queue@;
                let ghost unseen = |p: (u16, u16)| !m1.cells[p.1 * m1.board_width + p.0].is_revealed;
                let n = nb.len();
                let mut k: usize = 0;
                while k < n
                    invariant
                        state@ == m1,
                        mines_wf(m1),
                        nb@ == neighbor_list(m1.board_width, m1.board_height, cx, cy),
                        n == nb@.len(),
                        k <= n,
                        unseen == (|p: (u16, u16)| !m1.cells[p.1 * m1.board_width + p.0].is_revealed),
                        queue@ == rest + nb@.take(k as int).filter(unseen),
                        forall|j: int| 0 <= j < n ==> (#[trigger] nb@[j]).0 < m1.board_width && nb@[j].1 < m1.board_height,
                        forall|j: int| 0 <= j < rest.len() ==> (#[trigger] rest[j]).0 < m1.board_width && rest[j].1 < m1.board_height,
                        forall|j: int| 0 <= j < queue@.len() ==> (#[trigger] queue@[j]).0 < m1.board_width && queue@[j].1 < m1.board_height,
                    decreases n - k,
                {
                    let (nx, ny) = nb[k];
                    proof {
                        assert(nb@.take(k + 1) =~= nb@.take(k as int).push((nx, ny)));
                        nb@.take(k as int).lemma_filter_push((nx, ny), unseen);
                        lemma_square_index(state@, nx, ny);
                    }
                    let nidx = state.index(nx, ny);
                    if !state.cells[nidx].is_revealed {
                        let ghost before = queue@;
                        queue.push_back((nx, ny));
                        assert(queue@ =~= rest + nb@.take(k + 1).filter(unseen));
                    } else {
                        assert(queue@ =~= rest + nb@.take(k + 1).filter(unseen));
                    }
                    k = k + 1;
                }
                assert(nb@.take(n as int) =~= nb@);
            },
        }
    }
}

/// Makes every mine visible.
pub fn reveal_all_mines(state: &mut MinesweeperState)
    requires
        mines_wf(old(state)@),
    ensures
        final(state)@ == (MinesweeperModel { cells: reveal_mines(old(state)@.cells), ..old(state)@ }),
        mines_wf(final(state)@),
{
    let n = state.cells.len();
    let mut i: usize = 0;
    while i < n
        invariant
            mines_wf(state@),
            state@ == (MinesweeperModel { cells: state@.cells, ..old(state)@ }),
            n == old(state)@.cells.len(),
            i <= n,
            state@.cells.len() == n,
            forall|j: int| 0 <= j < i ==> #[trigger] state@.cells[j] == reveal_mines(old(state)@.cells)[j],
            forall|j: int| i <= j < n ==> #[trigger] state@.cells[j] == old(state)@.cells[j],
        decreases n - i,
    {
        let cell = state.cells[i];
        if cell.has_mine {
            state.cells.set(i, MineCell { is_revealed: true, ..cell });
        }
        i = i + 1;
    }
    assert(state@.cells =~= reveal_mines(old(state)@.cells));
}

/// Completes the board once every square without a mine is revealed.
pub fn check_complete(state: &mut MinesweeperState)
    requires
        mines_wf(old(state)@),
    ensures
        final(state)@ == complete_model(old(state)@),
        mines_wf(final(state)@),
{
    let n = state.cells.len();
    let mut i: usize = 0;
    while i < n
        invariant
            state@ == old(state)@,
            n == state@.cells.len(),
            i <= n,
            forall|j: int| 0 <= j < i ==> !(!(#[trigger] state@.cells[j]).has_mine && !state@.cells[j].is_revealed),
            mines_wf(old(state)@),
        decreases n - i,
    {
        let cell = state.cells[i];
        if !cell.has_mine && !cell.is_revealed {
            assert(safe_square_hidden(state@.cells));
            return;
        }
        i = i + 1;
    }
    state.is_complete = true;
    state.score.0 = state.score.0.saturating_add((state.mine_count as u32) * POINTS_PER_MINE);
}


/// Two squares of a `w`-wide board with the same index are the same square.
pub proof fn lemma_index_unique(w: u16, x1: u16, y1: u16, x2: u16, y2: u16)
    requires
        x1 < w,
        x2 < w,
        y1 * w + x1 == y2 * w + x2,
    ensures
        x1 == x2,
        y1 == y2,
{
    vstd::arithmetic::div_mod::lemma_fundamental_div_mod_converse(y1 * w + x1, w as int, y1 as int, x1 as int);
    vstd::arithmetic::div_mod::lemma_fundamental_div_mod_converse(y2 * w + x2, w as int, y2 as int, x2 as int);
}

/// The pseudo-random placement never puts a mine on a square (zx, zy) of the
/// safe zone, and changes nothing but mines.
proof fn lemma_place_random_spares(
    m: MinesweeperModel,
    cells: Seq<MineCell>,
    safe_x: u16,
    safe_y: u16,
    zx: u16,
    zy: u16,
    placed: int,
    attempt: u64,
)
    requires
        mines_wf(m),
        zx < m.board_width,
        zy < m.board_height,
        spec_is_safe_zone(safe_x, safe_y, zx, zy),
        cells.len() == m.cells.len(),
        !cells[zy * m.board_width + zx].has_mine,
    ensures
        place_random(m, cells, safe_x, safe_y, placed, attempt).0.len() == cells.len(),
        !place_random(m, cells, safe_x, safe_y, placed, attempt).0[zy * m.board_width + zx].has_mine,
        forall|j: int| 0 <= j < cells.len() ==> (#[trigger] place_random(m, cells, safe_x, safe_y, placed, attempt).0[j]).is_revealed
            == cells[j].is_revealed && place_random(m, cells, safe_x, safe_y, placed, attempt).0[j].is_flagged == cells[j].is_flagged,
    decreases u64::MAX - attempt,
{
    if placed >= m.mine_count || attempt == u64::MAX {
    } else {
        let next = (attempt + 1) as u64;
        let (x, y) = mine_target(m, next);
        let i = y * m.board_width + x;
        lemma_square_index(m, x, y);
        lemma_square_index(m, zx, zy);
        if spec_is_safe_zone(safe_x, safe_y, x, y) || cells[i].has_mine {
            lemma_place_random_spares(m, cells, safe_x, safe_y, zx, zy, placed, next);
        } else {
            if i == zy * m.board_width + zx {
                lemma_index_unique(m.board_width, x, y, zx, zy);
            }
            lemma_place_random_spares(m, cells.update(i, mined(cells[i])), safe_x, safe_y, zx, zy, placed + 1, next);
        }
    }
}

/// The placement in order never puts a mine on a square (zx, zy) of the safe
/// zone, and changes nothing but mines.
proof fn lemma_place_in_order_spares(
    m: MinesweeperModel,
    cells: Seq<MineCell>,
    safe_x: u16,
    safe_y: u16,
    zx: u16,
    zy: u16,
    placed: int,
    i: int,
)
    requires
        mines_wf(m),
        zx < m.board_width,
        zy < m.board_height,
        spec_is_safe_zone(safe_x, safe_y, zx, zy),
        cells.len() == m.cells.len(),
        !cells[zy * m.board_width + zx].has_mine,
    ensures
        place_in_order(m, cells, safe_x, safe_y, placed, i).len() == cells.len(),
        !place_in_order(m, cells, safe_x, safe_y, placed, i)[zy * m.board_width + zx].has_mine,
        forall|j: int| 0 <= j < cells.len() ==> (#[trigger] place_in_order(m, cells, safe_x, safe_y, placed, i)[j]).is_revealed
            == cells[j].is_revealed && place_in_order(m, cells, safe_x, safe_y, placed, i)[j].is_flagged == cells[j].is_flagged,
    decreases cells.len() - i,
{
    if placed >= m.mine_count || i >= cells.len() || i < 0 {
    } else {
        let x = (i % m.board_width as int) as u16;
        let y = (i / m.board_width as int) as u16;
        lemma_square_index(m, zx, zy);
        if spec_is_safe_zone(safe_x, safe_y, x, y) || cells[i].has_mine {
            lemma_place_in_order_spares(m, cells, safe_x, safe_y, zx, zy, placed, i + 1);
        } else {
            if i == zy * m.board_width + zx {
                vstd::arithmetic::div_mod::lemma_fundamental_div_mod_converse(
                    i,
                    m.board_width as int,
                    zy as int,
                    zx as int,
                );
            }
            lemma_place_in_order_spares(m, cells.update(i, mined(cells[i])), safe_x, safe_y, zx, zy, placed + 1, i + 1);
        }
    }
}

/// The flood reveal only reveals: no square is hidden again, mines, flags and
/// counts stay, and a flagged hidden square stays hidden.
pub proof fn lemma_flood_only_reveals(m: MinesweeperModel, queue: Seq<(u16, u16)>)
    ensures
        flood(m, queue).cells.len() == m.cells.len(),
        flood(m, queue).board_width == m.board_width,
        flood(m, queue).is_game_over == m.is_game_over,
        flood(m, queue).is_generated == m.is_generated,
        flood(m, queue) == (MinesweeperModel { cells: flood(m, queue).cells, score: flood(m, queue).score, ..m }),
        flood(m, queue).score.0 >= m.score.0,
        forall|j: int| 0 <= j < m.cells.len() ==> {
            &&& (#[trigger] flood(m, queue).cells[j]).has_mine == m.cells[j].has_mine
            &&& flood(m, queue).cells[j].is_flagged == m.cells[j].is_flagged
            &&& flood(m, queue).cells[j].adjacent == m.cells[j].adjacent
            &&& (m.cells[j].is_revealed ==> flood(m, queue).cells[j].is_revealed)
            &&& (m.cells[j].is_flagged && !m.cells[j].is_revealed ==> !flood(m, queue).cells[j].is_revealed)
        },
    decreases hidden_count(m.cells), queue.len(),
{
    if queue.len() > 0 {
        let (cx, cy) = queue[0];
        let rest = queue.drop_first();
        let i = cy * m.board_width + cx;
        if !(0 <= i < m.cells.len()) || m.cells[i].is_revealed || m.cells[i].is_flagged {
            lemma_flood_only_reveals(m, rest);
        } else {
            let m1 = MinesweeperModel {
                cells: m.cells.update(i, revealed(m.cells[i])),
                score: Score(m.score.0.saturating_add(1)),
                ..m
            };
            lemma_reveal_one(m.cells, i);
            if m1.cells[i].adjacent != 0 {
                lemma_flood_only_reveals(m1, rest);
            } else {
                lemma_flood_only_reveals(
                    m1,
                    rest + neighbor_list(m.board_width, m.board_height, cx, cy).filter(
                        |p: (u16, u16)| !m1.cells[p.1 * m.board_width + p.0].is_revealed,
                    ),
                );
            }
        }
    }
}

/// The first reveal of a fresh board is safe: the board is generated around
/// the cursor, no square of the 3x3 zone around the cursor holds a mine, the
/// cursor's square is revealed, and the game goes on.
pub proof fn lemma_first_reveal_is_safe(m: MinesweeperModel)
    requires
        mines_wf(m),
        !m.is_generated,
        !m.is_game_over,
        !m.is_complete,
        forall|j: int| 0 <= j < m.cells.len() ==> #[trigger] m.cells[j] == crate::games::minesweeper::state::blank_cell(),
    ensures
        ({
            let r = after_input(m, Key::Action);
            let i = cursor_index(m);
            &&& r.is_generated
            &&& !r.is_game_over
            &&& r.cells[i].is_revealed
            &&& forall|x: u16, y: u16|
                x < m.board_width && y < m.board_height && spec_is_safe_zone(m.cursor_x, m.cursor_y, x, y)
                    ==> !(#[trigger] r.cells[y * m.board_width + x]).has_mine
        }),
{
    let i = cursor_index(m);
    lemma_square_index(m, m.cursor_x, m.cursor_y);
    let (c1, p1) = place_random(m, m.cells, m.cursor_x, m.cursor_y, 0, 0);
    let m1 = generate_model(m, m.cursor_x, m.cursor_y);
    assert forall|x: u16, y: u16|
        x < m.board_width && y < m.board_height && spec_is_safe_zone(m.cursor_x, m.cursor_y, x, y)
            implies !(#[trigger] m1.cells[y * m.board_width + x]).has_mine by {
        lemma_square_index(m, x, y);
        lemma_place_random_spares(m, m.cells, m.cursor_x, m.cursor_y, x, y, 0, 0);
        lemma_place_in_order_spares(m, c1, m.cursor_x, m.cursor_y, x, y, p1, 0);
    }
    lemma_place_random_spares(m, m.cells, m.cursor_x, m.cursor_y, m.cursor_x, m.cursor_y, 0, 0);
    lemma_place_in_order_spares(m, c1, m.cursor_x, m.cursor_y, m.cursor_x, m.cursor_y, p1, 0);
    assert(!m1.cells[i].has_mine);
    assert(!m1.cells[i].is_revealed && !m1.cells[i].is_flagged);
    let q = seq![(m1.cursor_x, m1.cursor_y)];
    let m2 = MinesweeperModel {
        cells: m1.cells.update(i, revealed(m1.cells[i])),
        score: Score(m1.score.0.saturating_add(1)),
        ..m1
    };
    let rest = if m2.cells[i].adjacent != 0 {
        q.drop_first()
    } else {
        q.drop_first() + neighbor_list(m1.board_width, m1.board_height, m1.cursor_x, m1.cursor_y).filter(
            |p: (u16, u16)| !m2.cells[p.1 * m1.board_width + p.0].is_revealed,
        )
    };
    assert(flood(m1, q) == flood(m2, rest));
    lemma_flood_only_reveals(m2, rest);
    assert(reveal_model(m) == complete_model(flood(m2, rest)));
    let r = after_input(m, Key::Action);
    assert forall|x: u16, y: u16|
        x < m.board_width && y < m.board_height && spec_is_safe_zone(m.cursor_x, m.cursor_y, x, y)
            implies !(#[trigger] r.cells[y * m.board_width + x]).has_mine by {
        lemma_square_index(m, x, y);
        assert(!m1.cells[y * m.board_width + x].has_mine);
    }
}

/// The difficulty cannot change once the board is generated: no key press
/// changes the board's size, mine count or difficulty after the first reveal.
pub proof fn lemma_difficulty_fixed_after_first_reveal(m: MinesweeperModel, key: Key)
    requires
        mines_wf(m),
        m.is_generated,
    ensures
        after_input(m, key).difficulty == m.difficulty,
        after_input(m, key).board_width == m.board_width,
        after_input(m, key).board_height == m.board_height,
        after_input(m, key).mine_count == m.mine_count,
        after_input(m, key).cells.len() == m.cells.len(),
{
    lemma_square_index(m, m.cursor_x, m.cursor_y);
    if !m.is_game_over && !m.is_complete {
        match key {
            Key::Action => {
                let i = cursor_index(m);
                if !m.cells[i].is_flagged && !m.cells[i].has_mine {
                    let f = flood(m, seq![(m.cursor_x, m.cursor_y)]);
                    lemma_flood_only_reveals(m, seq![(m.cursor_x, m.cursor_y)]);
                    assert(after_input(m, key) == complete_model(f));
                }
            },
            Key::Flag => {},
            _ => {},
        }
    }
}

/// The number of squares holding a mine.
pub open spec fn mine_total(cells: Seq<MineCell>) -> nat
    decreases cells.len(),
{
    if cells.len() == 0 {
        0
    } else {
        mine_total(cells.drop_last()) + if cells.last().has_mine { 1nat } else { 0nat }
    }
}

/// Putting a mine on a square without one adds one mine.
proof fn lemma_mine_one(cells: Seq<MineCell>, i: int)
    requires
        0 <= i < cells.len(),
        !cells[i].has_mine,
    ensures
        mine_total(cells.update(i, mined(cells[i]))) == mine_total(cells) + 1,
    decreases cells.len(),
{
    let u = cells.update(i, mined(cells[i]));
    if i < cells.len() - 1 {
        assert(u.drop_last() =~= cells.drop_last().update(i, mined(cells[i])));
        lemma_mine_one(cells.drop_last(), i);
    } else {
        assert(u.drop_last() =~= cells.drop_last());
    }
}

/// Two boards with mines on the same squares hold as many mines.
proof fn lemma_same_mines(a: Seq<MineCell>, b: Seq<MineCell>)
    requires
        a.len() == b.len(),
        forall|j: int| 0 <= j < a.len() ==> (#[trigger] a[j]).has_mine == b[j].has_mine,
    ensures
        mine_total(a) == mine_total(b),
    decreases a.len(),
{
    if a.len() > 0 {
        lemma_same_mines(a.drop_last(), b.drop_last());
    }
}

/// A board without mines holds none.
proof fn lemma_no_mines(cells: Seq<MineCell>)
    requires
        forall|j: int| 0 <= j < cells.len() ==> !(#[trigger] cells[j]).has_mine,
    ensures
        mine_total(cells) == 0,
    decreases cells.len(),
{
    if cells.len() > 0 {
        lemma_no_mines(cells.drop_last());
    }
}

/// Each pseudo-random placement adds one mine and counts it, and the count
/// never passes the board's mine count.
proof fn lemma_place_random_count(
    m: MinesweeperModel,
    cells: Seq<MineCell>,
    safe_x: u16,
    safe_y: u16,
    placed: int,
    attempt: u64,
)
    requires
        mines_wf(m),
        cells.len() == m.cells.len(),
        0 <= placed <= m.mine_count,
        mine_total(cells) == placed,
    ensures
        ({
            let (c, p) = place_random(m, cells, safe_x, safe_y, placed, attempt);
            &&& c.len() == cells.len()
            &&& mine_total(c) == p
            &&& placed <= p <= m.mine_count
        }),
    decreases u64::MAX - attempt,
{
    if placed >= m.mine_count || attempt == u64::MAX {
    } else {
        let next = (attempt + 1) as u64;
        let (x, y) = mine_target(m, next);
        let i = y * m.board_width + x;
        lemma_square_index(m, x, y);
        if spec_is_safe_zone(safe_x, safe_y, x, y) || cells[i].has_mine {
            lemma_place_random_count(m, cells, safe_x, safe_y, placed, next);
        } else {
            lemma_mine_one(cells, i);
            lemma_place_random_count(m, cells.update(i, mined(cells[i])), safe_x, safe_y, placed + 1, next);
        }
    }
}

/// Whether square number `j` of the board lies in the 3x3 zone around the
/// safe square.
pub open spec fn in_safe_zone(m: MinesweeperModel, safe_x: u16, safe_y: u16, j: int) -> bool {
    spec_is_safe_zone(safe_x, safe_y, (j % m.board_width as int) as u16, (j / m.board_width as int) as u16)
}

/// How many of the squares numbered below `n` lie in the safe zone.
pub open spec fn zone_count(m: MinesweeperModel, safe_x: u16, safe_y: u16, n: int) -> nat
    decreases n,
{
    if n <= 0 {
        0
    } else {
        zone_count(m, safe_x, safe_y, n - 1) + if in_safe_zone(m, safe_x, safe_y, n - 1) { 1nat } else { 0nat }
    }
}

/// How many of the numbers below `n` (from 0) lie in `a..=a + 2`.
pub open spec fn window_count(a: int, n: int) -> nat
    decreases n,
{
    if n <= 0 {
        0
    } else {
        window_count(a, n - 1) + if a <= n - 1 <= a + 2 { 1nat } else { 0nat }
    }
}

/// A window of three numbers holds at most three of them.
proof fn lemma_window_count(a: int, n: int)
    ensures
        window_count(a, n) <= (if n <= a { 0 } else if n - a < 3 { n - a } else { 3 }),
    decreases n,
{
    if n > 0 {
        lemma_window_count(a, n - 1);
    }
}

/// The first square of the part of row `safe_y + dy` that the zone covers
/// (one column left of the safe square).
pub open spec fn zone_row_start(m: MinesweeperModel, safe_x: u16, safe_y: u16, dy: int) -> int {
    (safe_y + dy) * m.board_width + safe_x - 1
}

/// The squares of the safe zone lie in three windows of three squares, one
/// per row.
proof fn lemma_zone_count(m: MinesweeperModel, safe_x: u16, safe_y: u16, n: int)
    requires
        mines_wf(m),
        0 <= n <= m.cells.len(),
    ensures
        zone_count(m, safe_x, safe_y, n) <= window_count(zone_row_start(m, safe_x, safe_y, -1), n)
            + window_count(zone_row_start(m, safe_x, safe_y, 0), n) + window_count(
            zone_row_start(m, safe_x, safe_y, 1),
            n,
        ),
    decreases n,
{
    if n > 0 {
        lemma_zone_count(m, safe_x, safe_y, n - 1);
        let j = n - 1;
        if in_safe_zone(m, safe_x, safe_y, j) {
            let w = m.board_width as int;
            let x = j % w;
            let y = j / w;
            vstd::arithmetic::div_mod::lemma_fundamental_div_mod(j, w);
            assert(0 <= x < w);
            assert(0 <= y && y <= j) by (nonlinear_arith)
                requires
                    j >= 0,
                    w >= 1,
                    j == w * y + x,
                    0 <= x < w,
            ;
            assert(j == y * w + x) by (nonlinear_arith)
                requires
                    j == w * y + x,
            ;
            assert((x as u16) as int == x);
            assert((y as u16) as int == y);
            if y == safe_y - 1 {
                assert(zone_row_start(m, safe_x, safe_y, -1) <= j <= zone_row_start(m, safe_x, safe_y, -1) + 2);
            } else if y == safe_y {
                assert(zone_row_start(m, safe_x, safe_y, 0) <= j <= zone_row_start(m, safe_x, safe_y, 0) + 2);
            } else {
                assert(y == safe_y + 1);
                assert(zone_row_start(m, safe_x, safe_y, 1) <= j <= zone_row_start(m, safe_x, safe_y, 1) + 2);
            }
        }
    }
}

/// At most nine squares of the board lie in the safe zone.
proof fn lemma_zone_at_most_nine(m: MinesweeperModel, safe_x: u16, safe_y: u16, n: int)
    requires
        mines_wf(m),
        0 <= n <= m.cells.len(),
    ensures
        zone_count(m, safe_x, safe_y, n) <= 9,
{
    lemma_zone_count(m, safe_x, safe_y, n);
    lemma_window_count(zone_row_start(m, safe_x, safe_y, -1), n);
    lemma_window_count(zone_row_start(m, safe_x, safe_y, 0), n);
    lemma_window_count(zone_row_start(m, safe_x, safe_y, 1), n);
}

/// When every square outside the safe zone holds a mine, the mines and the
/// zone's squares together cover the board.
proof fn lemma_mines_cover(m: MinesweeperModel, safe_x: u16, safe_y: u16, cells: Seq<MineCell>)
    requires
        forall|j: int| 0 <= j < cells.len() && !in_safe_zone(m, safe_x, safe_y, j) ==> (#[trigger] cells[j]).has_mine,
    ensures
        mine_total(cells) + zone_count(m, safe_x, safe_y, cells.len() as int) >= cells.len(),
    decreases cells.len(),
{
    if cells.len() > 0 {
        let d = cells.drop_last();
        assert forall|j: int| 0 <= j < d.len() && !in_safe_zone(m, safe_x, safe_y, j) implies (#[trigger] d[j]).has_mine by {
            assert(d[j] == cells[j]);
        }
        lemma_mines_cover(m, safe_x, safe_y, d);
        if !in_safe_zone(m, safe_x, safe_y, cells.len() - 1) {
            assert(cells[cells.len() - 1].has_mine);
        }
    }
}

/// The placement in order, started with as many mines on the board as are
/// counted and every square before `i` outside the zone mined, reaches the
/// board's mine count: a board has room for the mines outside the zone.
proof fn lemma_place_in_order_exact(
    m: MinesweeperModel,
    cells: Seq<MineCell>,
    safe_x: u16,
    safe_y: u16,
    placed: int,
    i: int,
)
    requires
        mines_wf(m),
        cells.len() == m.cells.len(),
        0 <= i,
        0 <= placed <= m.mine_count,
        mine_total(cells) == placed,
        forall|j: int| 0 <= j < i && j < cells.len() && !in_safe_zone(m, safe_x, safe_y, j) ==> (#[trigger] cells[j]).has_mine,
    ensures
        place_in_order(m, cells, safe_x, safe_y, placed, i).len() == cells.len(),
        mine_total(place_in_order(m, cells, safe_x, safe_y, placed, i)) == m.mine_count,
    decreases cells.len() - i,
{
    if placed >= m.mine_count {
    } else if i >= cells.len() {
        lemma_mines_cover(m, safe_x, safe_y, cells);
        lemma_zone_at_most_nine(m, safe_x, safe_y, cells.len() as int);
        assert(false);
    } else {
        let x = (i % m.board_width as int) as u16;
        let y = (i / m.board_width as int) as u16;
        if spec_is_safe_zone(safe_x, safe_y, x, y) || cells[i].has_mine {
            lemma_place_in_order_exact(m, cells, safe_x, safe_y, placed, i + 1);
        } else {
            let c2 = cells.update(i, mined(cells[i]));
            lemma_mine_one(cells, i);
            assert forall|j: int| 0 <= j < i + 1 && j < c2.len() && !in_safe_zone(m, safe_x, safe_y, j) implies (#[trigger] c2[j]).has_mine by {
                if j < i {
                    assert(c2[j] == cells[j]);
                }
            }
            lemma_place_in_order_exact(m, c2, safe_x, safe_y, placed + 1, i + 1);
        }
    }
}

/// Generating a board without mines places exactly the board's mine count
/// (10, 40 or 99 for the three difficulties): the draws place some, the
/// placement in order the rest, and the counts keep every mine.
pub proof fn lemma_generation_places_mine_count(m: MinesweeperModel, safe_x: u16, safe_y: u16)
    requires
        mines_wf(m),
        forall|j: int| 0 <= j < m.cells.len() ==> !(#[trigger] m.cells[j]).has_mine,
    ensures
        mine_total(generate_model(m, safe_x, safe_y).cells) == m.mine_count,
{
    lemma_no_mines(m.cells);
    lemma_place_random_count(m, m.cells, safe_x, safe_y, 0, 0);
    let (c1, p1) = place_random(m, m.cells, safe_x, safe_y, 0, 0);
    lemma_place_in_order_exact(m, c1, safe_x, safe_y, p1, 0);
    let placed = placed_mines(m, safe_x, safe_y);
    lemma_same_mines(with_adjacency(placed, m.board_width, m.board_height), placed);
}

/// The counts are right: every square without a mine records how many mines
/// are around it.
pub open spec fn counts_right(m: MinesweeperModel) -> bool {
    forall|j: int|
        0 <= j < m.cells.len() && !(#[trigger] m.cells[j]).has_mine ==> m.cells[j].adjacent as int
            == adjacent_mines(
            m.cells,
            m.board_width,
            m.board_height,
            (j % m.board_width as int) as u16,
            (j / m.board_width as int) as u16,
        )
}

/// Every square in a queue is on the board and holds no mine.
pub open spec fn queue_safe(m: MinesweeperModel, queue: Seq<(u16, u16)>) -> bool {
    forall|k: int|
        0 <= k < queue.len() ==> (#[trigger] queue[k]).0 < m.board_width && queue[k].1 < m.board_height
            && !m.cells[queue[k].1 * m.board_width + queue[k].0].has_mine
}

/// Every neighbour of a square is on the board.
proof fn lemma_neighbor_on_board(w: u16, h: u16, x: u16, y: u16, k: int)
    requires
        0 <= k < neighbor_list(w, h, x, y).len(),
    ensures
        neighbor_list(w, h, x, y)[k].0 < w,
        neighbor_list(w, h, x, y)[k].1 < h,
{
    let grid = neighbor_grid(x, y);
    let keep = neighbor_keep(w, h, x, y);
    grid.lemma_filter_pred(keep, k);
    assert(neighbor_list(w, h, x, y)[k] == as_square(grid.filter(keep)[k]));
}

/// The flood reveal never reveals a mine when the counts are right and it
/// starts from squares without mines: a square with no mine around it only
/// passes on neighbours without mines.
pub proof fn lemma_flood_reveals_no_mine(m: MinesweeperModel, queue: Seq<(u16, u16)>)
    requires
        mines_wf(m),
        counts_right(m),
        queue_safe(m, queue),
    ensures
        forall|j: int|
            0 <= j < m.cells.len() && !m.cells[j].is_revealed && (#[trigger] flood(m, queue).cells[j]).is_revealed
                ==> !m.cells[j].has_mine,
    decreases hidden_count(m.cells), queue.len(),
{
    if queue.len() > 0 {
        let (cx, cy) = queue[0];
        let rest = queue.drop_first();
        let w = m.board_width;
        let i = cy * w + cx;
        assert(queue_safe(m, rest)) by {
            assert forall|k: int| 0 <= k < rest.len() implies (#[trigger] rest[k]).0 < m.board_width
                && rest[k].1 < m.board_height && !m.cells[rest[k].1 * m.board_width + rest[k].0].has_mine by {
                assert(rest[k] == queue[k + 1]);
            }
        }
        if !(0 <= i < m.cells.len()) || m.cells[i].is_revealed || m.cells[i].is_flagged {
            lemma_flood_reveals_no_mine(m, rest);
        } else {
            let m1 = MinesweeperModel {
                cells: m.cells.update(i, revealed(m.cells[i])),
                score: Score(m.score.0.saturating_add(1)),
                ..m
            };
            lemma_reveal_one(m.cells, i);
            assert(counts_right(m1)) by {
                assert forall|q: int| 0 <= q < m1.cells.len() && !(#[trigger] m1.cells[q]).has_mine implies m1.cells[q].adjacent as int
                    == adjacent_mines(
                    m1.cells,
                    m1.board_width,
                    m1.board_height,
                    (q % m1.board_width as int) as u16,
                    (q / m1.board_width as int) as u16,
                ) by {
                    lemma_adjacent_mines_depend_on_mines(
                        m.cells,
                        m1.cells,
                        m.board_width,
                        m.board_height,
                        (q % m1.board_width as int) as u16,
                        (q / m1.board_width as int) as u16,
                    );
                    assert(m.cells[q].has_mine == m1.cells[q].has_mine);
                }
            }
            assert(queue_safe(m1, rest)) by {
                assert forall|k: int| 0 <= k < rest.len() implies (#[trigger] rest[k]).0 < m1.board_width
                    && rest[k].1 < m1.board_height && !m1.cells[rest[k].1 * m1.board_width + rest[k].0].has_mine by {
                    assert(rest[k] == queue[k + 1]);
                    lemma_square_index(m, rest[k].0, rest[k].1);
                }
            }
            if m1.cells[i].adjacent != 0 {
                lemma_flood_reveals_no_mine(m1, rest);
            } else {
                let nb = neighbor_list(w, m.board_height, cx, cy);
                let f = |p: (u16, u16)| !m1.cells[p.1 * w + p.0].is_revealed;
                let nbf = nb.filter(f);
                let mine = |p: (u16, u16)| mine_at(m.cells, w, p);
                vstd::arithmetic::div_mod::lemma_fundamental_div_mod_converse(i, w as int, cy as int, cx as int);
                assert(nb.filter(mine).len() == 0);
                let q2 = rest + nbf;
                assert(queue_safe(m1, q2)) by {
                    assert forall|k: int| 0 <= k < q2.len() implies (#[trigger] q2[k]).0 < m1.board_width
                        && q2[k].1 < m1.board_height && !m1.cells[q2[k].1 * m1.board_width + q2[k].0].has_mine by {
                        if k < rest.len() {
                            assert(q2[k] == rest[k]);
                        } else {
                            let e = nbf[k - rest.len()];
                            assert(q2[k] == e);
                            assert(nbf.contains(e));
                            nb.lemma_filter_contains_rev(f, e);
                            let t = choose|t: int| 0 <= t < nb.len() && nb[t] == e;
                            lemma_neighbor_on_board(w, m.board_height, cx, cy, t);
                            if mine(e) {
                                nb.lemma_filter_contains(mine, t);
                                assert(nb.filter(mine).contains(e));
                            }
                            lemma_square_index(m, e.0, e.1);
                        }
                    }
                }
                lemma_flood_reveals_no_mine(m1, q2);
            }
        }
    }
}

/// `v` clamped to the `u32` range.
pub open spec fn clamp_u32(v: int) -> int {
    if v > u32::MAX { u32::MAX as int } else { v }
}

/// The flood reveal scores one point per square it reveals (up to the
/// score's limit) and never hides a square.
pub proof fn lemma_flood_scores_revealed(m: MinesweeperModel, queue: Seq<(u16, u16)>)
    ensures
        hidden_count(flood(m, queue).cells) <= hidden_count(m.cells),
        flood(m, queue).score.0 == clamp_u32(m.score.0 + hidden_count(m.cells) - hidden_count(flood(m, queue).cells)),
    decreases hidden_count(m.cells), queue.len(),
{
    if queue.len() > 0 {
        let (cx, cy) = queue[0];
        let rest = queue.drop_first();
        let i = cy * m.board_width + cx;
        if !(0 <= i < m.cells.len()) || m.cells[i].is_revealed || m.cells[i].is_flagged {
            lemma_flood_scores_revealed(m, rest);
        } else {
            let m1 = MinesweeperModel {
                cells: m.cells.update(i, revealed(m.cells[i])),
                score: Score(m.score.0.saturating_add(1)),
                ..m
            };
            lemma_reveal_one(m.cells, i);
            if m1.cells[i].adjacent != 0 {
                lemma_flood_scores_revealed(m1, rest);
            } else {
                lemma_flood_scores_revealed(
                    m1,
                    rest + neighbor_list(m.board_width, m.board_height, cx, cy).filter(
                        |p: (u16, u16)| !m1.cells[p.1 * m.board_width + p.0].is_revealed,
                    ),
                );
            }
        }
    }
}

/// A generated board has its counts right.
pub proof fn lemma_generated_counts_right(m: MinesweeperModel, safe_x: u16, safe_y: u16)
    requires
        mines_wf(m),
        forall|j: int| 0 <= j < m.cells.len() ==> !(#[trigger] m.cells[j]).has_mine,
    ensures
        counts_right(generate_model(m, safe_x, safe_y)),
{
    lemma_no_mines(m.cells);
    lemma_place_random_count(m, m.cells, safe_x, safe_y, 0, 0);
    let (c1, p1) = place_random(m, m.cells, safe_x, safe_y, 0, 0);
    lemma_place_in_order_exact(m, c1, safe_x, safe_y, p1, 0);
    let placed = placed_mines(m, safe_x, safe_y);
    let w = m.board_width;
    let h = m.board_height;
    let g = generate_model(m, safe_x, safe_y);
    assert forall|q: int| 0 <= q < g.cells.len() && !(#[trigger] g.cells[q]).has_mine implies g.cells[q].adjacent as int
        == adjacent_mines(g.cells, w, h, (q % w as int) as u16, (q / w as int) as u16) by {
        let x = (q % w as int) as u16;
        let y = (q / w as int) as u16;
        lemma_adjacent_mines_depend_on_mines(g.cells, placed, w, h, x, y);
        let grid = neighbor_grid(x, y);
        let keep = neighbor_keep(w, h, x, y);
        grid.lemma_filter_len(keep);
        let nb = neighbor_list(w, h, x, y);
        nb.lemma_filter_len(|p: (u16, u16)| mine_at(placed, w, p));
        assert(adjacent_mines(placed, w, h, x, y) <= 9);
    }
}

/// After the first reveal of a fresh board no revealed square holds a mine,
/// and the board holds exactly its mine count of mines.
pub proof fn lemma_first_reveal_shows_no_mine(m: MinesweeperModel)
    requires
        mines_wf(m),
        !m.is_generated,
        !m.is_game_over,
        !m.is_complete,
        forall|j: int| 0 <= j < m.cells.len() ==> #[trigger] m.cells[j] == crate::games::minesweeper::state::blank_cell(),
    ensures
        ({
            let r = after_input(m, Key::Action);
            &&& forall|j: int| 0 <= j < r.cells.len() && (#[trigger] r.cells[j]).is_revealed ==> !r.cells[j].has_mine
            &&& mine_total(r.cells) == m.mine_count
        }),
{
    let i = cursor_index(m);
    let cx = m.cursor_x;
    let cy = m.cursor_y;
    lemma_square_index(m, cx, cy);
    let (c1, p1) = place_random(m, m.cells, cx, cy, 0, 0);
    lemma_place_random_spares(m, m.cells, cx, cy, cx, cy, 0, 0);
    lemma_place_in_order_spares(m, c1, cx, cy, cx, cy, p1, 0);
    let m1 = generate_model(m, cx, cy);
    assert forall|j: int| 0 <= j < m1.cells.len() implies !(#[trigger] m1.cells[j]).is_revealed by {
        assert(!m.cells[j].is_revealed);
    }
    assert(!m1.cells[i].has_mine && !m1.cells[i].is_flagged);
    lemma_generated_counts_right(m, cx, cy);
    lemma_generation_places_mine_count(m, cx, cy);
    assert(mines_wf(m1));
    let q = seq![(cx, cy)];
    assert(queue_safe(m1, q));
    lemma_flood_reveals_no_mine(m1, q);
    lemma_flood_only_reveals(m1, q);
    let f = flood(m1, q);
    assert(reveal_model(m) == complete_model(f));
    let r = after_input(m, Key::Action);
    assert(r.cells == f.cells);
    assert forall|j: int| 0 <= j < r.cells.len() && (#[trigger] r.cells[j]).is_revealed implies !r.cells[j].has_mine by {
        assert(!m1.cells[j].is_revealed);
    }
    lemma_same_mines(f.cells, m1.cells);
}

/// A board is complete exactly when every square without a mine is
/// revealed, whatever is flagged: completing it adds 5 points per mine (up to
/// the score's limit); while a square without a mine is hidden, flagged or
/// not, the check changes nothing.
pub proof fn lemma_complete_only_when_all_safe_revealed(m: MinesweeperModel)
    ensures
        (forall|j: int| 0 <= j < m.cells.len() ==> (#[trigger] m.cells[j]).has_mine || m.cells[j].is_revealed)
            ==> complete_model(m).is_complete && complete_model(m).score.0 == (if m.score.0 + 5 * m.mine_count
            <= u32::MAX { m.score.0 + 5 * m.mine_count } else { u32::MAX as int }),
        (exists|j: int| 0 <= j < m.cells.len() && !(#[trigger] m.cells[j]).has_mine && !m.cells[j].is_revealed)
            ==> complete_model(m) == m,
        complete_model(m).is_complete && !m.is_complete ==> forall|j: int|
            0 <= j < m.cells.len() ==> (#[trigger] m.cells[j]).has_mine || m.cells[j].is_revealed,
        complete_model(m).cells == m.cells,
{
    if forall|j: int| 0 <= j < m.cells.len() ==> (#[trigger] m.cells[j]).has_mine || m.cells[j].is_revealed {
        assert(!safe_square_hidden(m.cells));
        assert((m.mine_count * POINTS_PER_MINE) as u32 == 5 * m.mine_count) by (nonlinear_arith)
            requires
                m.mine_count <= u16::MAX,
                POINTS_PER_MINE == 5,
        ;
    }
}

} // verus!
