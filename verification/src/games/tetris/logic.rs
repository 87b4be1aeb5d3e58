use vstd::prelude::*;

use crate::engine::input::Key;
use crate::games::rand::{fast_rand, splitmix64};
use crate::games::tetris::state::{
    spec_color_index, empty_row, ActivePiece, BoardModel, TetrisModel, TetrisState, Tetromino,
};
use crate::types::geometry::{Direction, Level, Score};

verus! {

/// Milliseconds of play time that one frame of the game loop adds.
pub const FRAME_MS: u64 = 33;

/// The four cells of a shape in its unrotated 4x4 box, as (column, row).
pub open spec fn spec_base_cells(kind: Tetromino) -> Seq<(i32, i32)> {
    match kind {
        Tetromino::I => seq![(0i32, 1i32), (1, 1), (2, 1), (3, 1)],
        Tetromino::O => seq![(1i32, 0i32), (2, 0), (1, 1), (2, 1)],
        Tetromino::T => seq![(1i32, 0i32), (0, 1), (1, 1), (2, 1)],
        Tetromino::S => seq![(1i32, 0i32), (2, 0), (0, 1), (1, 1)],
        Tetromino::Z => seq![(0i32, 0i32), (1, 0), (1, 1), (2, 1)],
        Tetromino::J => seq![(0i32, 0i32), (0, 1), (1, 1), (2, 1)],
        Tetromino::L => seq![(2i32, 0i32), (0, 1), (1, 1), (2, 1)],
    }
}

/// A cell of the 4x4 box turned clockwise `rotation` quarter turns.
pub open spec fn spec_rotate_cell(x: i32, y: i32, rotation: u8) -> (i32, i32) {
    if rotation % 4 == 0 {
        (x, y)
    } else if rotation % 4 == 1 {
        ((3 - y) as i32, x)
    } else if rotation % 4 == 2 {
        ((3 - x) as i32, (3 - y) as i32)
    } else {
        (y, (3 - x) as i32)
    }
}

/// The board cells covered by a piece: its shape's cells, rotated, moved to
/// the piece's position.
pub open spec fn cells_of(p: ActivePiece) -> Seq<(i32, i32)> {
    spec_base_cells(p.kind).map_values(
        |c: (i32, i32)|
            {
                let r = spec_rotate_cell(c.0, c.1, p.rotation);
                ((r.0 + p.x) as i32, (r.1 + p.y) as i32)
            },
    )
}

/// A piece whose cells can be computed without leaving `i32`.
pub open spec fn piece_computable(p: ActivePiece) -> bool {
    p.x <= i32::MAX - 3 && p.y <= i32::MAX - 3
}

/// A cell that a piece may occupy: inside the well's columns, above its floor,
/// and either above the top or on an empty square.
pub open spec fn cell_free(board: BoardModel, c: (i32, i32)) -> bool {
    &&& 0 <= c.0 < 10
    &&& c.1 < 20
    &&& (c.1 < 0 || board[c.1 as int][c.0 as int] is None)
}

/// A piece that lies entirely on free cells.
pub open spec fn fits(board: BoardModel, p: ActivePiece) -> bool {
    forall|i: int| 0 <= i < 4 ==> cell_free(board, #[trigger] cells_of(p)[i])
}

/// The piece moved to (x, y).
pub open spec fn moved(p: ActivePiece, x: int, y: int) -> ActivePiece {
    ActivePiece { x: x as i32, y: y as i32, ..p }
}

/// The session keeps its piece where moves and drops can be computed: columns
/// -3 to 9, at most row 19, fewer than four quarter turns; and its well has 20
/// rows of 10 cells.
pub open spec fn tetris_wf(m: TetrisModel) -> bool {
    &&& -3 <= m.current.x <= 9
    &&& m.current.y <= 19
    &&& m.current.rotation < 4
    &&& m.board.len() == 20
    &&& forall|y: int| 0 <= y < 20 ==> #[trigger] m.board[y].len() == 10
}

/// Rotated cells of a shape stay within its 4x4 box.
pub proof fn lemma_cells_in_box(p: ActivePiece, i: int)
    requires
        0 <= i < 4,
        piece_computable(p),
    ensures
        p.x <= cells_of(p)[i].0 <= p.x + 3,
        p.y <= cells_of(p)[i].1 <= p.y + 3,
{
}

/// A piece that fits lies in columns -3 to 9 and at most at row 19.
pub proof fn lemma_fit_bounds(board: BoardModel, p: ActivePiece)
    requires
        piece_computable(p),
        fits(board, p),
    ensures
        -3 <= p.x <= 9,
        p.y <= 19,
{
    lemma_cells_in_box(p, 0);
    assert(cell_free(board, cells_of(p)[0]));
}

/// The cells of a shape in its unrotated box.
pub fn base_cells(kind: Tetromino) -> (r: [(i32, i32); 4])
    ensures
        r@ == spec_base_cells(kind),
{
    let r = match kind {
        Tetromino::I => [(0, 1), (1, 1), (2, 1), (3, 1)],
        Tetromino::O => [(1, 0), (2, 0), (1, 1), (2, 1)],
        Tetromino::T => [(1, 0), (0, 1), (1, 1), (2, 1)],
        Tetromino::S => [(1, 0), (2, 0), (0, 1), (1, 1)],
        Tetromino::Z => [(0, 0), (1, 0), (1, 1), (2, 1)],
        Tetromino::J => [(0, 0), (0, 1), (1, 1), (2, 1)],
        Tetromino::L => [(2, 0), (0, 1), (1, 1), (2, 1)],
    };
    assert(r@ =~= spec_base_cells(kind));
    r
}

/// Turns a cell of the 4x4 box clockwise by `rotation` quarter turns.
pub fn rotate_cell(x: i32, y: i32, rotation: u8) -> (r: (i32, i32))
    requires
        0 <= x <= 3,
        0 <= y <= 3,
    ensures
        r == spec_rotate_cell(x, y, rotation),
{
    if rotation % 4 == 0 {
        (x, y)
    } else if rotation % 4 == 1 {
        (3 - y, x)
    } else if rotation % 4 == 2 {
        (3 - x, 3 - y)
    } else {
        (y, 3 - x)
    }
}

/// The board cells covered by a piece.
pub fn piece_cells(piece: ActivePiece) -> (r: [(i32, i32); 4])
    requires
        piece_computable(piece),
    ensures
        r@ == cells_of(piece),
{
    let raw = base_cells(piece.kind);
    let mut out: [(i32, i32); 4] = [(0, 0); 4];
    let mut i: usize = 0;
    while i < 4
        invariant
            i <= 4,
            raw@ == spec_base_cells(piece.kind),
            piece_computable(piece),
            forall|j: int| 0 <= j < i ==> out@[j] == #[trigger] cells_of(piece)[j],
        decreases 4 - i,
    {
        let (bx, by) = raw[i];
        let (rx, ry) = rotate_cell(bx, by, piece.rotation);
        out[i] = (rx + piece.x, ry + piece.y);
        i = i + 1;
    }
    assert(out@ =~= cells_of(piece));
    out
}

/// Whether the piece of shape `kind` turned `rotation` times fits at (x, y).
pub fn is_valid(state: &TetrisState, x: i32, y: i32, rotation: u8, kind: Tetromino) -> (r: bool)
    requires
        x <= i32::MAX - 3,
        y <= i32::MAX - 3,
    ensures
        r == fits(state@.board, ActivePiece { kind, rotation, x, y }),
{
    let piece = ActivePiece { kind, rotation, x, y };
    let cells = piece_cells(piece);
    let mut i: usize = 0;
    while i < 4
        invariant
            i <= 4,
            cells@ == cells_of(piece),
            piece == (ActivePiece { kind, rotation, x, y }),
            forall|j: int| 0 <= j < i ==> cell_free(state@.board, #[trigger] cells_of(piece)[j]),
        decreases 4 - i,
    {
        let (cell_x, cell_y) = cells[i];
        assert((cell_x, cell_y) == cells_of(piece)[i as int]);
        if cell_x < 0 || cell_x >= 10 || cell_y >= 20 {
            assert(!cell_free(state@.board, cells_of(piece)[i as int]));
            return false;
        }
        if cell_y >= 0 && state.board[cell_y as usize][cell_x as usize].is_some() {
            assert(state@.board[cell_y as int][cell_x as int]
                == state.board@[cell_y as int]@[cell_x as int]);
            assert(!cell_free(state@.board, cells_of(piece)[i as int]));
            return false;
        }
        proof {
            if cell_y >= 0 {
                assert(state@.board[cell_y as int][cell_x as int]
                    == state.board@[cell_y as int]@[cell_x as int]);
            }
        }
        i = i + 1;
    }
    true
}

/// Whether the current piece fits where it is.
pub fn is_valid_current(state: &TetrisState) -> (r: bool)
    requires
        piece_computable(state.current),
    ensures
        r == fits(state@.board, state.current),
{
    is_valid(state, state.current.x, state.current.y, state.current.rotation, state.current.kind)
}

/// The lowest row that a piece reaches by falling straight down from `p`.
pub open spec fn drop_row(board: BoardModel, p: ActivePiece) -> i32
    decreases 19 - p.y,
{
    if p.y < 19 && fits(board, moved(p, p.x as int, p.y + 1)) {
        drop_row(board, moved(p, p.x as int, p.y + 1))
    } else {
        p.y
    }
}

/// The row where the current piece would land (shown as its ghost).
pub fn ghost_y(state: &TetrisState) -> (r: i32)
    requires
        tetris_wf(state@),
    ensures
        r == drop_row(state@.board, state.current),
{
    let mut piece = state.current;
    while is_valid(state, piece.x, piece.y + 1, piece.rotation, piece.kind)
        invariant
            -3 <= piece.x <= 9,
            piece.y <= 19,
            piece.kind == state.current.kind,
            piece.rotation == state.current.rotation,
            drop_row(state@.board, piece) == drop_row(state@.board, state.current),
        decreases 19 - piece.y,
    {
        proof {
            lemma_fit_bounds(state@.board, moved(piece, piece.x as int, piece.y + 1));
        }
        piece.y = piece.y + 1;
    }
    piece.y
}


/// The piece of a shape that enters the well: unturned, box at column 3,
/// one row above the top.
pub open spec fn spec_spawn_piece(kind: Tetromino) -> ActivePiece {
    ActivePiece { kind, rotation: 0, x: 3, y: -1i32 }
}

/// The shape chosen by a seed: its remainder modulo 7, in the order I O T S Z J L.
pub open spec fn spec_random_piece(seed: u64) -> Tetromino {
    if seed % 7 == 0 {
        Tetromino::I
    } else if seed % 7 == 1 {
        Tetromino::O
    } else if seed % 7 == 2 {
        Tetromino::T
    } else if seed % 7 == 3 {
        Tetromino::S
    } else if seed % 7 == 4 {
        Tetromino::Z
    } else if seed % 7 == 5 {
        Tetromino::J
    } else {
        Tetromino::L
    }
}

/// The piece moves by (dx, dy) when it fits there, and stays otherwise.
pub open spec fn try_move_model(m: TetrisModel, dx: int, dy: int) -> TetrisModel {
    let p = moved(m.current, m.current.x + dx, m.current.y + dy);
    if fits(m.board, p) {
        TetrisModel { current: p, ..m }
    } else {
        m
    }
}

/// The horizontal shifts tried, in order, when turning a piece.
pub open spec fn wall_kicks() -> Seq<i32> {
    seq![0i32, -1i32, 1i32, -2i32, 2i32]
}

/// Turning with the kicks from the `i`-th on: the first shifted, turned piece
/// that fits replaces the current one; if none fits the piece stays.
pub open spec fn rotate_from(m: TetrisModel, rotation: u8, i: int) -> TetrisModel
    decreases 5 - i,
{
    if i >= 5 {
        m
    } else {
        let p = ActivePiece { x: (m.current.x + wall_kicks()[i]) as i32, rotation, ..m.current };
        if fits(m.board, p) {
            TetrisModel { current: p, ..m }
        } else {
            rotate_from(m, rotation, i + 1)
        }
    }
}

/// A quarter turn clockwise with wall kicks; the O piece does not turn.
pub open spec fn rotate_model(m: TetrisModel) -> TetrisModel {
    if m.current.kind == Tetromino::O {
        m
    } else {
        rotate_from(m, ((m.current.rotation + 1) % 4) as u8, 0)
    }
}

/// A row whose ten cells all hold blocks.
pub open spec fn row_full(row: Seq<Option<u8>>) -> bool {
    forall|x: int| 0 <= x < row.len() ==> #[trigger] row[x] is Some
}

/// The rows of a board that are not full, top to bottom.
pub open spec fn kept_rows(board: BoardModel) -> BoardModel {
    board.filter(|row: Seq<Option<u8>>| !row_full(row))
}

/// How many rows of a board are full.
pub open spec fn full_row_count(board: BoardModel) -> int {
    board.len() - kept_rows(board).len()
}

/// The board after removing its full rows: the remaining rows drop to the
/// bottom in their order and empty rows fill the top (so a board without a
/// full row stays as it is).
pub open spec fn board_after_clear(board: BoardModel) -> BoardModel {
    let kept = kept_rows(board);
    Seq::new((board.len() - kept.len()) as nat, |i: int| empty_row()) + kept
}

/// The drop interval at a level: 700 ms at level 1 and 45 ms shorter for
/// each level above it.
pub open spec fn drop_interval(level: u8) -> u64 {
    (700 - 45 * (level - 1)) as u64
}

/// The level for a number of cleared lines: one more per ten lines, at most 10.
pub open spec fn level_for_lines(lines: u16) -> u8 {
    if lines / 10 + 1 < 10 {
        (lines / 10 + 1) as u8
    } else {
        10
    }
}

/// Removing full rows: the lines count grows by their number, the level
/// follows the lines count and the drop interval follows the level.
pub open spec fn clear_model(m: TetrisModel) -> TetrisModel {
    let lines = m.lines_cleared.saturating_add(full_row_count(m.board) as u16);
    let level = level_for_lines(lines);
    TetrisModel {
        board: board_after_clear(m.board),
        lines_cleared: lines,
        level: Level(level),
        tick_rate: drop_interval(level),
        ..m
    }
}

/// Points for clearing `cleared` rows at once, before the level multiplier.
pub open spec fn line_points(cleared: int) -> u32 {
    if cleared == 1 {
        100
    } else if cleared == 2 {
        300
    } else if cleared == 3 {
        500
    } else if cleared == 4 {
        800
    } else {
        0
    }
}

/// The score after clearing `cleared` rows: the line points times the level.
pub open spec fn award_model(m: TetrisModel, cleared: int) -> TetrisModel {
    TetrisModel { score: Score(m.score.0.saturating_add((line_points(cleared) * m.level.0) as u32)), ..m }
}

/// The next piece enters, a new next piece is drawn from the advanced seed,
/// holding is allowed again; the game is over if the entering piece does not fit.
pub open spec fn spawn_next_model(m: TetrisModel) -> TetrisModel {
    let seed = splitmix64(m.seed ^ m.tick);
    let current = spec_spawn_piece(m.next);
    TetrisModel {
        current,
        seed,
        next: spec_random_piece(seed),
        can_hold: true,
        is_game_over: if fits(m.board, current) { m.is_game_over } else { true },
        ..m
    }
}

/// The index of the first cell above the top of the well, or 4 if none is.
pub open spec fn first_above_top(cells: Seq<(i32, i32)>, k: int) -> int
    decreases 4 - k,
{
    if k >= 4 {
        4
    } else if cells[k].1 < 0 {
        k
    } else {
        first_above_top(cells, k + 1)
    }
}

/// The board with the given cells filled with a block of `color`.
pub open spec fn paint(board: BoardModel, cells: Seq<(i32, i32)>, color: u8) -> BoardModel {
    Seq::new(
        board.len(),
        |y: int|
            Seq::new(
                board[y].len(),
                |x: int|
                    if cells.contains((x as i32, y as i32)) {
                        Some(color)
                    } else {
                        board[y][x]
                    },
            ),
    )
}

/// Locking the current piece: its cells become blocks in order; a cell above
/// the top ends the game at once (the cells before it stay painted).
/// Otherwise full rows are cleared and scored and the next piece enters.
pub open spec fn lock_model(m: TetrisModel) -> TetrisModel {
    let cells = cells_of(m.current);
    let color = spec_color_index(m.current.kind);
    let k = first_above_top(cells, 0);
    if k < 4 {
        TetrisModel { board: paint(m.board, cells.take(k), color), is_game_over: true, ..m }
    } else {
        let painted = TetrisModel { board: paint(m.board, cells, color), ..m };
        spawn_next_model(award_model(clear_model(painted), full_row_count(painted.board)))
    }
}

/// One row down if the piece fits there; otherwise it locks.
pub open spec fn soft_drop_model(m: TetrisModel) -> TetrisModel {
    let p = moved(m.current, m.current.x as int, m.current.y + 1);
    if fits(m.board, p) {
        TetrisModel { current: p, ..m }
    } else {
        lock_model(m)
    }
}

/// Holding: once per piece, the current shape goes to the hold slot and the
/// held shape (or else the next piece) enters the well.
pub open spec fn hold_model(m: TetrisModel) -> TetrisModel {
    if !m.can_hold {
        m
    } else {
        let m1 = TetrisModel { can_hold: false, hold: Some(m.current.kind), ..m };
        match m.hold {
            Some(kind) => {
                let current = spec_spawn_piece(kind);
                TetrisModel {
                    current,
                    is_game_over: if fits(m1.board, current) { m1.is_game_over } else { true },
                    ..m1
                }
            },
            None => spawn_next_model(m1),
        }
    }
}

/// One frame: the frame counter advances and 33 ms are gathered; once the drop
/// interval is reached it is taken off and the piece drops one row. A finished
/// game does not change.
pub open spec fn tetris_tick(m: TetrisModel) -> TetrisModel {
    if m.is_game_over || m.is_complete {
        m
    } else {
        let t = vstd::wrapping::u64_specs::wrapping_add(m.tick, 1);
        let acc = (m.tick_accumulator + FRAME_MS) as u64;
        if acc < m.tick_rate {
            TetrisModel { tick: t, tick_accumulator: acc, ..m }
        } else {
            soft_drop_model(TetrisModel { tick: t, tick_accumulator: (acc - m.tick_rate) as u64, ..m })
        }
    }
}

/// A key press: Left/Right shift, Down drops one row, Up/Action turn, Hold
/// holds; nothing happens after the end.
pub open spec fn after_input(m: TetrisModel, key: Key) -> TetrisModel {
    if m.is_game_over || m.is_complete {
        m
    } else {
        match key {
            Key::Dir(Direction::Left) => try_move_model(m, -1, 0),
            Key::Dir(Direction::Right) => try_move_model(m, 1, 0),
            Key::Dir(Direction::Down) => soft_drop_model(m),
            Key::Dir(Direction::Up) | Key::Action => rotate_model(m),
            Key::Hold => hold_model(m),
            _ => m,
        }
    }
}

/// A filter that keeps every element leaves the sequence unchanged.
pub proof fn lemma_filter_keeps_all<A>(s: Seq<A>, p: spec_fn(A) -> bool)
    requires
        s.filter(p).len() == s.len(),
    ensures
        s.filter(p) == s,
    decreases s.len(),
{
    reveal_with_fuel(Seq::<_>::filter, 1);
    if s.len() > 0 {
        s.drop_last().lemma_filter_len(p);
        if !p(s.last()) {
            assert(false);
        }
        lemma_filter_keeps_all(s.drop_last(), p);
        assert(s.drop_last().push(s.last()) =~= s);
    }
}

/// Advances the session by one frame (a finished game does not change).
pub fn tick(state: &mut TetrisState)
    requires
        tetris_wf(old(state)@),
        !old(state).is_game_over && !old(state).is_complete ==> old(state).tick_accumulator + FRAME_MS
            <= u64::MAX,
    ensures
        final(state)@ == tetris_tick(old(state)@),
        tetris_wf(final(state)@),
{
    if state.is_game_over || state.is_complete {
        return;
    }
    state.tick = state.tick.wrapping_add(1);
    state.tick_accumulator = state.tick_accumulator + FRAME_MS;
    if state.tick_accumulator < state.tick_rate {
        return;
    }
    state.tick_accumulator = state.tick_accumulator - state.tick_rate;
    soft_drop(state);
}

/// Applies one key press.
pub fn handle_input(state: &mut TetrisState, key: Key)
    requires
        tetris_wf(old(state)@),
    ensures
        final(state)@ == after_input(old(state)@, key),
        tetris_wf(final(state)@),
{
    if state.is_game_over || state.is_complete {
        return;
    }
    match key {
        Key::Dir(Direction::Left) => try_move(state, -1, 0),
        Key::Dir(Direction::Right) => try_move(state, 1, 0),
        Key::Dir(Direction::Down) => soft_drop(state),
        Key::Dir(Direction::Up) | Key::Action => rotate(state),
        Key::Hold => hold_piece(state),
        _ => {},
    }
}

/// Moves the piece by (dx, dy) if it fits there.
pub fn try_move(state: &mut TetrisState, dx: i32, dy: i32)
    requires
        tetris_wf(old(state)@),
        -1 <= dx <= 1,
        0 <= dy <= 1,
    ensures
        final(state)@ == try_move_model(old(state)@, dx as int, dy as int),
        tetris_wf(final(state)@),
{
    let piece = state.current;
    if is_valid(state, piece.x + dx, piece.y + dy, piece.rotation, piece.kind) {
        proof {
            lemma_fit_bounds(state@.board, moved(piece, piece.x + dx, piece.y + dy));
        }
        state.current.x = state.current.x + dx;
        state.current.y = state.current.y + dy;
    }
}

/// Drops the piece one row, or locks it when it cannot fall.
pub fn soft_drop(state: &mut TetrisState)
    requires
        tetris_wf(old(state)@),
    ensures
        final(state)@ == soft_drop_model(old(state)@),
        tetris_wf(final(state)@),
{
    let piece = state.current;
    if is_valid(state, piece.x, piece.y + 1, piece.rotation, piece.kind) {
        proof {
            lemma_fit_bounds(state@.board, moved(piece, piece.x as int, piece.y + 1));
        }
        state.current.y = state.current.y + 1;
    } else {
        lock_piece(state);
    }
}

/// Turns the piece a quarter turn clockwise, shifting it sideways by up to two
/// columns if needed.
pub fn rotate(state: &mut TetrisState)
    requires
        tetris_wf(old(state)@),
    ensures
        final(state)@ == rotate_model(old(state)@),
        tetris_wf(final(state)@),
{
    if state.current.kind == Tetromino::O {
        return;
    }
    let next_rotation = (state.current.rotation + 1) % 4;
    let kicks: [i32; 5] = [0, -1, 1, -2, 2];
    assert(kicks@ =~= wall_kicks());
    let mut i: usize = 0;
    while i < 5
        invariant
            i <= 5,
            state@ == old(state)@,
            tetris_wf(state@),
            kicks@ == wall_kicks(),
            next_rotation == (old(state).current.rotation + 1) % 4,
            state.current.kind != Tetromino::O,
            rotate_from(state@, next_rotation, 0) == rotate_from(state@, next_rotation, i as int),
        decreases 5 - i,
    {
        let kick = kicks[i];
        if is_valid(state, state.current.x + kick, state.current.y, next_rotation, state.current.kind) {
            proof {
                lemma_fit_bounds(
                    state@.board,
                    ActivePiece { x: (state.current.x + kick) as i32, rotation: next_rotation, ..state.current },
                );
            }
            state.current.x = state.current.x + kick;
            state.current.rotation = next_rotation;
            return;
        }
        i = i + 1;
    }
}

/// Puts the current shape in the hold slot and brings in the held one (or the
/// next piece), once per piece.
pub fn hold_piece(state: &mut TetrisState)
    requires
        tetris_wf(old(state)@),
    ensures
        final(state)@ == hold_model(old(state)@),
        tetris_wf(final(state)@),
{
    if !state.can_hold {
        return;
    }
    state.can_hold = false;
    let held = state.hold;
    state.hold = Some(state.current.kind);
    match held {
        Some(kind) => {
            state.current = spawn_piece(kind);
            if !is_valid_current(state) {
                state.is_game_over = true;
            }
        },
        None => spawn_next(state),
    }
}

/// Turns the current piece into blocks, clears and scores full rows, and
/// brings in the next piece.
pub fn lock_piece(state: &mut TetrisState)
    requires
        tetris_wf(old(state)@),
    ensures
        final(state)@ == lock_model(old(state)@),
        tetris_wf(final(state)@),
{
    let ghost m0 = state@;
    let cells = piece_cells(state.current);
    let color = state.current.kind.color_index();
    assert(paint(m0.board, cells@.take(0), color) =~~= m0.board);
    let mut k: usize = 0;
    while k < 4
        invariant
            k <= 4,
            m0 == old(state)@,
            cells@ == cells_of(m0.current),
            color == spec_color_index(m0.current.kind),
            state@ == (TetrisModel { board: paint(m0.board, cells@.take(k as int), color), ..m0 }),
            tetris_wf(m0),
            first_above_top(cells@, 0) == first_above_top(cells@, k as int),
        decreases 4 - k,
    {
        let (x, y) = cells[k];
        assert((x, y) == cells@[k as int]);
        if y < 0 {
            assert(first_above_top(cells@, k as int) == k);
            state.is_game_over = true;
            assert(state@ =~= lock_model(m0));
            return;
        }
        let ghost before_arr = state.board;
        if 0 <= x && x < 10 && 0 <= y && y < 20 {
            state.board[y as usize][x as usize] = Some(color);
        }
        proof {
            let t = cells@.take(k as int);
            let t1 = cells@.take(k + 1);
            let after = paint(m0.board, t1, color);
            assert forall|yy: int, xx: int| 0 <= yy < 20 && 0 <= xx < 10 implies
                #[trigger] state@.board[yy][xx] == after[yy][xx] by {
                let c = (xx as i32, yy as i32);
                if t.contains(c) {
                    let i = choose|i: int| 0 <= i < t.len() && t[i] == c;
                    assert(t1[i] == c);
                }
                if c == (x, y) {
                    assert(t1[k as int] == c);
                }
                if t1.contains(c) {
                    let i = choose|i: int| 0 <= i < t1.len() && t1[i] == c;
                    if i < k {
                        assert(t[i] == c);
                    }
                }
                assert(state@.board[yy] == state.board@[yy]@);
                assert(paint(m0.board, t, color)[yy][xx] == before_arr@[yy]@[xx]);
            }
            assert(state@.board =~~= after);
        }
        k = k + 1;
    }
    assert(cells@.take(4) =~= cells@);
    let cleared = clear_lines(state);
    award_score(state, cleared);
    spawn_next(state);
}

/// Whether every cell of a row holds a block.
pub fn row_is_full(row: &[Option<u8>; 10]) -> (r: bool)
    ensures
        r == row_full(row@),
{
    let mut x: usize = 0;
    while x < 10
        invariant
            x <= 10,
            forall|j: int| 0 <= j < x ==> #[trigger] row@[j] is Some,
        decreases 10 - x,
    {
        if row[x].is_none() {
            return false;
        }
        x = x + 1;
    }
    true
}

/// Removes full rows, letting the rows above fall, and updates the lines
/// count, level and drop interval. Returns the number of rows removed.
pub fn clear_lines(state: &mut TetrisState) -> (cleared: u8)
    requires
        tetris_wf(old(state)@),
    ensures
        cleared == full_row_count(old(state)@.board),
        final(state)@ == clear_model(old(state)@),
        tetris_wf(final(state)@),
{
    let ghost old_b = state@.board;
    let ghost nf = |row: Seq<Option<u8>>| !row_full(row);
    let mut write_row: usize = 19;
    let mut cleared: u8 = 0;
    let mut r: usize = 20;
    let ghost mut next: int = 19;
    while r > 0
        invariant
            r <= 20,
            old_b.len() == 20,
            state@.board.len() == 20,
            forall|y: int| 0 <= y < 20 ==> #[trigger] state@.board[y].len() == 10,
            forall|y: int| 0 <= y < 20 ==> #[trigger] old_b[y].len() == 10,
            nf == (|row: Seq<Option<u8>>| !row_full(row)),
            next == 19 - old_b.subrange(r as int, 20).filter(nf).len(),
            old_b.subrange(r as int, 20).filter(nf).len() <= 20 - r,
            write_row == (if next >= 0 { next } else { 0 }),
            cleared == (20 - r) - old_b.subrange(r as int, 20).filter(nf).len(),
            forall|y: int| 0 <= y < 20 && y <= next ==> #[trigger] state@.board[y] == old_b[y],
            state@.board.subrange(next + 1, 20) == old_b.subrange(r as int, 20).filter(nf),
            state@ == (TetrisModel { board: state@.board, ..old(state)@ }),
        decreases r,
    {
        r = r - 1;
        proof {
            assert(old_b.subrange(r as int, 20) =~= seq![old_b[r as int]] + old_b.subrange(r + 1, 20));
            old_b.subrange(r + 1, 20).lemma_filter_prepend(old_b[r as int], nf);
            old_b.subrange(r + 1, 20).lemma_filter_len(nf);
            assert(state@.board[r as int] == state.board@[r as int]@);
        }
        if row_is_full(&state.board[r]) {
            cleared = cleared + 1;
            continue;
        }
        let row = state.board[r];
        let ghost before = state@.board;
        state.board[write_row] = row;
        proof {
            assert(state@.board =~= before.update(write_row as int, row@));
            assert(state@.board.subrange(next, 20) =~= seq![row@] + before.subrange(next + 1, 20));
        }
        write_row = write_row.saturating_sub(1);
        proof {
            next = next - 1;
        }
    }
    assert(old_b.subrange(0, 20) =~= old_b);
    let ghost kept = old_b.filter(nf);
    assert(kept == kept_rows(old_b));
    let ghost mid = state@.board;
    let fill = cleared as usize;
    let mut row: usize = 0;
    while row < fill
        invariant
            row <= fill,
            fill == 20 - kept.len(),
            mid.len() == 20,
            state@.board.len() == 20,
            forall|y: int| 0 <= y < row ==> #[trigger] state@.board[y] == empty_row(),
            forall|y: int| row <= y < 20 ==> #[trigger] state@.board[y] == mid[y],
            state@ == (TetrisModel { board: state@.board, ..old(state)@ }),
        decreases fill - row,
    {
        let ghost before = state@.board;
        state.board[row] = [None; 10];
        proof {
            assert(state.board@[row as int]@ =~= empty_row());
            assert(state@.board =~= before.update(row as int, empty_row()));
        }
        row = row + 1;
    }
    proof {
        let expected = Seq::new((20 - kept.len()) as nat, |i: int| empty_row()) + kept;
        assert forall|y: int| 0 <= y < 20 implies state@.board[y] == expected[y] by {
            if y >= 20 - kept.len() {
                assert(mid.subrange(next + 1, 20)[y - (next + 1)] == kept[y - (20 - kept.len())]);
            }
        }
        assert(state@.board =~= expected);
    }
    state.lines_cleared = state.lines_cleared.saturating_add(cleared as u16);
    let lines = state.lines_cleared;
    let level: u16 = if lines / 10 + 1 < 10 { lines / 10 + 1 } else { 10 };
    state.level.0 = level as u8;
    state.tick_rate = 700 - 45 * ((level - 1) as u64);
    cleared
}

/// Adds the points for clearing `cleared` rows at the current level.
pub fn award_score(state: &mut TetrisState, cleared: u8)
    ensures
        final(state)@ == award_model(old(state)@, cleared as int),
{
    let base: u32 = match cleared {
        1 => 100,
        2 => 300,
        3 => 500,
        4 => 800,
        _ => 0,
    };
    state.score.0 = state.score.0.saturating_add(base * (state.level.0 as u32));
}

/// Brings in the next piece and draws a new next piece.
pub fn spawn_next(state: &mut TetrisState)
    requires
        tetris_wf(old(state)@),
    ensures
        final(state)@ == spawn_next_model(old(state)@),
        tetris_wf(final(state)@),
{
    state.current = spawn_piece(state.next);
    state.seed = fast_rand(state.seed ^ state.tick);
    state.next = random_piece(state.seed);
    state.can_hold = true;
    if !is_valid_current(state) {
        state.is_game_over = true;
    }
}

/// The piece of a shape as it enters the well.
pub fn spawn_piece(kind: Tetromino) -> (r: ActivePiece)
    ensures
        r == spec_spawn_piece(kind),
{
    ActivePiece { kind, rotation: 0, x: 3, y: -1 }
}

/// The shape that a seed selects.
pub fn random_piece(seed: u64) -> (r: Tetromino)
    ensures
        r == spec_random_piece(seed),
{
    match seed % 7 {
        0 => Tetromino::I,
        1 => Tetromino::O,
        2 => Tetromino::T,
        3 => Tetromino::S,
        4 => Tetromino::Z,
        5 => Tetromino::J,
        _ => Tetromino::L,
    }
}


/// After full rows are removed no row of the board is full, the rows that
/// were not full are kept, in order, at the bottom, and a board without a full
/// row is left as it was.
pub proof fn lemma_clear_leaves_no_full_row(board: BoardModel)
    requires
        board.len() == 20,
        forall|y: int| 0 <= y < 20 ==> #[trigger] board[y].len() == 10,
    ensures
        board_after_clear(board).len() == 20,
        forall|y: int| 0 <= y < 20 ==> !row_full(#[trigger] board_after_clear(board)[y]),
        board_after_clear(board).subrange(20 - kept_rows(board).len(), 20) == kept_rows(board),
        full_row_count(board) == 0 ==> board_after_clear(board) == board,
{
    let nf = |row: Seq<Option<u8>>| !row_full(row);
    let kept = kept_rows(board);
    board.lemma_filter_len(nf);
    assert(!row_full(empty_row())) by {
        assert(empty_row()[0] is None);
    }
    let after = board_after_clear(board);
    assert forall|y: int| 0 <= y < 20 implies !row_full(#[trigger] after[y]) by {
        if y >= 20 - kept.len() {
            board.lemma_filter_pred(nf, y - (20 - kept.len()));
        }
    }
    assert(after.subrange(20 - kept.len(), 20) =~= kept);
    if kept.len() == 20 {
        lemma_filter_keeps_all(board, nf);
        assert(after =~= board);
    }
}

/// Line clears score 100, 300, 500 and 800 points times the level for one
/// to four lines at once (nothing for none), so clearing more lines at once
/// always scores more.
pub proof fn lemma_line_scores(m: TetrisModel, a: int, b: int)
    requires
        1 <= m.level.0,
        m.score.0 + 800 * m.level.0 <= u32::MAX,
    ensures
        award_model(m, 0).score == m.score,
        award_model(m, 1).score.0 == m.score.0 + 100 * m.level.0,
        award_model(m, 2).score.0 == m.score.0 + 300 * m.level.0,
        award_model(m, 3).score.0 == m.score.0 + 500 * m.level.0,
        award_model(m, 4).score.0 == m.score.0 + 800 * m.level.0,
        0 <= a < b <= 4 ==> award_model(m, a).score.0 < award_model(m, b).score.0,
{
    let l = m.level.0 as int;
    assert(100 * l <= 300 * l <= 500 * l <= 800 * l) by (nonlinear_arith)
        requires
            l >= 1,
    ;
    assert(0 < 100 * l) by (nonlinear_arith)
        requires
            l >= 1,
    ;
    assert(line_points(0) == 0);
    assert(line_points(0) * m.level.0 == 0) by (nonlinear_arith)
        requires
            line_points(0) == 0,
    ;
    assert(award_model(m, 0).score.0 == m.score.0);
    if 0 <= a < b <= 4 {
        assert(a == 0 || a == 1 || a == 2 || a == 3);
        assert(b == 1 || b == 2 || b == 3 || b == 4);
    }
}

/// Turning a cell of the box by `a` and then by `b` quarter turns is turning
/// it by `a + b`; in particular four quarter turns bring every cell back.
pub proof fn lemma_rotations_compose(x: i32, y: i32, a: u8, b: u8)
    requires
        0 <= x <= 3,
        0 <= y <= 3,
    ensures
        ({
            let r = spec_rotate_cell(x, y, a);
            spec_rotate_cell(r.0, r.1, b) == spec_rotate_cell(x, y, ((a % 4 + b % 4) % 4) as u8)
        }),
        spec_rotate_cell(x, y, 4) == (x, y),
{
}

/// The landing row of a fitting piece is a row where it fits and from which
/// it cannot fall further.
pub proof fn lemma_drop_row_lands(board: BoardModel, p: ActivePiece)
    requires
        fits(board, p),
        -3 <= p.x <= 9,
        p.y <= 19,
    ensures
        p.y <= drop_row(board, p) <= 19,
        fits(board, moved(p, p.x as int, drop_row(board, p) as int)),
        !fits(board, moved(p, p.x as int, drop_row(board, p) + 1)),
    decreases 19 - p.y,
{
    let below = moved(p, p.x as int, p.y + 1);
    if p.y < 19 && fits(board, below) {
        lemma_fit_bounds(board, below);
        lemma_drop_row_lands(board, below);
    } else {
        assert(moved(p, p.x as int, p.y as int) == p);
        if p.y == 19 {
            lemma_cells_in_box(below, 0);
            lemma_cells_in_box(below, 1);
            lemma_cells_in_box(below, 2);
            lemma_cells_in_box(below, 3);
            assert(!cell_free(board, cells_of(below)[0]));
        }
    }
}

/// While a game runs its falling piece lies on free cells: no frame and no key
/// press can leave a running game with an overlapping piece.
pub proof fn lemma_running_piece_fits(m: TetrisModel, key: Key)
    requires
        tetris_wf(m),
        !m.is_game_over ==> fits(m.board, m.current),
    ensures
        !tetris_tick(m).is_game_over ==> fits(tetris_tick(m).board, tetris_tick(m).current),
        !after_input(m, key).is_game_over ==> fits(
            after_input(m, key).board,
            after_input(m, key).current,
        ),
{
    if !m.is_game_over && !m.is_complete {
        lemma_rotate_fits(m, ((m.current.rotation + 1) % 4) as u8, 0);
    }
}

/// Turning keeps a fitting piece fitting.
proof fn lemma_rotate_fits(m: TetrisModel, rotation: u8, i: int)
    requires
        fits(m.board, m.current),
        0 <= i,
    ensures
        fits(rotate_from(m, rotation, i).board, rotate_from(m, rotation, i).current),
    decreases 5 - i,
{
    if i < 5 {
        lemma_rotate_fits(m, rotation, i + 1);
    }
}

/// A frame or a key press never lowers the score or the lines count, and the
/// level stays between 1 and 10.
pub proof fn lemma_tetris_progress(m: TetrisModel, key: Key)
    requires
        1 <= m.level.0 <= 10,
    ensures
        tetris_tick(m).score.0 >= m.score.0,
        tetris_tick(m).lines_cleared >= m.lines_cleared,
        1 <= tetris_tick(m).level.0 <= 10,
        after_input(m, key).score.0 >= m.score.0,
        after_input(m, key).lines_cleared >= m.lines_cleared,
        1 <= after_input(m, key).level.0 <= 10,
{
    if !m.is_game_over && !m.is_complete {
        lemma_rotate_keeps_counters(m, ((m.current.rotation + 1) % 4) as u8, 0);
    }
}

/// Turning leaves the counters alone.
proof fn lemma_rotate_keeps_counters(m: TetrisModel, rotation: u8, i: int)
    requires
        0 <= i,
    ensures
        rotate_from(m, rotation, i).score == m.score,
        rotate_from(m, rotation, i).lines_cleared == m.lines_cleared,
        rotate_from(m, rotation, i).level == m.level,
    decreases 5 - i,
{
    if i < 5 {
        lemma_rotate_keeps_counters(m, rotation, i + 1);
    }
}

} // verus!
