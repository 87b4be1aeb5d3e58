use vstd::prelude::*;

use crate::types::geometry::{Level, Score, TerminalSize};

verus! {

/// Columns of the well.
pub const BOARD_WIDTH: u16 = 10;
/// Rows of the well.
pub const BOARD_HEIGHT: u16 = 20;

/// The seven tetromino shapes.
#[derive(Debug, Clone, Copy, PartialEq, Eq, Structural)]
pub enum Tetromino {
    I,
    O,
    T,
    S,
    Z,
    J,
    L,
}

/// Palette index of each shape (I = 0 through L = 6).
pub open spec fn spec_color_index(kind: Tetromino) -> u8 {
    match kind {
        Tetromino::I => 0,
        Tetromino::O => 1,
        Tetromino::T => 2,
        Tetromino::S => 3,
        Tetromino::Z => 4,
        Tetromino::J => 5,
        Tetromino::L => 6,
    }
}

impl Tetromino {
    /// Palette index of the shape, used to colour its locked blocks.
    pub fn color_index(self) -> (r: u8)
        ensures
            r == spec_color_index(self),
    {
        match self {
            Tetromino::I => 0,
            Tetromino::O => 1,
            Tetromino::T => 2,
            Tetromino::S => 3,
            Tetromino::Z => 4,
            Tetromino::J => 5,
            Tetromino::L => 6,
        }
    }
}

/// The falling piece: its shape, quarter turns, and the top-left corner of its
/// 4x4 box on the board.
#[derive(Debug, Clone, Copy, PartialEq, Eq, Structural)]
pub struct ActivePiece {
    pub kind: Tetromino,
    pub rotation: u8,
    pub x: i32,
    pub y: i32,
}

/// The whole state of a Tetris session. Durations are in milliseconds.
#[derive(Debug, Clone)]
pub struct TetrisState {
    /// Locked blocks, row-major: `board[y][x]` holds the palette index of a block.
    pub board: [[Option<u8>; 10]; 20],
    pub current: ActivePiece,
    pub next: Tetromino,
    pub hold: Option<Tetromino>,
    pub can_hold: bool,
    pub score: Score,
    pub level: Level,
    pub lines_cleared: u16,
    /// Milliseconds between two gravity drops.
    pub tick_rate: u64,
    /// Milliseconds gathered towards the next drop.
    pub tick_accumulator: u64,
    pub tick: u64,
    pub seed: u64,
    pub bounds: TerminalSize,
    pub is_game_over: bool,
    pub is_complete: bool,
}

/// A board as rows of cells.
pub type BoardModel = Seq<Seq<Option<u8>>>;

/// The state of a Tetris session as a mathematical value.
#[verifier::ext_equal]
pub struct TetrisModel {
    pub board: BoardModel,
    pub current: ActivePiece,
    pub next: Tetromino,
    pub hold: Option<Tetromino>,
    pub can_hold: bool,
    pub score: Score,
    pub level: Level,
    pub lines_cleared: u16,
    pub tick_rate: u64,
    pub tick_accumulator: u64,
    pub tick: u64,
    pub seed: u64,
    pub bounds: TerminalSize,
    pub is_game_over: bool,
    pub is_complete: bool,
}

/// The rows of a board array.
pub open spec fn board_model(board: [[Option<u8>; 10]; 20]) -> BoardModel {
    board@.map_values(|row: [Option<u8>; 10]| row@)
}

impl View for TetrisState {
    type V = TetrisModel;

    open spec fn view(&self) -> TetrisModel {
        TetrisModel {
            board: board_model(self.board),
            current: self.current,
            next: self.next,
            hold: self.hold,
            can_hold: self.can_hold,
            score: self.score,
            level: self.level,
            lines_cleared: self.lines_cleared,
            tick_rate: self.tick_rate,
            tick_accumulator: self.tick_accumulator,
            tick: self.tick,
            seed: self.seed,
            bounds: self.bounds,
            is_game_over: self.is_game_over,
            is_complete: self.is_complete,
        }
    }
}

/// A row without blocks.
pub open spec fn empty_row() -> Seq<Option<u8>> {
    Seq::new(10, |x: int| None::<u8>)
}

/// A well without blocks.
pub open spec fn empty_board() -> BoardModel {
    Seq::new(20, |y: int| empty_row())
}

/// A fresh session: empty well, a T piece at column 3 of the top row with an I
/// piece next, nothing held, score 0, level 1, a drop every 700 ms.
pub open spec fn initial_tetris(bounds: TerminalSize) -> TetrisModel {
    TetrisModel {
        board: empty_board(),
        current: ActivePiece { kind: Tetromino::T, rotation: 0, x: 3, y: 0 },
        next: Tetromino::I,
        hold: None,
        can_hold: true,
        score: Score(0),
        level: Level(1),
        lines_cleared: 0,
        tick_rate: 700,
        tick_accumulator: 0,
        tick: 0,
        seed: 0x1234_5678,
        bounds,
        is_game_over: false,
        is_complete: false,
    }
}

impl TetrisState {
    /// A fresh session on a terminal of the given size.
    pub fn new(bounds: TerminalSize) -> (r: Self)
        ensures
            r@ == initial_tetris(bounds),
    {
        let r = Self {
            board: [[None; 10]; 20],
            current: ActivePiece { kind: Tetromino::T, rotation: 0, x: 3, y: 0 },
            next: Tetromino::I,
            hold: None,
            can_hold: true,
            score: Score(0),
            level: Level(1),
            lines_cleared: 0,
            tick_rate: 700,
            tick_accumulator: 0,
            tick: 0,
            seed: 0x1234_5678,
            bounds,
            is_game_over: false,
            is_complete: false,
        };
        assert(r@.board =~~= empty_board());
        r
    }
}

/// Where the board is drawn: horizontally centred (two columns per cell),
/// three rows from the top.
pub fn origin(state: &TetrisState) -> (r: (u16, u16))
    ensures
        r.0 == state.bounds.width.saturating_sub((BOARD_WIDTH * 2) as u16) / 2,
        r.1 == 3,
{
    (state.bounds.width.saturating_sub(BOARD_WIDTH * 2) / 2, 3)
}

} // verus!
