use vstd::prelude::*;

use crate::types::geometry::{Level, Score, TerminalSize};

verus! {

/// The three board sizes.
#[derive(Debug, Clone, Copy, PartialEq, Eq, Structural)]
pub enum Difficulty {
    Easy,
    Medium,
    Hard,
}

/// Width, height and number of mines of a difficulty: 9x9 with 10, 16x16 with
/// 40, 30x16 with 99.
pub open spec fn spec_dimensions(d: Difficulty) -> (u16, u16, u16) {
    match d {
        Difficulty::Easy => (9, 9, 10),
        Difficulty::Medium => (16, 16, 40),
        Difficulty::Hard => (30, 16, 99),
    }
}

/// The level reported for a difficulty: 1, 3 or 5.
pub open spec fn spec_difficulty_level(d: Difficulty) -> Level {
    match d {
        Difficulty::Easy => Level(1),
        Difficulty::Medium => Level(3),
        Difficulty::Hard => Level(5),
    }
}

impl Difficulty {
    /// Width, height and number of mines of the board.
    pub fn dimensions(self) -> (r: (u16, u16, u16))
        ensures
            r == spec_dimensions(self),
    {
        match self {
            Difficulty::Easy => (9, 9, 10),
            Difficulty::Medium => (16, 16, 40),
            Difficulty::Hard => (30, 16, 99),
        }
    }

    /// The level reported for the difficulty.
    pub fn level(self) -> (r: Level)
        ensures
            r == spec_difficulty_level(self),
    {
        match self {
            Difficulty::Easy => Level(1),
            Difficulty::Medium => Level(3),
            Difficulty::Hard => Level(5),
        }
    }
}

/// One square of the board.
#[derive(Debug, Clone, Copy, PartialEq, Eq, Structural, Default)]
pub struct MineCell {
    pub has_mine: bool,
    pub is_revealed: bool,
    pub is_flagged: bool,
    /// Number of mines among the neighbours (computed when the board is generated).
    pub adjacent: u8,
}

/// A square without a mine, hidden, unflagged.
pub open spec fn blank_cell() -> MineCell {
    MineCell { has_mine: false, is_revealed: false, is_flagged: false, adjacent: 0 }
}

/// The whole state of a Minesweeper session.
#[derive(Debug, Clone)]
pub struct MinesweeperState {
    /// The squares, row-major.
    pub cells: Vec<MineCell>,
    pub board_width: u16,
    pub board_height: u16,
    pub mine_count: u16,
    pub cursor_x: u16,
    pub cursor_y: u16,
    pub difficulty: Difficulty,
    pub is_generated: bool,
    pub elapsed_ticks: u64,
    pub score: Score,
    pub level: Level,
    pub bounds: TerminalSize,
    pub is_game_over: bool,
    pub is_complete: bool,
}

/// The state of a Minesweeper session as a mathematical value.
#[verifier::ext_equal]
pub struct MinesweeperModel {
    pub cells: Seq<MineCell>,
    pub board_width: u16,
    pub board_height: u16,
    pub mine_count: u16,
    pub cursor_x: u16,
    pub cursor_y: u16,
    pub difficulty: Difficulty,
    pub is_generated: bool,
    pub elapsed_ticks: u64,
    pub score: Score,
    pub level: Level,
    pub bounds: TerminalSize,
    pub is_game_over: bool,
    pub is_complete: bool,
}

impl View for MinesweeperState {
    type V = MinesweeperModel;

    open spec fn view(&self) -> MinesweeperModel {
        MinesweeperModel {
            cells: self.cells@,
            board_width: self.board_width,
            board_height: self.board_height,
            mine_count: self.mine_count,
            cursor_x: self.cursor_x,
            cursor_y: self.cursor_y,
            difficulty: self.difficulty,
            is_generated: self.is_generated,
            elapsed_ticks: self.elapsed_ticks,
            score: self.score,
            level: self.level,
            bounds: self.bounds,
            is_game_over: self.is_game_over,
            is_complete: self.is_complete,
        }
    }
}

/// The board is laid out consistently: at least one square, its squares fit
/// `u16` indices, one cell per square, the cursor on the board, and room for
/// the mines outside any 3x3 safe zone.
pub open spec fn mines_wf(m: MinesweeperModel) -> bool {
    &&& m.board_width >= 1
    &&& m.board_height >= 1
    &&& m.board_width * m.board_height <= u16::MAX
    &&& m.cells.len() == m.board_width * m.board_height
    &&& m.cursor_x < m.board_width
    &&& m.cursor_y < m.board_height
    &&& m.mine_count + 9 <= m.board_width * m.board_height
}

/// A fresh board of a difficulty: blank squares, cursor in the corner, the
/// difficulty's level; the rest of the session is kept.
pub open spec fn with_difficulty(m: MinesweeperModel, d: Difficulty) -> MinesweeperModel {
    let (w, h, mines) = spec_dimensions(d);
    MinesweeperModel {
        difficulty: d,
        board_width: w,
        board_height: h,
        mine_count: mines,
        cells: Seq::new((w * h) as nat, |i: int| blank_cell()),
        cursor_x: 0,
        cursor_y: 0,
        level: spec_difficulty_level(d),
        ..m
    }
}

/// A fresh session: an easy board, nothing generated yet, score 0.
pub open spec fn initial_minesweeper(bounds: TerminalSize) -> MinesweeperModel {
    MinesweeperModel {
        cells: Seq::new(81, |i: int| blank_cell()),
        board_width: 9,
        board_height: 9,
        mine_count: 10,
        cursor_x: 0,
        cursor_y: 0,
        difficulty: Difficulty::Easy,
        is_generated: false,
        elapsed_ticks: 0,
        score: Score(0),
        level: Level(1),
        bounds,
        is_game_over: false,
        is_complete: false,
    }
}

/// The number of flagged squares.
pub open spec fn flag_count(cells: Seq<MineCell>) -> nat {
    cells.filter(|c: MineCell| c.is_flagged).len()
}

/// A vector of `n` blank squares.
fn blank_cells(n: usize) -> (r: Vec<MineCell>)
    ensures
        r@ == Seq::new(n as nat, |i: int| blank_cell()),
{
    let mut v: Vec<MineCell> = Vec::with_capacity(n);
    let mut i: usize = 0;
    while i < n
        invariant
            i <= n,
            v@ == Seq::new(i as nat, |j: int| blank_cell()),
        decreases n - i,
    {
        v.push(MineCell { has_mine: false, is_revealed: false, is_flagged: false, adjacent: 0 });
        i = i + 1;
        assert(v@ =~= Seq::new(i as nat, |j: int| blank_cell()));
    }
    v
}

impl MinesweeperState {
    /// A fresh session on a terminal of the given size.
    pub fn new(bounds: TerminalSize) -> (r: Self)
        ensures
            r@ == initial_minesweeper(bounds),
            mines_wf(r@),
    {
        let difficulty = Difficulty::Easy;
        let (board_width, board_height, mine_count) = difficulty.dimensions();
        Self {
            cells: blank_cells((board_width * board_height) as usize),
            board_width,
            board_height,
            mine_count,
            cursor_x: 0,
            cursor_y: 0,
            difficulty,
            is_generated: false,
            elapsed_ticks: 0,
            score: Score(0),
            level: difficulty.level(),
            bounds,
            is_game_over: false,
            is_complete: false,
        }
    }

    /// Switches to a fresh board of another difficulty, before the first reveal only.
    pub fn set_difficulty(&mut self, difficulty: Difficulty)
        ensures
            final(self)@ == (if old(self).is_generated {
                old(self)@
            } else {
                with_difficulty(old(self)@, difficulty)
            }),
            !old(self).is_generated ==> mines_wf(final(self)@),
    {
        if self.is_generated {
            return;
        }
        let (board_width, board_height, mine_count) = difficulty.dimensions();
        self.difficulty = difficulty;
        self.board_width = board_width;
        self.board_height = board_height;
        self.mine_count = mine_count;
        self.cells = blank_cells((board_width * board_height) as usize);
        self.cursor_x = 0;
        self.cursor_y = 0;
        self.level = difficulty.level();
    }

    /// The position of square (x, y) in `cells`.
    pub fn index(&self, x: u16, y: u16) -> (r: usize)
        requires
            y * self.board_width + x <= u16::MAX,
        ensures
            r == y * self.board_width + x,
    {
        proof {
            assert(0 <= y * self.board_width) by (nonlinear_arith);
        }
        (y * self.board_width + x) as usize
    }

    /// Whether (x, y) is a square of the board.
    pub fn contains(&self, x: i32, y: i32) -> (r: bool)
        ensures
            r == (0 <= x < self.board_width && 0 <= y < self.board_height),
    {
        x >= 0 && y >= 0 && x < self.board_width as i32 && y < self.board_height as i32
    }

    /// The number of flagged squares (modulo 2^16).
    pub fn flags_used(&self) -> (r: u16)
        ensures
            r == flag_count(self.cells@) as u16,
    {
        let ghost flagged = |c: MineCell| c.is_flagged;
        let n = self.cells.len();
        let mut count: usize = 0;
        let mut i: usize = 0;
        while i < n
            invariant
                n == self.cells@.len(),
                i <= n,
                flagged == (|c: MineCell| c.is_flagged),
                count == self.cells@.take(i as int).filter(flagged).len(),
                count <= i,
            decreases n - i,
        {
            let c = self.cells[i];
            proof {
                assert(self.cells@.take(i + 1) =~= self.cells@.take(i as int).push(c));
                self.cells@.take(i as int).lemma_filter_push(c, flagged);
            }
            if c.is_flagged {
                count = count + 1;
            }
            i = i + 1;
        }
        assert(self.cells@.take(n as int) =~= self.cells@);
        count as u16
    }
}

/// The label of a difficulty, with the key that selects it.
pub open spec fn spec_difficulty_label(d: Difficulty) -> Seq<char> {
    match d {
        Difficulty::Easy => "1 Easy"@,
        Difficulty::Medium => "2 Medium"@,
        Difficulty::Hard => "3 Hard"@,
    }
}

/// The label shown for a difficulty.
pub fn difficulty_label(difficulty: Difficulty) -> (r: &'static str)
    ensures
        r@ == spec_difficulty_label(difficulty),
{
    match difficulty {
        Difficulty::Easy => "1 Easy",
        Difficulty::Medium => "2 Medium",
        Difficulty::Hard => "3 Hard",
    }
}

} // verus!
