use vstd::prelude::*;

use crate::engine::input::Key;
use crate::types::geometry::Direction;

verus! {

/// The number of games in the arcade.
pub const GAME_COUNT: usize = 9;

/// The key by which the game at a menu position is named (on the command
/// line and in the score table); "unknown" past the last game.
pub open spec fn spec_game_key(index: int) -> Seq<char> {
    if index == 0 {
        "runner"@
    } else if index == 1 {
        "bricks"@
    } else if index == 2 {
        "snake"@
    } else if index == 3 {
        "dino"@
    } else if index == 4 {
        "tetris"@
    } else if index == 5 {
        "pong"@
    } else if index == 6 {
        "invaders"@
    } else if index == 7 {
        "minesweeper"@
    } else if index == 8 {
        "flappy"@
    } else {
        "unknown"@
    }
}

/// The title shown for the game at a menu position.
pub open spec fn spec_game_label(index: int) -> Seq<char> {
    if index == 0 {
        "Runner"@
    } else if index == 1 {
        "Bricks"@
    } else if index == 2 {
        "Snake"@
    } else if index == 3 {
        "Dino"@
    } else if index == 4 {
        "Tetris"@
    } else if index == 5 {
        "Pong"@
    } else if index == 6 {
        "Space Invaders"@
    } else if index == 7 {
        "Minesweeper"@
    } else {
        "Flappy Bird"@
    }
}

/// The key of the game at a menu position.
pub fn game_key(index: usize) -> (r: &'static str)
    ensures
        r@ == spec_game_key(index as int),
{
    match index {
        0 => "runner",
        1 => "bricks",
        2 => "snake",
        3 => "dino",
        4 => "tetris",
        5 => "pong",
        6 => "invaders",
        7 => "minesweeper",
        8 => "flappy",
        _ => "unknown",
    }
}

/// The title of the game at a menu position.
pub fn game_label(index: usize) -> (r: &'static str)
    requires
        index < GAME_COUNT,
    ensures
        r@ == spec_game_label(index as int),
{
    match index {
        0 => "Runner",
        1 => "Bricks",
        2 => "Snake",
        3 => "Dino",
        4 => "Tetris",
        5 => "Pong",
        6 => "Space Invaders",
        7 => "Minesweeper",
        _ => "Flappy Bird",
    }
}

/// The code of a character with ASCII upper-case letters mapped to lower case.
pub open spec fn ascii_lower(c: char) -> u32 {
    if 'A' <= c && c <= 'Z' {
        (c as u32 + 32) as u32
    } else {
        c as u32
    }
}

/// Two strings that differ at most in the case of ASCII letters.
pub open spec fn ascii_eq_ignore_case(a: Seq<char>, b: Seq<char>) -> bool {
    &&& a.len() == b.len()
    &&& forall|i: int| 0 <= i < a.len() ==> ascii_lower(#[trigger] a[i]) == ascii_lower(b[i])
}

/// The code of a character, lowered when it is an ASCII upper-case letter.
fn lower_code(c: char) -> (r: u32)
    ensures
        r == ascii_lower(c),
{
    let v = c as u32;
    if 65 <= v && v <= 90 {
        v + 32
    } else {
        v
    }
}

/// Whether two strings are equal when ASCII case is ignored (as std's
/// `str::eq_ignore_ascii_case`): same length, and each pair of characters the
/// same after lowering ASCII letters.
pub fn eq_ignore_ascii_case(a: &str, b: &str) -> (r: bool)
    ensures
        r == ascii_eq_ignore_case(a@, b@),
{
    let n = a.unicode_len();
    if n != b.unicode_len() {
        return false;
    }
    let mut i: usize = 0;
    while i < n
        invariant
            n == a@.len(),
            n == b@.len(),
            i <= n,
            forall|j: int| 0 <= j < i ==> ascii_lower(#[trigger] a@[j]) == ascii_lower(b@[j]),
        decreases n - i,
    {
        let ca = a.get_char(i);
        let cb = b.get_char(i);
        if lower_code(ca) != lower_code(cb) {
            return false;
        }
        i = i + 1;
    }
    true
}

/// The first menu position from `i` on whose key matches `name`, ignoring
/// ASCII case.
pub open spec fn game_index_from(name: Seq<char>, i: nat) -> Option<usize>
    decreases GAME_COUNT - i,
{
    if i >= GAME_COUNT {
        None
    } else if ascii_eq_ignore_case(spec_game_key(i as int), name) {
        Some(i as usize)
    } else {
        game_index_from(name, i + 1)
    }
}

/// The menu position of the game named `game_key` (ignoring ASCII case), or
/// `None` when no game has that key.
pub fn game_index(game_key: &str) -> (r: Option<usize>)
    ensures
        r == game_index_from(game_key@, 0),
        r matches Some(i) ==> i < GAME_COUNT && ascii_eq_ignore_case(spec_game_key(i as int), game_key@),
{
    let mut i: usize = 0;
    while i < GAME_COUNT
        invariant
            i <= GAME_COUNT,
            game_index_from(game_key@, 0) == game_index_from(game_key@, i as nat),
        decreases GAME_COUNT - i,
    {
        if eq_ignore_ascii_case(self::game_key(i), game_key) {
            return Some(i);
        }
        i = i + 1;
    }
    None
}

/// What the menu does after a key press.
#[derive(Debug, Clone, Copy, PartialEq, Eq, Structural)]
pub enum MenuAction {
    /// Keep showing the menu.
    Stay,
    /// Play the game at this position.
    Launch(usize),
    /// Leave the arcade.
    Exit,
}

/// The menu's selection and action after a key: Up and Down move the
/// selection, wrapping around; Action plays the selected game; a digit 1-9
/// selects and plays that game; Quit leaves; other keys do nothing.
pub open spec fn spec_menu_step(selected: usize, key: Key) -> (usize, MenuAction) {
    match key {
        Key::Dir(Direction::Up) => (
            if selected == 0 { (GAME_COUNT - 1) as usize } else { (selected - 1) as usize },
            MenuAction::Stay,
        ),
        Key::Dir(Direction::Down) => (
            if selected >= GAME_COUNT - 1 { 0 } else { (selected + 1) as usize },
            MenuAction::Stay,
        ),
        Key::Action => (selected, MenuAction::Launch(selected)),
        Key::Number(n) => if n <= GAME_COUNT {
            ((n - 1) as usize, MenuAction::Launch((n - 1) as usize))
        } else {
            (selected, MenuAction::Stay)
        },
        Key::Quit => (selected, MenuAction::Exit),
        _ => (selected, MenuAction::Stay),
    }
}

/// Applies a key press to the menu.
pub fn menu_step(selected: usize, key: Key) -> (r: (usize, MenuAction))
    requires
        key != Key::Number(0),
    ensures
        r == spec_menu_step(selected, key),
        selected < GAME_COUNT ==> r.0 < GAME_COUNT,
        r.1 matches MenuAction::Launch(i) ==> i == r.0,
{
    match key {
        Key::Dir(Direction::Up) => {
            let prev = if selected == 0 { GAME_COUNT - 1 } else { selected - 1 };
            (prev, MenuAction::Stay)
        },
        Key::Dir(Direction::Down) => {
            let next = if selected >= GAME_COUNT - 1 { 0 } else { selected + 1 };
            (next, MenuAction::Stay)
        },
        Key::Action => (selected, MenuAction::Launch(selected)),
        Key::Number(n) => {
            if (n as usize) <= GAME_COUNT {
                let idx = (n - 1) as usize;
                (idx, MenuAction::Launch(idx))
            } else {
                (selected, MenuAction::Stay)
            }
        },
        Key::Quit => (selected, MenuAction::Exit),
        _ => (selected, MenuAction::Stay),
    }
}

/// Moving the selection up and then down (or down and then up) comes back to
/// the same game.
pub proof fn lemma_up_down_undo(selected: usize)
    requires
        selected < GAME_COUNT,
    ensures
        spec_menu_step(spec_menu_step(selected, Key::Dir(Direction::Up)).0, Key::Dir(Direction::Down)).0 == selected,
        spec_menu_step(spec_menu_step(selected, Key::Dir(Direction::Down)).0, Key::Dir(Direction::Up)).0 == selected,
{
}

/// Every game is found by its own key: the keys of the nine games differ even
/// when ASCII case is ignored.
pub proof fn lemma_game_key_finds_its_game(index: usize)
    requires
        index < GAME_COUNT,
    ensures
        game_index_from(spec_game_key(index as int), 0) == Some(index),
{
    reveal_strlit("runner");
    reveal_strlit("bricks");
    reveal_strlit("snake");
    reveal_strlit("dino");
    reveal_strlit("tetris");
    reveal_strlit("pong");
    reveal_strlit("invaders");
    reveal_strlit("minesweeper");
    reveal_strlit("flappy");
    let name = spec_game_key(index as int);
    assert forall|j: int| 0 <= j < index implies !ascii_eq_ignore_case(
        #[trigger] spec_game_key(j),
        name,
    ) by {
        let other = spec_game_key(j);
        if other.len() == name.len() {
            assert(ascii_lower(other[0]) != ascii_lower(name[0]));
        }
    }
    assert(ascii_eq_ignore_case(name, name));
    lemma_search_reaches(name, 0, index);
}

/// The search from position `start` reaches position `index` when the key
/// there matches and none before it does.
proof fn lemma_search_reaches(name: Seq<char>, start: nat, index: usize)
    requires
        start <= index < GAME_COUNT,
        ascii_eq_ignore_case(spec_game_key(index as int), name),
        forall|j: int| start <= j < index ==> !ascii_eq_ignore_case(#[trigger] spec_game_key(j), name),
    ensures
        game_index_from(name, start) == Some(index),
    decreases index - start,
{
    if start < index {
        assert(!ascii_eq_ignore_case(spec_game_key(start as int), name));
        lemma_search_reaches(name, start + 1, index);
    }
}

} // verus!
