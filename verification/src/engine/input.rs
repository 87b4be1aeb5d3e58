use vstd::prelude::*;

use crate::types::geometry::Direction;

verus! {

/// Semantic input understood by the games.
#[derive(Debug, Clone, Copy, PartialEq, Eq, Structural)]
pub enum Key {
    Quit,
    Dir(Direction),
    Action,
    Retry,
    Pause,
    Hold,
    Flag,
    Number(u8),
    /// A key that no game reacts to.
    Unbound,
}

/// The key that a terminal key event names, as far as the games tell keys apart.
#[derive(Debug, Clone, Copy, PartialEq, Eq, Structural)]
pub enum KeyCode {
    Char(char),
    Left,
    Right,
    Up,
    Down,
    Enter,
    /// Any other key (function keys, Escape, Tab, ...).
    Other,
}

/// A terminal key press: the key and whether Control was held.
#[derive(Debug, Clone, Copy, PartialEq, Eq, Structural)]
pub struct KeyPress {
    pub code: KeyCode,
    pub ctrl: bool,
}

/// The semantic key for a key press.
///
/// Ctrl+C quits; `q`, `r`, `p`, `c`, `f` (either case) are Quit, Retry, Pause,
/// Hold and Flag; arrows and `wasd` (either case) are directions; Space and
/// Enter are Action; the digits `1` to `9` are `Number(1..=9)`; anything else
/// is `Unbound`.
pub open spec fn key_for(press: KeyPress) -> Key {
    match press.code {
        KeyCode::Char(c) => {
            if c == 'c' && press.ctrl {
                Key::Quit
            } else if c == 'q' || c == 'Q' {
                Key::Quit
            } else if c == 'r' || c == 'R' {
                Key::Retry
            } else if c == 'p' || c == 'P' {
                Key::Pause
            } else if c == 'c' || c == 'C' {
                Key::Hold
            } else if c == 'f' || c == 'F' {
                Key::Flag
            } else if c == 'a' || c == 'A' {
                Key::Dir(Direction::Left)
            } else if c == 'd' || c == 'D' {
                Key::Dir(Direction::Right)
            } else if c == 'w' || c == 'W' {
                Key::Dir(Direction::Up)
            } else if c == 's' || c == 'S' {
                Key::Dir(Direction::Down)
            } else if c == ' ' {
                Key::Action
            } else if '1' <= c && c <= '9' {
                Key::Number((c as u32 - '0' as u32) as u8)
            } else {
                Key::Unbound
            }
        },
        KeyCode::Left => Key::Dir(Direction::Left),
        KeyCode::Right => Key::Dir(Direction::Right),
        KeyCode::Up => Key::Dir(Direction::Up),
        KeyCode::Down => Key::Dir(Direction::Down),
        KeyCode::Enter => Key::Action,
        KeyCode::Other => Key::Unbound,
    }
}

/// Converts a key press into the semantic key that the games read.
pub fn parse_key(press: KeyPress) -> (r: Key)
    ensures
        r == key_for(press),
        r matches Key::Number(n) ==> 1 <= n <= 9,
{
    match press.code {
        KeyCode::Char(c) => {
            if c == 'c' && press.ctrl {
                Key::Quit
            } else if c == 'q' || c == 'Q' {
                Key::Quit
            } else if c == 'r' || c == 'R' {
                Key::Retry
            } else if c == 'p' || c == 'P' {
                Key::Pause
            } else if c == 'c' || c == 'C' {
                Key::Hold
            } else if c == 'f' || c == 'F' {
                Key::Flag
            } else if c == 'a' || c == 'A' {
                Key::Dir(Direction::Left)
            } else if c == 'd' || c == 'D' {
                Key::Dir(Direction::Right)
            } else if c == 'w' || c == 'W' {
                Key::Dir(Direction::Up)
            } else if c == 's' || c == 'S' {
                Key::Dir(Direction::Down)
            } else if c == ' ' {
                Key::Action
            } else if '1' <= c && c <= '9' {
                let digit: u32 = (c as u32) - ('0' as u32);
                Key::Number(digit as u8)
            } else {
                Key::Unbound
            }
        },
        KeyCode::Left => Key::Dir(Direction::Left),
        KeyCode::Right => Key::Dir(Direction::Right),
        KeyCode::Up => Key::Dir(Direction::Up),
        KeyCode::Down => Key::Dir(Direction::Down),
        KeyCode::Enter => Key::Action,
        KeyCode::Other => Key::Unbound,
    }
}

} // verus!
