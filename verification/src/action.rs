//! What the player asks of the game, and how key presses are read as such.

use vstd::prelude::*;
use crate::direction::Direction;

verus! {

/// A request made by the player.
#[derive(Debug, Clone, Copy, PartialEq, Eq, Structural)]
pub enum Action {
    /// End the session.
    Quit,
    /// Head in the given direction.
    Move(Direction),
}

/// A key press, reduced to what the game can tell apart.
#[derive(Debug, Clone, Copy, PartialEq, Eq, Structural)]
pub enum Key {
    Up,
    Down,
    Left,
    Right,
    /// A key that produces a character.
    Char(char),
    /// Any other key.
    Other,
}

impl Action {
    /// Whether `c` is typed by the quit key: the letter q, or the letter that
    /// shares its key on a Russian keyboard.
    pub open spec fn is_quit_char(c: char) -> bool {
        c == 'q' || c == '\u{439}'
    }

    /// The request that a key press stands for, if any: the arrow keys steer,
    /// the quit key quits, and every other key means nothing.
    pub open spec fn decoded(key: Key) -> Option<Action> {
        match key {
            Key::Up => Some(Action::Move(Direction::Up)),
            Key::Down => Some(Action::Move(Direction::Down)),
            Key::Left => Some(Action::Move(Direction::Left)),
            Key::Right => Some(Action::Move(Direction::Right)),
            Key::Char(c) => if Action::is_quit_char(c) {
                Some(Action::Quit)
            } else {
                None
            },
            Key::Other => None,
        }
    }

    /// Reads a key press as a request.
    pub fn from_key(key: Key) -> (res: Option<Action>)
        ensures
            res == Action::decoded(key),
    {
        match key {
            Key::Up => Some(Action::Move(Direction::Up)),
            Key::Down => Some(Action::Move(Direction::Down)),
            Key::Left => Some(Action::Move(Direction::Left)),
            Key::Right => Some(Action::Move(Direction::Right)),
            Key::Char(c) => {
                if c == 'q' || c == '\u{439}' {
                    Some(Action::Quit)
                } else {
                    None
                }
            },
            Key::Other => None,
        }
    }
}

} // verus!
