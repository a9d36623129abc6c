//! What a key press means to the game.

use crate::geometry::Direction;
use vstd::prelude::*;

verus! {

/// A key as the game tells keys apart: a character key, or any other.
#[derive(Copy, Clone, Debug, PartialEq, Eq, Structural)]
pub enum Key {
    Char(char),
    Other,
}

/// What the game does with a key press.
#[derive(Copy, Clone, Debug, PartialEq, Eq, Structural)]
pub enum KeyAction {
    /// The press came too soon after the last one that counted: it is dropped
    /// and the waiting time goes on from that earlier press.
    Debounced,
    /// The press counts but the key means nothing: waiting starts anew.
    Ignored,
    /// The player asks for this heading.
    Turn(Direction),
    /// The player quits.
    Interrupt,
}

/// The heading that a character key asks for: `w`, `a`, `s`, `d`.
pub open spec fn key_direction(c: char) -> Option<Direction> {
    if c == 'w' {
        Some(Direction::UP)
    } else if c == 'a' {
        Some(Direction::LEFT)
    } else if c == 's' {
        Some(Direction::DOWN)
    } else if c == 'd' {
        Some(Direction::RIGHT)
    } else {
        None
    }
}

/// What a key press means, `elapsed_ms` whole milliseconds after the last
/// press that counted, under a debounce interval of `freeze_time_ms`. The
/// interval is tested first; a heading key counts with or without Control;
/// Control with `c` quits.
pub open spec fn key_action(freeze_time_ms: u64, key: Key, ctrl: bool, elapsed_ms: u128) -> KeyAction {
    if elapsed_ms < freeze_time_ms {
        KeyAction::Debounced
    } else {
        match key {
            Key::Char(c) => match key_direction(c) {
                Some(direction) => KeyAction::Turn(direction),
                None => if c == 'c' && ctrl {
                    KeyAction::Interrupt
                } else {
                    KeyAction::Ignored
                },
            },
            Key::Other => KeyAction::Ignored,
        }
    }
}

} // verus!
