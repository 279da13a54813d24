//! Mapping from recognized key events to game commands. The blocking key
//! source itself lives outside this crate; it hands each event over as a
//! `Key` and keeps polling while this mapping yields `None`.

use vstd::prelude::*;
use crate::geom::Vec2i;
use crate::world::{GameInput, input_wf};

verus! {

/// The key events the game distinguishes; every unrecognized key is
/// `Other` and produces no command.
#[derive(PartialEq, Eq, Structural, Clone, Copy, Debug)]
pub enum Key {
    Left,
    Right,
    Up,
    Escape,
    Other,
}

/// The command each key stands for; `None` asks the caller to keep polling.
pub open spec fn spec_input_for_key(k: Key) -> Option<GameInput> {
    match k {
        Key::Left => Some(GameInput::Move { dir: Vec2i { x: -1i8, y: 0 } }),
        Key::Right => Some(GameInput::Move { dir: Vec2i { x: 1, y: 0 } }),
        Key::Up => Some(GameInput::Idle),
        Key::Escape => Some(GameInput::Restart),
        Key::Other => None,
    }
}

/// Map a key event to its command: the left and right arrows are one-cell
/// horizontal steps, the up arrow an explicit wait, escape a restart
/// request. Exactly the unrecognized keys yield `None`, and every command
/// produced is a well-formed input.
pub fn input_for_key(k: Key) -> (r: Option<GameInput>)
    ensures
        r == spec_input_for_key(k),
        r is Some <==> k != Key::Other,
        r matches Some(g) ==> input_wf(g),
{
    match k {
        Key::Left => Some(GameInput::Move { dir: Vec2i { x: -1, y: 0 } }),
        Key::Right => Some(GameInput::Move { dir: Vec2i { x: 1, y: 0 } }),
        Key::Up => Some(GameInput::Idle),
        Key::Escape => Some(GameInput::Restart),
        Key::Other => None,
    }
}

} // verus!
