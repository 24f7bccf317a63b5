//! The title screen: waits for the confirm key.

use vstd::prelude::*;
use crate::game::GameEvent;
use crate::keys::{Key, KeyState, PressedKeys};

verus! {

/// Before a game: only the keys held down are kept.
pub struct GameSystem {
    pressed: PressedKeys,
}

impl View for GameSystem {
    type V = Set<Key>;

    closed spec fn view(&self) -> Set<Key> {
        self.pressed@
    }
}

/// The confirm key goes down and was not held: a game starts.
pub open spec fn starts_game(held: Set<Key>, key: Key, state: KeyState) -> bool {
    state == KeyState::Pressed && !held.contains(key) && key == Key::Confirm
}

/// The keys held after a key event.
pub open spec fn held_after(held: Set<Key>, key: Key, state: KeyState) -> Set<Key> {
    match state {
        KeyState::Pressed => held.insert(key),
        KeyState::Released => held.remove(key),
    }
}

impl GameSystem {
    /// No key held.
    pub fn new() -> (r: GameSystem)
        ensures
            r@ == Set::<Key>::empty(),
    {
        GameSystem { pressed: PressedKeys::new() }
    }

    /// A key event; asks for a game when the confirm key goes down.
    pub fn input(&mut self, key: Key, state: KeyState) -> (ev: Option<GameEvent>)
        ensures
            final(self)@ == held_after(old(self)@, key, state),
            ev == (if starts_game(old(self)@, key, state) {
                Some(GameEvent::Play)
            } else {
                None
            }),
    {
        match state {
            KeyState::Pressed => {
                let fresh = self.pressed.press(key);
                if fresh && key == Key::Confirm {
                    Some(GameEvent::Play)
                } else {
                    None
                }
            },
            KeyState::Released => {
                self.pressed.release(key);
                None
            },
        }
    }
}

} // verus!
