//! Semantic keys and the set of keys held down, used to act once per press.

use vstd::prelude::*;

verus! {

/// A key the game reacts to.
#[derive(Clone, Copy, Debug, PartialEq, Eq, Structural)]
pub enum Key {
    Confirm,
    Rotate,
    Left,
    Right,
    Down,
}

/// Whether a key went down or came up.
#[derive(Clone, Copy, Debug, PartialEq, Eq, Structural)]
pub enum KeyState {
    Pressed,
    Released,
}

/// The keys currently held down.
pub struct PressedKeys {
    confirm: bool,
    rotate: bool,
    left: bool,
    right: bool,
    down: bool,
}

impl PressedKeys {
    closed spec fn holds(&self, k: Key) -> bool {
        match k {
            Key::Confirm => self.confirm,
            Key::Rotate => self.rotate,
            Key::Left => self.left,
            Key::Right => self.right,
            Key::Down => self.down,
        }
    }
}

impl View for PressedKeys {
    type V = Set<Key>;

    closed spec fn view(&self) -> Set<Key> {
        Set::new(|k: Key| self.holds(k))
    }
}

impl PressedKeys {
    /// No key held.
    pub fn new() -> (r: PressedKeys)
        ensures
            r@ == Set::<Key>::empty(),
    {
        let r = PressedKeys { confirm: false, rotate: false, left: false, right: false, down: false };
        assert(r@ =~= Set::<Key>::empty());
        r
    }

    /// Whether `k` is held.
    pub fn contains(&self, k: Key) -> (r: bool)
        ensures
            r == self@.contains(k),
    {
        match k {
            Key::Confirm => self.confirm,
            Key::Rotate => self.rotate,
            Key::Left => self.left,
            Key::Right => self.right,
            Key::Down => self.down,
        }
    }

    fn put(&mut self, k: Key, held: bool)
        ensures
            forall|j: Key| j != k ==> final(self).holds(j) == old(self).holds(j),
            final(self).holds(k) == held,
    {
        match k {
            Key::Confirm => self.confirm = held,
            Key::Rotate => self.rotate = held,
            Key::Left => self.left = held,
            Key::Right => self.right = held,
            Key::Down => self.down = held,
        }
    }

    /// Records that `k` went down; true when it was not held before, so that
    /// a key held down acts only once.
    pub fn press(&mut self, k: Key) -> (fresh: bool)
        ensures
            fresh == !old(self)@.contains(k),
            final(self)@ == old(self)@.insert(k),
    {
        let fresh = !self.contains(k);
        self.put(k, true);
        assert(self@ =~= old(self)@.insert(k));
        fresh
    }

    /// Records that `k` came up.
    pub fn release(&mut self, k: Key)
        ensures
            final(self)@ == old(self)@.remove(k),
    {
        self.put(k, false);
        assert(self@ =~= old(self)@.remove(k));
    }
}

} // verus!
