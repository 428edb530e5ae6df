//! Player input: the actions bound to keys, the set of actions currently
//! held, and the movement direction they give.

use vstd::prelude::*;
use crate::geom::IVec2;

verus! {

/// Something the player can ask for by holding a key.
#[derive(Clone, Copy, Debug, PartialEq, Eq, Structural)]
pub enum Action {
    Up,
    Down,
    Left,
    Right,
    Fire,
}

/// The bit that stands for `a` in a set of held actions: bit 0 for `Up`,
/// then `Down`, `Left`, `Right` and `Fire`.
pub open spec fn action_bit(a: Action) -> u32 {
    match a {
        Action::Up => 1,
        Action::Down => 2,
        Action::Left => 4,
        Action::Right => 8,
        Action::Fire => 16,
    }
}

/// The bit that stands for `a` in a set of held actions.
pub fn action_mask(a: Action) -> (m: u32)
    ensures
        m == action_bit(a),
{
    match a {
        Action::Up => 1,
        Action::Down => 2,
        Action::Left => 4,
        Action::Right => 8,
        Action::Fire => 16,
    }
}

/// Whether the action bits `bits` hold `a`.
pub open spec fn bits_hold(bits: u32, a: Action) -> bool {
    bits & action_bit(a) != 0
}

proof fn lemma_set_bit(x: u32, m: u32, n: u32)
    requires
        m == 1 || m == 2 || m == 4 || m == 8 || m == 16,
        n == 1 || n == 2 || n == 4 || n == 8 || n == 16,
    ensures
        ((x | m) & n != 0) == (m == n || x & n != 0),
        ((x & !m) & n != 0) == (m != n && x & n != 0),
{
    assert(((x | m) & n != 0) == (m == n || x & n != 0)) by (bit_vector)
        requires
            m == 1 || m == 2 || m == 4 || m == 8 || m == 16,
            n == 1 || n == 2 || n == 4 || n == 8 || n == 16,
    ;
    assert(((x & !m) & n != 0) == (m != n && x & n != 0)) by (bit_vector)
        requires
            m == 1 || m == 2 || m == 4 || m == 8 || m == 16,
            n == 1 || n == 2 || n == 4 || n == 8 || n == 16,
    ;
}

proof fn lemma_action_bit_injective(a: Action, b: Action)
    ensures
        (action_bit(a) == action_bit(b)) == (a == b),
{
}

/// The set of actions whose keys are held down, one bit per action.
pub struct Input {
    bits: u32,
}

impl View for Input {
    type V = u32;

    closed spec fn view(&self) -> u32 {
        self.bits
    }
}

impl Input {
    /// Whether the key for `a` is held.
    pub open spec fn holds(&self, a: Action) -> bool {
        bits_hold(self@, a)
    }

    /// No key held.
    pub fn new() -> (i: Self)
        ensures
            i@ == 0,
            forall|a: Action| !i.holds(a),
    {
        let i = Input { bits: 0 };
        assert forall|a: Action| !i.holds(a) by {
            let m = action_bit(a);
            assert(0u32 & m == 0) by (bit_vector);
        }
        i
    }

    /// Whether the key for `action` is held.
    pub fn has_action(&self, action: Action) -> (b: bool)
        ensures
            b == self.holds(action),
    {
        self.bits & action_mask(action) != 0
    }

    /// Records that the key for `action` went down.
    pub fn press(&mut self, action: Action)
        ensures
            final(self)@ == old(self)@ | action_bit(action),
            forall|a: Action| #[trigger] final(self).holds(a) == (a == action || old(self).holds(a)),
    {
        self.bits = self.bits | action_mask(action);
        proof {
            assert forall|a: Action| #[trigger] self.holds(a) == (a == action || old(self).holds(a))
                by {
                lemma_set_bit(old(self)@, action_bit(action), action_bit(a));
                lemma_action_bit_injective(a, action);
            }
        }
    }

    /// Records that the key for `action` went up.
    pub fn release(&mut self, action: Action)
        ensures
            final(self)@ == old(self)@ & !action_bit(action),
            forall|a: Action| #[trigger] final(self).holds(a) == (a != action && old(self).holds(a)),
    {
        self.bits = self.bits & !action_mask(action);
        proof {
            assert forall|a: Action| #[trigger] self.holds(a) == (a != action && old(self).holds(a))
                by {
                lemma_set_bit(old(self)@, action_bit(action), action_bit(a));
                lemma_action_bit_injective(a, action);
            }
        }
    }

    /// The direction the held movement keys point in: one step per held
    /// direction, opposite keys cancelling (y grows downward).
    pub fn direction(&self) -> (d: IVec2)
        ensures
            d.x == (if self.holds(Action::Right) { 1int } else { 0 }) - (if self.holds(
                Action::Left,
            ) {
                1int
            } else {
                0
            }),
            d.y == (if self.holds(Action::Down) { 1int } else { 0 }) - (if self.holds(Action::Up) {
                1int
            } else {
                0
            }),
    {
        let mut x: i32 = 0;
        let mut y: i32 = 0;
        if self.has_action(Action::Up) {
            y = y - 1;
        }
        if self.has_action(Action::Down) {
            y = y + 1;
        }
        if self.has_action(Action::Left) {
            x = x - 1;
        }
        if self.has_action(Action::Right) {
            x = x + 1;
        }
        IVec2::new(x, y)
    }
}

/// Releasing a key that a press put down leaves the held set as it was
/// before the press, when that key was not held before.
pub proof fn lemma_release_undoes_press(bits: u32, a: Action)
    requires
        !bits_hold(bits, a),
    ensures
        (bits | action_bit(a)) & !action_bit(a) == bits,
{
    let m = action_bit(a);
    assert((bits & m == 0) ==> ((bits | m) & !m == bits)) by (bit_vector);
}

/// Pressing a key that is already held changes nothing.
pub proof fn lemma_press_idempotent(bits: u32, a: Action)
    ensures
        (bits | action_bit(a)) | action_bit(a) == bits | action_bit(a),
{
    let m = action_bit(a);
    assert((bits | m) | m == bits | m) by (bit_vector);
}

} // verus!
