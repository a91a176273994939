//! The keyboard as each tick sees it.

use vstd::prelude::*;

verus! {

/// The keys that the game binds.
#[derive(Clone, Copy, PartialEq, Eq, Structural, Debug)]
pub enum KeyCode {
    KeyW,
    KeyA,
    KeyS,
    KeyD,
    KeyC,
    Space,
    ShiftLeft,
}

/// A snapshot of the keyboard: the keys held down, and those that went down
/// since the previous snapshot. The order of the keys means nothing.
pub struct ButtonInput {
    pub pressed_keys: Vec<KeyCode>,
    pub just_pressed_keys: Vec<KeyCode>,
}

/// What a [`ButtonInput`] says: two sets of keys.
pub struct ButtonInputView {
    pub pressed: Set<KeyCode>,
    pub just_pressed: Set<KeyCode>,
}

impl View for ButtonInput {
    type V = ButtonInputView;

    open spec fn view(&self) -> ButtonInputView {
        ButtonInputView {
            pressed: self.pressed_keys@.to_set(),
            just_pressed: self.just_pressed_keys@.to_set(),
        }
    }
}

/// Whether `key` occurs in `keys`.
fn holds(keys: &Vec<KeyCode>, key: KeyCode) -> (r: bool)
    ensures
        r == keys@.to_set().contains(key),
{
    let mut i: usize = 0;
    while i < keys.len()
        invariant
            i <= keys.len(),
            forall|j: int| 0 <= j < i ==> keys@[j] != key,
        decreases keys.len() - i,
    {
        if keys[i] == key {
            assert(keys@.contains(key));
            return true;
        }
        i += 1;
    }
    assert(!keys@.contains(key));
    false
}

impl ButtonInput {
    /// A keyboard with no key down.
    pub fn new() -> (r: ButtonInput)
        ensures
            r@.pressed == Set::<KeyCode>::empty(),
            r@.just_pressed == Set::<KeyCode>::empty(),
    {
        let r = ButtonInput { pressed_keys: Vec::new(), just_pressed_keys: Vec::new() };
        assert(r.pressed_keys@.to_set() =~= Set::<KeyCode>::empty());
        assert(r.just_pressed_keys@.to_set() =~= Set::<KeyCode>::empty());
        r
    }

    /// Whether `key` is held down.
    pub fn pressed(&self, key: KeyCode) -> (r: bool)
        ensures
            r == self@.pressed.contains(key),
    {
        holds(&self.pressed_keys, key)
    }

    /// Whether `key` went down since the previous snapshot.
    pub fn just_pressed(&self, key: KeyCode) -> (r: bool)
        ensures
            r == self@.just_pressed.contains(key),
    {
        holds(&self.just_pressed_keys, key)
    }
}

} // verus!
