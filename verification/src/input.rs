//! Keyboard and mouse-button state, independent of camera bindings or scene behavior.
//!
//! Keys and buttons are identified by integer codes chosen by the windowing layer.
//! A key is *held* while it is down and *pressed* if it went down since the last frame ended,
//! so a tap that goes down and up between two updates is still observed once.

use vstd::prelude::*;
use std::collections::HashSet;

verus! {

broadcast use vstd::std_specs::hash::group_hash_axioms;

/// Integer identity of a keyboard key.
pub type KeyId = u32;

/// Integer identity of a mouse button.
pub type ButtonId = u32;

/// Abstract input state: the held keys, the keys pressed during this frame,
/// and the held mouse buttons.
pub struct InputView {
    pub held: Set<KeyId>,
    pub pressed: Set<KeyId>,
    pub mouse: Set<ButtonId>,
}

pub struct Input {
    held: HashSet<KeyId>,
    pressed: HashSet<KeyId>,
    mouse: HashSet<ButtonId>,
}

impl View for Input {
    type V = InputView;

    closed spec fn view(&self) -> InputView {
        InputView { held: self.held@, pressed: self.pressed@, mouse: self.mouse@ }
    }
}

/// No key or button is down.
pub open spec fn empty_input() -> InputView {
    InputView { held: Set::empty(), pressed: Set::empty(), mouse: Set::empty() }
}

/// A key event. Going down marks the key pressed only if it was not already held,
/// so auto-repeat does not retrigger; going up releases it but keeps it pressed
/// until the frame ends.
pub open spec fn key_transition(v: InputView, key: KeyId, down: bool) -> InputView {
    if down {
        InputView {
            held: v.held.insert(key),
            pressed: if v.held.contains(key) {
                v.pressed
            } else {
                v.pressed.insert(key)
            },
            mouse: v.mouse,
        }
    } else {
        InputView { held: v.held.remove(key), pressed: v.pressed, mouse: v.mouse }
    }
}

/// A sequence of key events applied in order.
pub open spec fn key_events(v: InputView, events: Seq<(KeyId, bool)>) -> InputView
    decreases events.len(),
{
    if events.len() == 0 {
        v
    } else {
        key_transition(
            key_events(v, events.drop_last()),
            events.last().0,
            events.last().1,
        )
    }
}

impl Default for Input {
    fn default() -> (input: Self)
        ensures
            input@ == empty_input(),
    {
        Input { held: HashSet::new(), pressed: HashSet::new(), mouse: HashSet::new() }
    }
}

impl Input {
    pub fn held(&self, key: KeyId) -> (down: bool)
        ensures
            down == self@.held.contains(key),
    {
        self.held.contains(&key)
    }

    pub fn pressed(&self, key: KeyId) -> (pressed: bool)
        ensures
            pressed == self@.pressed.contains(key),
    {
        self.pressed.contains(&key)
    }

    pub fn mouse_held(&self, button: ButtonId) -> (down: bool)
        ensures
            down == self@.mouse.contains(button),
    {
        self.mouse.contains(&button)
    }

    /// Record a key going down or up.
    pub fn key(&mut self, key: KeyId, down: bool)
        ensures
            final(self)@ == key_transition(old(self)@, key, down),
    {
        if down {
            if self.held.insert(key) {
                self.pressed.insert(key);
            }
        } else {
            self.held.remove(&key);
        }
    }

    /// Record a mouse button going down or up.
    pub fn mouse_button(&mut self, button: ButtonId, down: bool)
        ensures
            final(self)@.held == old(self)@.held,
            final(self)@.pressed == old(self)@.pressed,
            final(self)@.mouse == if down {
                old(self)@.mouse.insert(button)
            } else {
                old(self)@.mouse.remove(button)
            },
    {
        if down {
            self.mouse.insert(button);
        } else {
            self.mouse.remove(&button);
        }
    }

    /// The cursor left the window: no button is held any longer.
    pub fn cursor_left(&mut self)
        ensures
            final(self)@.held == old(self)@.held,
            final(self)@.pressed == old(self)@.pressed,
            final(self)@.mouse == Set::<ButtonId>::empty(),
    {
        self.mouse.clear();
    }

    /// The application consumed this frame's presses.
    pub fn end_frame(&mut self)
        ensures
            final(self)@.held == old(self)@.held,
            final(self)@.pressed == Set::<KeyId>::empty(),
            final(self)@.mouse == old(self)@.mouse,
    {
        self.pressed.clear();
    }

    /// Forget everything, as on focus loss or suspension.
    pub fn clear(&mut self)
        ensures
            final(self)@ == empty_input(),
    {
        self.held.clear();
        self.pressed.clear();
        self.mouse.clear();
    }
}

/// A key pressed during a frame stays pressed until the frame ends,
/// whatever key events follow it (in particular its own release).
pub proof fn lemma_press_survives_until_end_of_frame(
    v: InputView,
    key: KeyId,
    events: Seq<(KeyId, bool)>,
)
    requires
        v.pressed.contains(key),
    ensures
        key_events(v, events).pressed.contains(key),
    decreases events.len(),
{
    if events.len() > 0 {
        lemma_press_survives_until_end_of_frame(v, key, events.drop_last());
    }
}

/// A tap, down then up within one frame, is observed as pressed but not held.
pub proof fn lemma_quick_tap_is_pressed_not_held(v: InputView, key: KeyId)
    requires
        !v.held.contains(key),
    ensures
        key_transition(key_transition(v, key, true), key, false).pressed.contains(key),
        !key_transition(key_transition(v, key, true), key, false).held.contains(key),
{
}

/// Repeated down events for a held key (auto-repeat) do not press it again.
pub proof fn lemma_repeat_does_not_retrigger(v: InputView, key: KeyId)
    requires
        v.held.contains(key),
    ensures
        key_transition(v, key, true) == v,
{
    assert(v.held.insert(key) =~= v.held);
}

/// A key event concerns only its own key: every other key keeps its held and pressed state,
/// mouse buttons are untouched, the key is held exactly when the event is a key-down, and a
/// press recorded earlier in the frame is never lost.
pub proof fn lemma_key_event_affects_only_its_key(
    v: InputView,
    key: KeyId,
    down: bool,
    other: KeyId,
)
    requires
        other != key,
    ensures
        key_transition(v, key, down).held.contains(other) == v.held.contains(other),
        key_transition(v, key, down).pressed.contains(other) == v.pressed.contains(other),
        key_transition(v, key, down).mouse == v.mouse,
        key_transition(v, key, down).held.contains(key) == down,
        v.pressed.contains(key) ==> key_transition(v, key, down).pressed.contains(key),
        !down ==> key_transition(v, key, down).pressed == v.pressed,
{
}

/// A key is pressed after a down event exactly when it was not held before it, or was
/// already pressed.
pub proof fn lemma_down_presses_only_new_keys(v: InputView, key: KeyId)
    ensures
        key_transition(v, key, true).pressed.contains(key) <==> (!v.held.contains(key)
            || v.pressed.contains(key)),
        key_transition(v, key, true).held.contains(key),
{
}

} // verus!
