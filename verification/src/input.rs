//! The per-tick input snapshot: key and button states, edge flags for
//! "changed this frame", and mouse bookkeeping.
//!
//! Raw event capture belongs to the windowing layer outside this crate;
//! it hands events in as plain values (a key code, a button index, a
//! fixed-point cursor position) and performs the returned cursor actions.
//! The frame loop clears the per-frame edge state at the end of every
//! tick.

use vstd::prelude::*;
use crate::algebra::{Vec2, vec2_zero_s, vec2_add_s, vec2_sub_s, fdiv};
use crate::fx::{Fx, fx_add, fx_div};

verus! {

/// Whether a key or button is held down.
#[derive(Debug, Clone, Copy, PartialEq, Eq, Structural)]
pub enum KeyState {
    /// Held down.
    Pressed,
    /// Not held down.
    Released,
}

/// Mathematical model of the input snapshot.
#[verifier::ext_equal]
pub struct InputV {
    /// Key states, an association list by key code; earlier entries win.
    pub key_states: Seq<(u32, KeyState)>,
    /// Keys whose state changed this frame.
    pub key_just_updated: Seq<u32>,
    /// Button states, an association list by button index.
    pub button_states: Seq<(u8, KeyState)>,
    /// Buttons whose state changed this frame.
    pub button_just_updated: Seq<u8>,
    /// Accumulated wheel movement.
    pub mouse_wheel_delta: Fx,
    /// Current cursor position.
    pub mouse_pos: Vec2,
    /// Accumulated cursor movement this frame.
    pub mouse_delta: Vec2,
    /// The cursor is confined and re-centred every move.
    pub confined: bool,
    /// Lock the cursor before handling the next event.
    pub lock_on_next_frame: bool,
    /// Unlock the cursor before handling the next event.
    pub unlock_on_next_frame: bool,
}

/// The input snapshot consumed read-only by components during a tick.
#[derive(Debug, Clone, PartialEq, Eq)]
pub struct InputManager {
    /// Key states, an association list by key code.
    pub key_states: Vec<(u32, KeyState)>,
    /// Keys whose state changed this frame.
    pub key_just_updated: Vec<u32>,
    /// Button states, an association list by button index.
    pub button_states: Vec<(u8, KeyState)>,
    /// Buttons whose state changed this frame.
    pub button_just_updated: Vec<u8>,
    /// Accumulated wheel movement.
    pub mouse_wheel_delta: Fx,
    /// Current cursor position.
    pub mouse_pos: Vec2,
    /// Accumulated cursor movement this frame.
    pub mouse_delta: Vec2,
    /// The cursor is confined and re-centred every move.
    pub confined: bool,
    /// Lock the cursor before handling the next event.
    pub lock_on_next_frame: bool,
    /// Unlock the cursor before handling the next event.
    pub unlock_on_next_frame: bool,
}

impl View for InputManager {
    type V = InputV;

    open spec fn view(&self) -> InputV {
        InputV {
            key_states: self.key_states@,
            key_just_updated: self.key_just_updated@,
            button_states: self.button_states@,
            button_just_updated: self.button_just_updated@,
            mouse_wheel_delta: self.mouse_wheel_delta,
            mouse_pos: self.mouse_pos,
            mouse_delta: self.mouse_delta,
            confined: self.confined,
            lock_on_next_frame: self.lock_on_next_frame,
            unlock_on_next_frame: self.unlock_on_next_frame,
        }
    }
}

/// First state recorded for a code in an association list, if any.
pub open spec fn assoc_lookup_s<K>(states: Seq<(K, KeyState)>, code: K) -> Option<KeyState>
    decreases states.len(),
{
    if states.len() == 0 {
        None
    } else if states[0].0 == code {
        Some(states[0].1)
    } else {
        assoc_lookup_s(states.drop_first(), code)
    }
}

/// The state of a code: its recorded state, or released when none was ever
/// recorded.
pub open spec fn state_of_s<K>(states: Seq<(K, KeyState)>, code: K) -> KeyState {
    match assoc_lookup_s(states, code) {
        Some(s) => s,
        None => KeyState::Released,
    }
}

/// Replace the first entry for a code, or append one.
pub open spec fn assoc_upsert_s<K>(states: Seq<(K, KeyState)>, code: K, st: KeyState) -> Seq<
    (K, KeyState),
>
    decreases states.len(),
{
    if states.len() == 0 {
        seq![(code, st)]
    } else if states[0].0 == code {
        states.update(0, (code, st))
    } else {
        seq![states[0]] + assoc_upsert_s(states.drop_first(), code, st)
    }
}

/// One key or button event changes the snapshot: the state is recorded,
/// and the code joins the changed-this-frame list when the event is a
/// release or the previously recorded state was a press that this event
/// repeats from released.
pub open spec fn key_event_s(i: InputV, code: u32, pressed: bool) -> InputV {
    let st = if pressed {
        KeyState::Pressed
    } else {
        KeyState::Released
    };
    let edge = !pressed || assoc_lookup_s(i.key_states, code) == Some(KeyState::Released);
    InputV {
        key_states: assoc_upsert_s(i.key_states, code, st),
        key_just_updated: if edge {
            i.key_just_updated.push(code)
        } else {
            i.key_just_updated
        },
        ..i
    }
}

/// A button event, exactly as a key event.
pub open spec fn button_event_s(i: InputV, button: u8, pressed: bool) -> InputV {
    let st = if pressed {
        KeyState::Pressed
    } else {
        KeyState::Released
    };
    let edge = !pressed || assoc_lookup_s(i.button_states, button) == Some(KeyState::Released);
    InputV {
        button_states: assoc_upsert_s(i.button_states, button, st),
        button_just_updated: if edge {
            i.button_just_updated.push(button)
        } else {
            i.button_just_updated
        },
        ..i
    }
}

/// End-of-tick reset: the changed-this-frame lists and the accumulated
/// cursor movement are cleared; everything else is kept.
pub open spec fn next_frame_s(i: InputV) -> InputV {
    InputV {
        key_just_updated: Seq::empty(),
        button_just_updated: Seq::empty(),
        mouse_delta: vec2_zero_s(),
        ..i
    }
}

impl InputManager {
    /// A fresh snapshot: nothing recorded, cursor free, with a lock and an
    /// unlock both pending for the first event.
    pub fn new() -> (r: InputManager)
        ensures
            r@.key_states.len() == 0,
            r@.key_just_updated.len() == 0,
            r@.button_states.len() == 0,
            r@.button_just_updated.len() == 0,
            r@.mouse_wheel_delta == 0i64,
            r@.mouse_pos == vec2_zero_s(),
            r@.mouse_delta == vec2_zero_s(),
            !r@.confined,
            r@.lock_on_next_frame,
            r@.unlock_on_next_frame,
    {
        InputManager {
            key_states: Vec::new(),
            key_just_updated: Vec::new(),
            button_states: Vec::new(),
            button_just_updated: Vec::new(),
            mouse_wheel_delta: 0,
            mouse_pos: Vec2 { x: 0, y: 0 },
            mouse_delta: Vec2 { x: 0, y: 0 },
            confined: false,
            lock_on_next_frame: true,
            unlock_on_next_frame: true,
        }
    }

    /// The recorded state of a key, released when none was recorded.
    pub fn get_key_state(&self, key_code: u32) -> (r: KeyState)
        ensures
            r == state_of_s(self@.key_states, key_code),
    {
        let n = self.key_states.len();
        proof {
            assert(self@.key_states.skip(0) =~= self@.key_states);
        }
        for i in 0..n
            invariant
                n == self@.key_states.len(),
                assoc_lookup_s(self@.key_states, key_code) == assoc_lookup_s(
                    self@.key_states.skip(i as int),
                    key_code,
                ),
        {
            proof {
                assert(self@.key_states.skip(i as int)[0] == self@.key_states[i as int]);
                assert(self@.key_states.skip(i as int).drop_first() == self@.key_states.skip(
                    i as int + 1));
            }
            if self.key_states[i].0 == key_code {
                return self.key_states[i].1;
            }
        }
        proof {
            assert(self@.key_states.skip(n as int).len() == 0);
        }
        KeyState::Released
    }

    /// The key changed state this frame and is now pressed.
    pub fn is_key_down(&self, key_code: u32) -> (r: bool)
        ensures
            r == (state_of_s(self@.key_states, key_code) == KeyState::Pressed
                && self@.key_just_updated.contains(key_code)),
    {
        self.get_key_state(key_code) == KeyState::Pressed && contains_u32(
            &self.key_just_updated,
            key_code,
        )
    }

    /// The key is currently pressed.
    pub fn is_key_pressed(&self, key_code: u32) -> (r: bool)
        ensures
            r == (state_of_s(self@.key_states, key_code) == KeyState::Pressed),
    {
        self.get_key_state(key_code) == KeyState::Pressed
    }

    /// The key changed state this frame and is now released.
    pub fn is_key_released(&self, key_code: u32) -> (r: bool)
        ensures
            r == (state_of_s(self@.key_states, key_code) == KeyState::Released
                && self@.key_just_updated.contains(key_code)),
    {
        self.get_key_state(key_code) == KeyState::Released && contains_u32(
            &self.key_just_updated,
            key_code,
        )
    }

    /// The key is currently released.
    pub fn is_key_up(&self, key_code: u32) -> (r: bool)
        ensures
            r == (state_of_s(self@.key_states, key_code) == KeyState::Released),
    {
        self.get_key_state(key_code) == KeyState::Released
    }

    /// The recorded state of a button, released when none was recorded.
    pub fn get_button_state(&self, button: u8) -> (r: KeyState)
        ensures
            r == state_of_s(self@.button_states, button),
    {
        let n = self.button_states.len();
        proof {
            assert(self@.button_states.skip(0) =~= self@.button_states);
        }
        for i in 0..n
            invariant
                n == self@.button_states.len(),
                assoc_lookup_s(self@.button_states, button) == assoc_lookup_s(
                    self@.button_states.skip(i as int),
                    button,
                ),
        {
            proof {
                assert(self@.button_states.skip(i as int)[0] == self@.button_states[i as int]);
                assert(self@.button_states.skip(i as int).drop_first()
                    == self@.button_states.skip(i as int + 1));
            }
            if self.button_states[i].0 == button {
                return self.button_states[i].1;
            }
        }
        proof {
            assert(self@.button_states.skip(n as int).len() == 0);
        }
        KeyState::Released
    }

    /// The button changed state this frame and is now pressed.
    pub fn is_button_down(&self, button: u8) -> (r: bool)
        ensures
            r == (state_of_s(self@.button_states, button) == KeyState::Pressed
                && self@.button_just_updated.contains(button)),
    {
        self.get_button_state(button) == KeyState::Pressed && contains_u8(
            &self.button_just_updated,
            button,
        )
    }

    /// The button is currently pressed.
    pub fn is_button_pressed(&self, button: u8) -> (r: bool)
        ensures
            r == (state_of_s(self@.button_states, button) == KeyState::Pressed),
    {
        self.get_button_state(button) == KeyState::Pressed
    }

    /// The button changed state this frame and is now released.
    pub fn is_button_released(&self, button: u8) -> (r: bool)
        ensures
            r == (state_of_s(self@.button_states, button) == KeyState::Released
                && self@.button_just_updated.contains(button)),
    {
        self.get_button_state(button) == KeyState::Released && contains_u8(
            &self.button_just_updated,
            button,
        )
    }

    /// The current cursor position.
    pub fn get_mouse_pos(&self) -> (r: Vec2)
        ensures
            r == self@.mouse_pos,
    {
        self.mouse_pos
    }

    /// The accumulated cursor movement this frame.
    pub fn get_mouse_delta(&self) -> (r: Vec2)
        ensures
            r == self@.mouse_delta,
    {
        self.mouse_delta
    }

    /// Record a key event.
    pub fn process_key_event(&mut self, key_code: u32, pressed: bool)
        ensures
            final(self)@ == key_event_s(old(self)@, key_code, pressed),
    {
        let st = if pressed {
            KeyState::Pressed
        } else {
            KeyState::Released
        };
        let prior = self.lookup_key_index(key_code);
        let edge = !pressed || match prior {
            Some(ix) => self.key_states[ix].1 == KeyState::Released,
            None => false,
        };
        if edge {
            self.key_just_updated.push(key_code);
        }
        match prior {
            Some(ix) => {
                self.key_states[ix] = (key_code, st);
                proof {
                    lemma_upsert_at_first_index(old(self)@.key_states, key_code, st, ix as int);
                }
            },
            None => {
                self.key_states.push((key_code, st));
                proof {
                    lemma_upsert_absent(old(self)@.key_states, key_code, st);
                }
            },
        }
    }

    /// Record a button event.
    pub fn process_button_event(&mut self, button: u8, pressed: bool)
        ensures
            final(self)@ == button_event_s(old(self)@, button, pressed),
    {
        let st = if pressed {
            KeyState::Pressed
        } else {
            KeyState::Released
        };
        let prior = self.lookup_button_index(button);
        let edge = !pressed || match prior {
            Some(ix) => self.button_states[ix].1 == KeyState::Released,
            None => false,
        };
        if edge {
            self.button_just_updated.push(button);
        }
        match prior {
            Some(ix) => {
                self.button_states[ix] = (button, st);
                proof {
                    lemma_upsert_at_first_index(old(self)@.button_states, button, st, ix as int);
                }
            },
            None => {
                self.button_states.push((button, st));
                proof {
                    lemma_upsert_absent(old(self)@.button_states, button, st);
                }
            },
        }
    }

    /// Record wheel movement.
    pub fn process_scroll(&mut self, delta_y: Fx)
        ensures
            final(self)@ == (InputV {
                mouse_wheel_delta: crate::algebra::fadd(old(self)@.mouse_wheel_delta, delta_y),
                ..old(self)@
            }),
    {
        self.mouse_wheel_delta = fx_add(self.mouse_wheel_delta, delta_y);
    }

    /// Record a cursor move to `(x, y)` in a window of the given size. The
    /// accumulated delta always grows by the movement from the old
    /// position. When the cursor is confined it is re-centred: the result
    /// is the centre the caller must move the real cursor to, absent when
    /// the move already reports the centre (or when unconfined).
    pub fn process_cursor_moved(&mut self, x: Fx, y: Fx, window_w: Fx, window_h: Fx) -> (r:
        Option<Vec2>)
        ensures
            final(self)@.mouse_delta == vec2_add_s(
                old(self)@.mouse_delta,
                vec2_sub_s(old(self)@.mouse_pos, Vec2 { x, y }),
            ),
            !old(self)@.confined ==> r is None && final(self)@ == (InputV {
                mouse_delta: final(self)@.mouse_delta,
                mouse_pos: Vec2 { x, y },
                ..old(self)@
            }),
            old(self)@.confined ==> {
                let centre = Vec2 { x: fdiv(window_w, 131072i64), y: fdiv(window_h, 131072i64) };
                if centre == (Vec2 { x, y }) {
                    r is None && final(self)@ == (InputV {
                        mouse_delta: final(self)@.mouse_delta,
                        ..old(self)@
                    })
                } else {
                    r == Some(centre) && final(self)@ == (InputV {
                        mouse_delta: final(self)@.mouse_delta,
                        mouse_pos: centre,
                        ..old(self)@
                    })
                }
            },
    {
        let newp = Vec2 { x, y };
        self.mouse_delta = self.mouse_delta.add(&self.mouse_pos.sub(&newp));
        if self.confined {
            let centre = Vec2 { x: fx_div(window_w, 131072), y: fx_div(window_h, 131072) };
            if centre.x == x && centre.y == y {
                None
            } else {
                self.mouse_pos = centre;
                Some(centre)
            }
        } else {
            self.mouse_pos = newp;
            None
        }
    }

    /// Ask for the cursor to be locked or unlocked before the next event.
    pub fn set_mouse_mode(&mut self, locked: bool)
        ensures
            locked ==> final(self)@ == (InputV { lock_on_next_frame: true, ..old(self)@ }),
            !locked ==> final(self)@ == (InputV { unlock_on_next_frame: true, ..old(self)@ }),
    {
        if locked {
            self.lock_on_next_frame = true;
        } else {
            self.unlock_on_next_frame = true;
        }
    }

    /// Take the pending lock or unlock request, the lock winning when both
    /// are pending; the caller performs it on the real cursor and records
    /// whether confinement resulted via `set_confined`.
    pub fn take_pending_mouse_mode(&mut self) -> (r: Option<bool>)
        ensures
            old(self)@.lock_on_next_frame ==> r == Some(true) && final(self)@ == (InputV {
                lock_on_next_frame: false,
                ..old(self)@
            }),
            !old(self)@.lock_on_next_frame && old(self)@.unlock_on_next_frame ==> r == Some(false)
                && final(self)@ == (InputV { unlock_on_next_frame: false, ..old(self)@ }),
            !old(self)@.lock_on_next_frame && !old(self)@.unlock_on_next_frame ==> r is None
                && *final(self) == *old(self),
    {
        if self.lock_on_next_frame {
            self.lock_on_next_frame = false;
            Some(true)
        } else if self.unlock_on_next_frame {
            self.unlock_on_next_frame = false;
            Some(false)
        } else {
            None
        }
    }

    /// Record whether the real cursor ended up confined.
    pub fn set_confined(&mut self, confined: bool)
        ensures
            final(self)@ == (InputV { confined, ..old(self)@ }),
    {
        self.confined = confined;
    }

    /// End-of-tick reset: clear the changed-this-frame lists and the
    /// accumulated cursor movement.
    pub fn next_frame(&mut self)
        ensures
            final(self)@ == next_frame_s(old(self)@),
    {
        self.key_just_updated.clear();
        self.button_just_updated.clear();
        self.mouse_delta = Vec2 { x: 0, y: 0 };
    }

    /// Index of the first entry for a key code.
    fn lookup_key_index(&self, key_code: u32) -> (r: Option<usize>)
        ensures
            match r {
                Some(ix) => ix < self@.key_states.len() && self@.key_states[ix as int].0
                    == key_code && forall|j: int| 0 <= j < ix ==> self@.key_states[j].0
                    != key_code,
                None => forall|j: int| 0 <= j < self@.key_states.len()
                    ==> self@.key_states[j].0 != key_code,
            },
    {
        let n = self.key_states.len();
        for i in 0..n
            invariant
                n == self@.key_states.len(),
                forall|j: int| 0 <= j < i ==> self@.key_states[j].0 != key_code,
        {
            if self.key_states[i].0 == key_code {
                return Some(i);
            }
        }
        None
    }

    /// Index of the first entry for a button.
    fn lookup_button_index(&self, button: u8) -> (r: Option<usize>)
        ensures
            match r {
                Some(ix) => ix < self@.button_states.len() && self@.button_states[ix as int].0
                    == button && forall|j: int| 0 <= j < ix ==> self@.button_states[j].0
                    != button,
                None => forall|j: int| 0 <= j < self@.button_states.len()
                    ==> self@.button_states[j].0 != button,
            },
    {
        let n = self.button_states.len();
        for i in 0..n
            invariant
                n == self@.button_states.len(),
                forall|j: int| 0 <= j < i ==> self@.button_states[j].0 != button,
        {
            if self.button_states[i].0 == button {
                return Some(i);
            }
        }
        None
    }
}

/// A search that found the first entry for a code agrees with both the
/// recursive lookup and the recursive upsert.
proof fn lemma_upsert_at_first_index<K>(states: Seq<(K, KeyState)>, code: K, st: KeyState,
    ix: int)
    requires
        0 <= ix < states.len(),
        states[ix].0 == code,
        forall|j: int| 0 <= j < ix ==> states[j].0 != code,
    ensures
        assoc_lookup_s(states, code) == Some(states[ix].1),
        assoc_upsert_s(states, code, st) =~= states.update(ix, (code, st)),
    decreases states.len(),
{
    if ix == 0 {
    } else {
        lemma_upsert_at_first_index(states.drop_first(), code, st, ix - 1);
        assert(states.drop_first().update(ix - 1, (code, st)) =~= states.update(
            ix,
            (code, st),
        ).drop_first());
        assert(seq![states[0]] + states.update(ix, (code, st)).drop_first() =~= states.update(
            ix,
            (code, st),
        ));
    }
}

/// A search that found no entry for a code agrees with both the recursive
/// lookup and the recursive upsert.
proof fn lemma_upsert_absent<K>(states: Seq<(K, KeyState)>, code: K, st: KeyState)
    requires
        forall|j: int| 0 <= j < states.len() ==> states[j].0 != code,
    ensures
        assoc_lookup_s(states, code) is None,
        assoc_upsert_s(states, code, st) =~= states.push((code, st)),
    decreases states.len(),
{
    if states.len() == 0 {
    } else {
        lemma_upsert_absent(states.drop_first(), code, st);
        assert(seq![states[0]] + states.drop_first().push((code, st)) =~= states.push(
            (code, st),
        ));
    }
}

/// Whether a `u32` list contains a value.
fn contains_u32(list: &Vec<u32>, value: u32) -> (r: bool)
    ensures
        r == list@.contains(value),
{
    let n = list.len();
    for i in 0..n
        invariant
            n == list@.len(),
            forall|j: int| 0 <= j < i ==> list@[j] != value,
    {
        if list[i] == value {
            proof {
                assert(list@.contains(value));
            }
            return true;
        }
    }
    false
}

/// Whether a `u8` list contains a value.
fn contains_u8(list: &Vec<u8>, value: u8) -> (r: bool)
    ensures
        r == list@.contains(value),
{
    let n = list.len();
    for i in 0..n
        invariant
            n == list@.len(),
            forall|j: int| 0 <= j < i ==> list@[j] != value,
    {
        if list[i] == value {
            proof {
                assert(list@.contains(value));
            }
            return true;
        }
    }
    false
}

} // verus!
