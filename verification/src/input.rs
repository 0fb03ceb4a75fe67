//! Held-key tracking for the six logical player inputs, with edge tracking:
//! a key is just-pressed for the frame it went down, pressed while held, and
//! released otherwise. The external event collector reports edges through
//! `pressed` and `released`, and `update` advances the edge state once per
//! frame.

use vstd::prelude::*;

verus! {

/// Edge-tracked state of one key.
#[derive(Clone, Copy, PartialEq, Eq, Structural, Debug)]
pub enum KeyState {
    JustPressed,
    Pressed,
    Released,
}

/// The logical keys the player controller reads.
#[derive(Clone, Copy, PartialEq, Eq, Structural, Debug)]
pub enum Key {
    TurnLeft,
    TurnRight,
    Forward,
    Back,
    StrafeLeft,
    StrafeRight,
}

/// Current state of every logical key.
pub struct Input {
    pub turn_left: KeyState,
    pub turn_right: KeyState,
    pub forward: KeyState,
    pub back: KeyState,
    pub strafe_left: KeyState,
    pub strafe_right: KeyState,
}

/// `JustPressed` keys age into `Pressed`; everything else is unchanged.
pub open spec fn aged(s: KeyState) -> KeyState {
    if s is JustPressed {
        KeyState::Pressed
    } else {
        s
    }
}

impl Input {
    /// The state of one key.
    pub open spec fn spec_keystate(self, key: Key) -> KeyState {
        match key {
            Key::TurnLeft => self.turn_left,
            Key::TurnRight => self.turn_right,
            Key::Forward => self.forward,
            Key::Back => self.back,
            Key::StrafeLeft => self.strafe_left,
            Key::StrafeRight => self.strafe_right,
        }
    }

    /// The key counts as held.
    pub open spec fn spec_pressed(self, key: Key) -> bool {
        self.spec_keystate(key) is Pressed || self.spec_keystate(key) is JustPressed
    }

    /// All keys start released.
    pub fn new() -> (inp: Input)
        ensures
            forall|k: Key| inp.spec_keystate(k) == KeyState::Released,
    {
        Input {
            turn_left: KeyState::Released,
            turn_right: KeyState::Released,
            forward: KeyState::Released,
            back: KeyState::Released,
            strafe_left: KeyState::Released,
            strafe_right: KeyState::Released,
        }
    }

    /// Advances edge tracking one frame: just-pressed keys become pressed.
    pub fn update(&mut self)
        ensures
            forall|k: Key| final(self).spec_keystate(k) == aged(old(self).spec_keystate(k)),
    {
        if matches!(self.turn_left, KeyState::JustPressed) {
            self.turn_left = KeyState::Pressed;
        }
        if matches!(self.turn_right, KeyState::JustPressed) {
            self.turn_right = KeyState::Pressed;
        }
        if matches!(self.forward, KeyState::JustPressed) {
            self.forward = KeyState::Pressed;
        }
        if matches!(self.back, KeyState::JustPressed) {
            self.back = KeyState::Pressed;
        }
        if matches!(self.strafe_left, KeyState::JustPressed) {
            self.strafe_left = KeyState::Pressed;
        }
        if matches!(self.strafe_right, KeyState::JustPressed) {
            self.strafe_right = KeyState::Pressed;
        }
    }

    /// Records that `key` has just been pressed.
    pub fn pressed(&mut self, key: Key)
        ensures
            final(self).spec_keystate(key) == KeyState::JustPressed,
            forall|k: Key| k != key ==> final(self).spec_keystate(k) == old(self).spec_keystate(k),
    {
        match key {
            Key::TurnLeft => self.turn_left = KeyState::JustPressed,
            Key::TurnRight => self.turn_right = KeyState::JustPressed,
            Key::Forward => self.forward = KeyState::JustPressed,
            Key::Back => self.back = KeyState::JustPressed,
            Key::StrafeLeft => self.strafe_left = KeyState::JustPressed,
            Key::StrafeRight => self.strafe_right = KeyState::JustPressed,
        }
    }

    /// Records that `key` has been released.
    pub fn released(&mut self, key: Key)
        ensures
            final(self).spec_keystate(key) == KeyState::Released,
            forall|k: Key| k != key ==> final(self).spec_keystate(k) == old(self).spec_keystate(k),
    {
        match key {
            Key::TurnLeft => self.turn_left = KeyState::Released,
            Key::TurnRight => self.turn_right = KeyState::Released,
            Key::Forward => self.forward = KeyState::Released,
            Key::Back => self.back = KeyState::Released,
            Key::StrafeLeft => self.strafe_left = KeyState::Released,
            Key::StrafeRight => self.strafe_right = KeyState::Released,
        }
    }

    /// True while `key` is held (pressed or just pressed).
    pub fn get_pressed(&self, key: Key) -> (r: bool)
        ensures
            r == self.spec_pressed(key),
    {
        matches!(self.get_keystate(key), KeyState::Pressed | KeyState::JustPressed)
    }

    /// True in the one frame after `key` went down.
    pub fn get_just_pressed(&self, key: Key) -> (r: bool)
        ensures
            r == (self.spec_keystate(key) is JustPressed),
    {
        matches!(self.get_keystate(key), KeyState::JustPressed)
    }

    /// True while `key` is up.
    pub fn get_released(&self, key: Key) -> (r: bool)
        ensures
            r == (self.spec_keystate(key) is Released),
    {
        matches!(self.get_keystate(key), KeyState::Released)
    }

    /// The tracked state of `key`.
    pub fn get_keystate(&self, key: Key) -> (r: KeyState)
        ensures
            r == self.spec_keystate(key),
    {
        match key {
            Key::TurnLeft => self.turn_left,
            Key::TurnRight => self.turn_right,
            Key::Forward => self.forward,
            Key::Back => self.back,
            Key::StrafeLeft => self.strafe_left,
            Key::StrafeRight => self.strafe_right,
        }
    }
}

} // verus!
