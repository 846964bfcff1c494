//! The per-frame snapshot of the directional inputs and the quit flag,
//! and the pure fold of key events into it.  Polling the window system
//! for events happens outside the library; it hands each event in as a
//! `Key` and a pressed/released flag.

use vstd::prelude::*;

verus! {

/// The boolean input flags one frame sees.
#[derive(Clone, Copy, Debug, PartialEq, Eq, Structural)]
pub struct KeyboardState {
    pub w: bool,
    pub a: bool,
    pub s: bool,
    pub d: bool,
    pub esc: bool,
}

/// A key the simulation reacts to.
#[derive(Clone, Copy, Debug, PartialEq, Eq, Structural)]
pub enum Key {
    W,
    A,
    S,
    D,
    Escape,
}

impl KeyboardState {
    /// All flags released.
    pub fn new() -> (ks: KeyboardState)
        ensures
            ks == (KeyboardState { w: false, a: false, s: false, d: false, esc: false }),
    {
        KeyboardState { w: false, a: false, s: false, d: false, esc: false }
    }

    /// Folds one key event into the snapshot: a press sets exactly that
    /// key's flag, a release clears exactly it, and every other flag is
    /// untouched.
    pub fn apply_key_event(&self, key: Key, pressed: bool) -> (r: KeyboardState)
        ensures
            r.w == (if key == Key::W { pressed } else { self.w }),
            r.a == (if key == Key::A { pressed } else { self.a }),
            r.s == (if key == Key::S { pressed } else { self.s }),
            r.d == (if key == Key::D { pressed } else { self.d }),
            r.esc == (if key == Key::Escape { pressed } else { self.esc }),
    {
        let mut r = *self;
        match key {
            Key::W => {
                r.w = pressed;
            },
            Key::A => {
                r.a = pressed;
            },
            Key::S => {
                r.s = pressed;
            },
            Key::D => {
                r.d = pressed;
            },
            Key::Escape => {
                r.esc = pressed;
            },
        }
        r
    }
}

} // verus!
