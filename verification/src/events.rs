//! Double-buffered keyboard state.
//!
//! `InputEvent` is the transition that arrived this tick and is reset to
//! `NONE` at every tick boundary; `LastState` latches the most recent
//! transition and persists until the next keyboard event overwrites it.
//! Only the event loop writes either; game logic only reads.

use vstd::prelude::*;

verus! {

/// A key identifier: the platform's virtual key code.
pub type Key = u32;

/// A mouse event; delivered by the event loop but not consumed by the core.
#[derive(Clone, Copy, Debug, PartialEq, Eq, Structural)]
pub enum MouseEvent {
    ENTERED,
    MOVED(i64, i64),
}

/// The keyboard transition of the current tick.
#[derive(Clone, Copy, Debug, PartialEq, Eq, Structural)]
pub enum InputEvent {
    PRESSED(Key),
    RELEASED(Key),
    NONE,
}

/// The most recent keyboard transition, across tick boundaries.
#[derive(Clone, Copy, Debug, PartialEq, Eq, Structural)]
pub enum LastState {
    PRESSED(Key),
    RELEASED(Key),
    NONE,
}

impl InputEvent {
    /// Whether this tick's event is a press of `vk`.
    pub fn is_pressed(&self, vk: Key) -> (r: bool)
        ensures
            r == (*self == InputEvent::PRESSED(vk)),
    {
        match self {
            InputEvent::PRESSED(key) => *key == vk,
            _ => false,
        }
    }

    /// Whether this tick's event is a release of `vk`.
    pub fn is_released(&self, vk: Key) -> (r: bool)
        ensures
            r == (*self == InputEvent::RELEASED(vk)),
    {
        match self {
            InputEvent::RELEASED(key) => *key == vk,
            _ => false,
        }
    }
}

impl LastState {
    /// Whether the most recent transition, on any tick, pressed `vk`.
    pub fn was_pressed(&self, vk: Key) -> (r: bool)
        ensures
            r == (*self == LastState::PRESSED(vk)),
    {
        match self {
            LastState::PRESSED(key) => *key == vk,
            _ => false,
        }
    }

    /// Whether the most recent transition, on any tick, released `vk`.
    pub fn was_released(&self, vk: Key) -> (r: bool)
        ensures
            r == (*self == LastState::RELEASED(vk)),
    {
        match self {
            LastState::RELEASED(key) => *key == vk,
            _ => false,
        }
    }
}

/// The two views of keyboard state, written only by the event loop.
#[derive(Clone, Copy, Debug, PartialEq, Eq, Structural)]
pub struct InputLatch {
    pub current: InputEvent,
    pub last: LastState,
}

/// The latch after a keyboard event: both views take the new transition.
pub open spec fn spec_apply_key(l: InputLatch, key: Key, pressed: bool) -> InputLatch {
    if pressed {
        InputLatch { current: InputEvent::PRESSED(key), last: LastState::PRESSED(key) }
    } else {
        InputLatch { current: InputEvent::RELEASED(key), last: LastState::RELEASED(key) }
    }
}

/// The latch at a tick boundary: the per-tick event resets, the latched
/// state persists.
pub open spec fn spec_end_tick(l: InputLatch) -> InputLatch {
    InputLatch { current: InputEvent::NONE, ..l }
}

impl InputLatch {
    pub fn new() -> (l: InputLatch)
        ensures
            l == (InputLatch { current: InputEvent::NONE, last: LastState::NONE }),
    {
        InputLatch { current: InputEvent::NONE, last: LastState::NONE }
    }

    /// Record a keyboard transition delivered by the event loop.
    pub fn apply_key(&mut self, key: Key, pressed: bool)
        ensures
            *final(self) == spec_apply_key(*old(self), key, pressed),
    {
        if pressed {
            self.current = InputEvent::PRESSED(key);
            self.last = LastState::PRESSED(key);
        } else {
            self.current = InputEvent::RELEASED(key);
            self.last = LastState::RELEASED(key);
        }
    }

    /// Reset the per-tick event at the end of a tick.
    pub fn end_tick(&mut self)
        ensures
            *final(self) == spec_end_tick(*old(self)),
    {
        self.current = InputEvent::NONE;
    }
}

/// A press seen on one tick is the current and the latched event of that
/// tick; the next tick boundary clears the current event while the latch
/// persists, until the release event replaces both.
pub proof fn lemma_latch_press_release(l0: InputLatch, key: Key)
    ensures
        spec_apply_key(l0, key, true).current == InputEvent::PRESSED(key),
        spec_apply_key(l0, key, true).last == LastState::PRESSED(key),
        spec_end_tick(spec_apply_key(l0, key, true)).current == InputEvent::NONE,
        spec_end_tick(spec_apply_key(l0, key, true)).last == LastState::PRESSED(key),
        spec_apply_key(spec_end_tick(spec_apply_key(l0, key, true)), key, false).current
            == InputEvent::RELEASED(key),
        spec_apply_key(spec_end_tick(spec_apply_key(l0, key, true)), key, false).last
            == LastState::RELEASED(key),
{
}

} // verus!
