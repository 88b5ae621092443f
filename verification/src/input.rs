//! The 16-key input device, modelled as plain state fed by the host.
//!
//! The core never polls hardware: the hosting environment records which
//! keys are currently held and hands over at most one pending keypress
//! event, which the `await-keypress` instruction consumes. While no event
//! is pending that instruction leaves the machine unchanged and reports
//! that it is awaiting input, so a single-threaded host can integrate the
//! wait into its own event loop.

use vstd::prelude::*;

verus! {

/// True when bit `key & 0xF` of the bitmask `keys` is set.
pub open spec fn spec_key_down(keys: u16, key: u8) -> bool {
    (keys >> ((key & 0xF) as u16)) & 1 == 1
}

/// Current key state as the host last reported it.
pub struct Input {
    /// Bit `k` is set while key `k` (0-15) is held.
    pub pressed_keys: u16,
    /// The next keypress event, if the host has delivered one that the
    /// machine has not yet consumed.
    pub pending_key: Option<u8>,
}

impl Input {
    /// A pending keypress, when present, names one of the 16 keys.
    pub open spec fn wf(&self) -> bool {
        match self.pending_key {
            Some(k) => k < 16,
            None => true,
        }
    }

    /// No key held and no keypress pending.
    pub fn new() -> (r: Self)
        ensures
            r.wf(),
            r.pressed_keys == 0,
            r.pending_key == Option::<u8>::None,
    {
        Input { pressed_keys: 0, pending_key: None }
    }

    /// Whether the key named by the low nibble of `key_value` is held.
    pub fn check_pressed(&self, key_value: u8) -> (r: bool)
        ensures
            r == spec_key_down(self.pressed_keys, key_value),
    {
        let key = key_value & 0x0F;
        proof {
            let k = key_value;
            assert((k & 0xF) < 16) by (bit_vector);
        }
        (self.pressed_keys >> (key as u16)) & 1 == 1
    }

    /// Host-facing: marks a key as held.
    pub fn press_key(&mut self, key: u8)
        requires
            old(self).wf(),
            key < 16,
        ensures
            final(self).wf(),
            final(self).pressed_keys == old(self).pressed_keys | (1u16 << key),
            final(self).pending_key == old(self).pending_key,
    {
        self.pressed_keys = self.pressed_keys | (1u16 << key);
    }

    /// Host-facing: marks a key as no longer held.
    pub fn release_key(&mut self, key: u8)
        requires
            old(self).wf(),
            key < 16,
        ensures
            final(self).wf(),
            final(self).pressed_keys == old(self).pressed_keys & !(1u16 << key),
            final(self).pending_key == old(self).pending_key,
    {
        self.pressed_keys = self.pressed_keys & !(1u16 << key);
    }

    /// Host-facing: delivers a keypress event for `await-keypress` to
    /// consume, replacing any event still pending.
    pub fn provide_keypress(&mut self, key: u8)
        requires
            old(self).wf(),
            key < 16,
        ensures
            final(self).wf(),
            final(self).pending_key == Some(key),
            final(self).pressed_keys == old(self).pressed_keys,
    {
        self.pending_key = Some(key);
    }

    /// Consumes the pending keypress event, if any.
    pub fn take_keypress(&mut self) -> (r: Option<u8>)
        requires
            old(self).wf(),
        ensures
            final(self).wf(),
            r == old(self).pending_key,
            final(self).pending_key == Option::<u8>::None,
            final(self).pressed_keys == old(self).pressed_keys,
            r matches Some(k) ==> k < 16,
    {
        let pending = self.pending_key;
        self.pending_key = None;
        pending
    }
}

} // verus!
