//! Key state for the sixteen CHIP-8 keys (codes `0x0` to `0xF`), plus the
//! suspend/resume handshake for the wait-for-key opcode: when the core is
//! waiting, the first key press records its code, clears the wait and raises
//! `handle_resume`, and the core performs the register write-back on its next
//! invocation. Mapping physical keys to the sixteen codes is an outside
//! concern; this module only takes the codes.

use vstd::prelude::*;

verus! {

/// Which CHIP-8 keys are held, the most recent press, and the wait/resume
/// flags for the wait-for-key opcode.
pub struct Keyboard {
    /// `keys_down[k]` holds exactly while key `k` is pressed.
    pub keys_down: Vec<bool>,
    /// Raised by the core while it is suspended waiting for a key press.
    pub awaiting_keypress: bool,
    /// Code of the most recently pressed key.
    pub latest_key: u8,
    /// Raised by a key press that ends a wait; tells the core to write the
    /// key back to a register before resuming.
    pub handle_resume: bool,
}

impl Keyboard {
    /// One slot per CHIP-8 key.
    pub open spec fn wf(self) -> bool {
        self.keys_down@.len() == 16
    }

    /// No key held, no wait in progress.
    pub fn new() -> (k: Keyboard)
        ensures
            k.wf(),
            k.keys_down@ == Seq::new(16, |i: int| false),
            !k.awaiting_keypress,
            k.latest_key == 0,
            !k.handle_resume,
    {
        let mut keys_down: Vec<bool> = Vec::new();
        while keys_down.len() < 16
            invariant
                keys_down@ == Seq::new(keys_down@.len(), |i: int| false),
                keys_down@.len() <= 16,
            decreases 16 - keys_down@.len(),
        {
            keys_down.push(false);
        }
        proof {
            assert(keys_down@ =~= Seq::new(16, |i: int| false));
        }
        Keyboard { keys_down, awaiting_keypress: false, latest_key: 0, handle_resume: false }
    }

    /// Is the key with this code currently held? Codes outside `0x0..=0xF`
    /// name no key and are never held.
    pub fn is_key_pressed(&self, key_code: u8) -> (r: bool)
        requires
            self.wf(),
        ensures
            r == (key_code < 16 && self.keys_down@[key_code as int]),
    {
        if key_code < 16 {
            self.keys_down[key_code as usize]
        } else {
            false
        }
    }

    /// A key went down. Codes outside `0x0..=0xF` are ignored. A mapped code
    /// is marked held and recorded as the latest press; if the core was
    /// waiting for a key, the wait ends and the resume flag is raised.
    pub fn on_key_down(&mut self, key_code: u8)
        requires
            old(self).wf(),
        ensures
            final(self).wf(),
            key_code >= 16 ==> *final(self) == *old(self),
            key_code < 16 ==> {
                &&& final(self).keys_down@ == old(self).keys_down@.update(key_code as int, true)
                &&& final(self).latest_key == key_code
                &&& final(self).awaiting_keypress == false
                &&& final(self).handle_resume == (old(self).handle_resume
                    || old(self).awaiting_keypress)
            },
    {
        if key_code >= 16 {
            return;
        }
        self.keys_down.set(key_code as usize, true);
        self.latest_key = key_code;
        if self.awaiting_keypress {
            self.awaiting_keypress = false;
            self.handle_resume = true;
        }
    }

    /// A key went up. Codes outside `0x0..=0xF` are ignored; a mapped code is
    /// no longer held. The wait/resume flags and the latest press stay.
    pub fn on_key_up(&mut self, key_code: u8)
        requires
            old(self).wf(),
        ensures
            final(self).wf(),
            key_code >= 16 ==> *final(self) == *old(self),
            key_code < 16 ==> {
                &&& final(self).keys_down@ == old(self).keys_down@.update(key_code as int, false)
                &&& final(self).latest_key == old(self).latest_key
                &&& final(self).awaiting_keypress == old(self).awaiting_keypress
                &&& final(self).handle_resume == old(self).handle_resume
            },
    {
        if key_code >= 16 {
            return;
        }
        self.keys_down.set(key_code as usize, false);
    }
}

} // verus!
