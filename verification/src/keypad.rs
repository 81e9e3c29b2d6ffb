//! The keypad: sixteen keys, `0` to `F`, and the keys of the host's
//! keyboard that stand for them.

use vstd::prelude::*;
use crate::machine::{spec_set_key, Chip8, Machine};

verus! {

/// A key of the host's keyboard that the keypad is bound to.
#[derive(Clone, Copy, Debug, PartialEq, Eq)]
pub enum HostKey {
    One,
    Two,
    Three,
    Four,
    Five,
    Six,
    Seven,
    Eight,
    Nine,
    Zero,
    Minus,
    Equal,
    P,
    LeftBracket,
    RightBracket,
}

/// The host key bound to keypad key `key`. Keypad key `0` is bound to no
/// host key, and there is no keypad key above `F`.
pub open spec fn spec_key_binding(key: u8) -> Option<HostKey> {
    if key == 0x1 {
        Some(HostKey::One)
    } else if key == 0x2 {
        Some(HostKey::Two)
    } else if key == 0x3 {
        Some(HostKey::Three)
    } else if key == 0x4 {
        Some(HostKey::Four)
    } else if key == 0x5 {
        Some(HostKey::Five)
    } else if key == 0x6 {
        Some(HostKey::Six)
    } else if key == 0x7 {
        Some(HostKey::Seven)
    } else if key == 0x8 {
        Some(HostKey::Eight)
    } else if key == 0x9 {
        Some(HostKey::Nine)
    } else if key == 0xA {
        Some(HostKey::Zero)
    } else if key == 0xB {
        Some(HostKey::Minus)
    } else if key == 0xC {
        Some(HostKey::Equal)
    } else if key == 0xD {
        Some(HostKey::P)
    } else if key == 0xE {
        Some(HostKey::LeftBracket)
    } else if key == 0xF {
        Some(HostKey::RightBracket)
    } else {
        None
    }
}

/// The host key that the host polls for keypad key `key`.
pub fn key_binding(key: u8) -> (bound: Option<HostKey>)
    ensures
        bound == spec_key_binding(key),
{
    match key {
        0x1 => Some(HostKey::One),
        0x2 => Some(HostKey::Two),
        0x3 => Some(HostKey::Three),
        0x4 => Some(HostKey::Four),
        0x5 => Some(HostKey::Five),
        0x6 => Some(HostKey::Six),
        0x7 => Some(HostKey::Seven),
        0x8 => Some(HostKey::Eight),
        0x9 => Some(HostKey::Nine),
        0xA => Some(HostKey::Zero),
        0xB => Some(HostKey::Minus),
        0xC => Some(HostKey::Equal),
        0xD => Some(HostKey::P),
        0xE => Some(HostKey::LeftBracket),
        0xF => Some(HostKey::RightBracket),
        _ => None,
    }
}

/// The lowest bound key below `below` that is held now and was not held
/// before: the key press that a poll of the keyboard delivers first.
pub open spec fn first_pressed(keyboard: Seq<bool>, held: Seq<bool>, below: int) -> Option<u8>
    decreases below,
{
    if below <= 1 {
        None
    } else {
        match first_pressed(keyboard, held, below - 1) {
            Some(key) => Some(key),
            None => if held[below - 1] && !keyboard[below - 1] {
                Some((below - 1) as u8)
            } else {
                None
            },
        }
    }
}

/// The keyboard after a poll that found the bound keys below `below` as
/// `held` says.
pub open spec fn polled_keyboard(keyboard: Seq<bool>, held: Seq<bool>, below: int) -> Seq<bool> {
    Seq::new(
        16,
        |key: int|
            if 1 <= key < below {
                held[key]
            } else {
                keyboard[key]
            },
    )
}

/// What a poll of the bound keys below `below` makes of `m`: each of them
/// is held or not as `held` says, and a machine that waits for a key
/// receives the first that was pressed.
pub open spec fn spec_poll(m: Machine, held: Seq<bool>, below: int) -> Machine {
    let keyboard = polled_keyboard(m.keyboard, held, below);
    match (m.pending_key, first_pressed(m.keyboard, held, below)) {
        (Some(x), Some(key)) => Machine {
            keyboard,
            v: m.v.update(x as int, key),
            pending_key: None,
            ..m
        },
        _ => Machine { keyboard, ..m },
    }
}

impl Chip8 {
    /// Takes over the state of the host's keyboard: `held[key]` says whether
    /// the host key bound to keypad key `key` is down. Keypad key `0` has no
    /// binding and stays as it is. If the machine waits for a key, the
    /// lowest key that went down since the last poll is delivered to it.
    pub fn process_input(&mut self, held: &[bool; 16])
        requires
            old(self).wf(),
        ensures
            final(self).wf(),
            final(self)@ == spec_poll(old(self)@, held@, 16),
    {
        let ghost before = self@;
        let mut key: u8 = 1;
        assert(self@.keyboard =~= polled_keyboard(before.keyboard, held@, 1));
        while key < 16
            invariant
                1 <= key <= 16,
                before.wf(),
                self.wf(),
                self@ == spec_poll(before, held@, key as int),
            decreases 16 - key,
        {
            let ghost now = self@;
            let pressed: bool = held[key as usize];
            let delivered = self.set_key(key, pressed);
            proof {
                assert(delivered is Ok);
                assert(spec_set_key(now, key, pressed) is Ok);
                assert(now.keyboard[key as int] == before.keyboard[key as int]);
                assert(self@.keyboard =~= polled_keyboard(before.keyboard, held@, key + 1));
            }
            key = key + 1;
        }
    }
}

} // verus!
