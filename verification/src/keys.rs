//! Event types, modifier flags and virtual key codes of the keyboard events
//! that the switcher reacts to.

use vstd::prelude::*;

verus! {

pub const EVENT_KEY_DOWN: u32 = 10;

pub const EVENT_FLAGS_CHANGED: u32 = 12;

pub const FLAG_SHIFT: u64 = 0x0002_0000;

pub const FLAG_CONTROL: u64 = 0x0004_0000;

pub const FLAG_ALTERNATE: u64 = 0x0008_0000;

pub const FLAG_COMMAND: u64 = 0x0010_0000;

/// The modifiers that tell hotkeys apart.
pub const MOD_MASK: u64 = 0x001e_0000;

pub const KEY_H: u16 = 4;

pub const KEY_1: u16 = 18;

pub const KEY_2: u16 = 19;

pub const KEY_3: u16 = 20;

pub const KEY_P: u16 = 35;

pub const KEY_RETURN: u16 = 36;

pub const KEY_L: u16 = 37;

pub const KEY_J: u16 = 38;

pub const KEY_K: u16 = 40;

pub const KEY_TAB: u16 = 48;

pub const KEY_GRAVE: u16 = 50;

pub const KEY_ESCAPE: u16 = 53;

pub const KEY_LEFT_ARROW: u16 = 123;

pub const KEY_RIGHT_ARROW: u16 = 124;

pub const KEY_DOWN_ARROW: u16 = 125;

pub const KEY_UP_ARROW: u16 = 126;

/// The mask holds exactly the four modifiers.
pub proof fn law_mask_holds_the_four_modifiers()
    ensures
        MOD_MASK == FLAG_SHIFT | FLAG_CONTROL | FLAG_ALTERNATE | FLAG_COMMAND,
{
    assert(0x001e_0000u64 == 0x0002_0000u64 | 0x0004_0000u64 | 0x0008_0000u64 | 0x0010_0000u64)
        by (bit_vector);
}

} // verus!
