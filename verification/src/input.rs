//! Decisions on keyboard and mouse state: reading the key-state word the
//! system returns for a key, and the keystrokes that make up a copy.
use vstd::prelude::*;

verus! {

/// Whether the left button was pressed since the previous poll, from the
/// key-state word of the left mouse button (`None` where no such state can
/// be read): bit 0 of the word is set exactly then.
pub fn left_click_since_last_poll(key_state: Option<i16>) -> (r: bool)
    ensures
        r == match key_state {
            Some(s) => (s as u16) & 1u16 == 1u16,
            None => false,
        },
{
    match key_state {
        Some(s) => (s as u16) & 1u16 == 1u16,
        None => false,
    }
}

/// Whether a key is held down now, from its key-state word: the most
/// significant bit is set exactly then, that is, the word is negative.
pub fn key_is_down(key_state: i16) -> (r: bool)
    ensures
        r == ((key_state as u16) & 0x8000u16 != 0u16),
        r == (key_state < 0),
{
    let r = (key_state as u16) & 0x8000u16 != 0u16;
    assert(((key_state as u16) & 0x8000u16 != 0u16) == (key_state < 0)) by (bit_vector);
    r
}

/// One synthetic key event of a copy.
#[derive(Clone, Copy, Debug, PartialEq, Eq, Structural)]
pub enum Keystroke {
    /// Press the copy modifier (Control; Command on macOS).
    PressModifier,
    /// Press and release the C key.
    ClickC,
    /// Release the copy modifier.
    ReleaseModifier,
}

/// The keystrokes that send a copy, in order. When the Control key is
/// already physically held (the Control+E hotkey fires while it is), the
/// modifier is neither pressed nor released, so the real key state stays
/// as the user holds it; otherwise the modifier is pressed around the C.
pub fn copy_keystrokes(ctrl_already_down: bool) -> (r: Vec<Keystroke>)
    ensures
        r@ == if ctrl_already_down {
            seq![Keystroke::ClickC]
        } else {
            seq![Keystroke::PressModifier, Keystroke::ClickC, Keystroke::ReleaseModifier]
        },
{
    let mut keys: Vec<Keystroke> = Vec::new();
    if !ctrl_already_down {
        keys.push(Keystroke::PressModifier);
    }
    keys.push(Keystroke::ClickC);
    if !ctrl_already_down {
        keys.push(Keystroke::ReleaseModifier);
    }
    assert(keys@ =~= if ctrl_already_down {
        seq![Keystroke::ClickC]
    } else {
        seq![Keystroke::PressModifier, Keystroke::ClickC, Keystroke::ReleaseModifier]
    });
    keys
}

} // verus!
