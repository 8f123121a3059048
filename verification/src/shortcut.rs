//! The bridge to the global-shortcut parser. An accelerator string such as
//! `"Shift+Insert"` is parsed into a hotkey, held here as plain values: the
//! modifier bits and the key's code.
use vstd::prelude::*;

use crate::text::{eq_ignore_ascii_case, has_whitespace, starts_with, trimmed};
use global_hotkey::hotkey::HotKey;

verus! {

/// Modifier bits of a hotkey with no modifier.
pub const NO_MODIFIERS: u32 = 0;

/// Modifier bit of Shift (`keyboard_types::Modifiers::SHIFT`).
pub const SHIFT_BITS: u32 = 0x200;

/// Modifier bit of Control (`keyboard_types::Modifiers::CONTROL`).
pub const CONTROL_BITS: u32 = 0x8;

/// Modifier bit of Alt (`keyboard_types::Modifiers::ALT`).
pub const ALT_BITS: u32 = 0x1;

/// Modifier bit of Super (`keyboard_types::Modifiers::SUPER`).
pub const SUPER_BITS: u32 = 0x2000;

/// The code of the key that the parser recognises in the single token
/// `name` (matched without regard to case), or `None` when `name` names no
/// key it knows.
pub uninterp spec fn key_code(name: Seq<char>) -> Option<u32>;

/// A parsed hotkey, as (modifier bits, key code), built from an optional key.
pub open spec fn with_modifiers(mods: u32, key: Option<u32>) -> Option<(u32, u32)> {
    match key {
        Some(k) => Some((mods, k)),
        None => None,
    }
}

/// A token between two `+` separators that the parser takes as it stands:
/// no `+` and no whitespace inside.
pub open spec fn is_plain_token(t: Seq<char>) -> bool {
    !t.contains('+') && !has_whitespace(t)
}

/// The rest of `accel` after `prefix`.
pub open spec fn after_prefix(accel: Seq<char>, prefix: Seq<char>) -> Seq<char> {
    accel.skip(prefix.len() as int)
}

/// Every character of `s` is ASCII.
pub open spec fn is_ascii_text(s: Seq<char>) -> bool {
    forall|i: int| 0 <= i < s.len() ==> (#[trigger] s[i] as u32) < 128
}

/// The `+`-separated tokens of `s`, in order; `s` without `+` is one token.
pub open spec fn split_plus(s: Seq<char>) -> Seq<Seq<char>>
    decreases s.len(),
{
    if s.len() == 0 {
        seq![Seq::<char>::empty()]
    } else {
        let rest = split_plus(s.drop_first());
        if s[0] == '+' {
            seq![Seq::<char>::empty()] + rest
        } else {
            rest.update(0, seq![s[0]] + rest[0])
        }
    }
}

/// The modifier bit a token names, ASCII case aside: `Option`/`Alt`,
/// `Control`/`Ctrl`, `Command`/`Cmd`/`Super`, `Shift`.
pub open spec fn modifier_bit(token: Seq<char>) -> Option<u32> {
    if eq_ignore_ascii_case(token, "OPTION"@) || eq_ignore_ascii_case(token, "ALT"@) {
        Some(ALT_BITS)
    } else if eq_ignore_ascii_case(token, "CONTROL"@) || eq_ignore_ascii_case(token, "CTRL"@) {
        Some(CONTROL_BITS)
    } else if eq_ignore_ascii_case(token, "COMMAND"@) || eq_ignore_ascii_case(token, "CMD"@)
        || eq_ignore_ascii_case(token, "SUPER"@) {
        Some(SUPER_BITS)
    } else if eq_ignore_ascii_case(token, "SHIFT"@) {
        Some(SHIFT_BITS)
    } else {
        None
    }
}

/// A token naming the "Command on macOS, Control elsewhere" modifier, ASCII
/// case aside.
pub open spec fn is_platform_modifier(token: Seq<char>) -> bool {
    ||| eq_ignore_ascii_case(token, "COMMANDORCONTROL"@)
    ||| eq_ignore_ascii_case(token, "COMMANDORCTRL"@)
    ||| eq_ignore_ascii_case(token, "CMDORCTRL"@)
    ||| eq_ignore_ascii_case(token, "CMDORCONTROL"@)
}

/// Parses the remaining tokens of an accelerator of two tokens or more, with
/// the modifier bits `mods` and the key `key` read so far: each token is
/// trimmed; an empty token, or any token after the key, is refused; a
/// modifier word adds its bit; any other token must be a key name. At the
/// end a key must have been read.
pub open spec fn parse_tokens(tokens: Seq<Seq<char>>, mods: u32, key: Option<u32>) -> Option<
    (u32, u32),
>
    decreases tokens.len(),
{
    if tokens.len() == 0 {
        with_modifiers(mods, key)
    } else {
        let t = trimmed(tokens[0]);
        if t.len() == 0 || key is Some {
            None
        } else {
            match modifier_bit(t) {
                Some(b) => parse_tokens(tokens.drop_first(), mods | b, None),
                None => match key_code(t) {
                    Some(k) => parse_tokens(tokens.drop_first(), mods, Some(k)),
                    None => None,
                },
            }
        }
    }
}

/// An ASCII accelerator of two tokens or more in which no token names the
/// platform-dependent modifier: what it parses to depends on it alone.
pub open spec fn is_portable_combination(accel: Seq<char>) -> bool {
    &&& is_ascii_text(accel)
    &&& split_plus(accel).len() >= 2
    &&& forall|i: int|
        0 <= i < split_plus(accel).len() ==> !is_platform_modifier(
            trimmed(#[trigger] split_plus(accel)[i]),
        )
}

/// What `parse_accelerator` is stated to give for `accel`, or `None` when
/// its contract says nothing of `accel`.
pub open spec fn stated_hotkey(accel: Seq<char>) -> Option<Option<(u32, u32)>> {
    if !accel.contains('+') {
        Some(with_modifiers(NO_MODIFIERS, key_code(accel)))
    } else if starts_with(accel, "Shift+"@) && is_plain_token(after_prefix(accel, "Shift+"@)) {
        Some(with_modifiers(SHIFT_BITS, key_code(after_prefix(accel, "Shift+"@))))
    } else if starts_with(accel, "Control+"@) && is_plain_token(after_prefix(accel, "Control+"@)) {
        Some(with_modifiers(CONTROL_BITS, key_code(after_prefix(accel, "Control+"@))))
    } else if is_portable_combination(accel) {
        Some(parse_tokens(split_plus(accel), NO_MODIFIERS, None))
    } else {
        None
    }
}

/// Trusted: calls `HotKey::from_str` of the `global-hotkey` crate (the
/// parser behind the global-shortcut plugin's `Shortcut`) and hands back the
/// parsed hotkey as (modifier bits, key code), `None` when parsing fails.
/// Claimed, from that crate's source: a string without `+` is a single key
/// token (no modifiers); `"Shift+"` or `"Control+"` followed by a plain token
/// is that key with the Shift or the Control bit (a modifier word in the key
/// position, or an empty token, is rejected, and no modifier word is a key
/// name); an ASCII string of two `+`-separated tokens or more is parsed
/// token by token as `parse_tokens` says (modifier words are matched after
/// upper-casing, which for ASCII is ASCII upper-casing). Not stated: a
/// non-ASCII string holding `+` (Unicode upper-casing decides which of its
/// tokens are modifier words), and a string with a `CmdOrCtrl` modifier, whose
/// bit differs between macOS and other systems.
#[verifier::external_body]
pub(crate) fn parse_accelerator(accel: &str) -> (r: Option<(u32, u32)>)
    ensures
        !accel@.contains('+') ==> r == with_modifiers(NO_MODIFIERS, key_code(accel@)),
        starts_with(accel@, "Shift+"@) && is_plain_token(after_prefix(accel@, "Shift+"@)) ==> r
            == with_modifiers(SHIFT_BITS, key_code(after_prefix(accel@, "Shift+"@))),
        starts_with(accel@, "Control+"@) && is_plain_token(after_prefix(accel@, "Control+"@))
            ==> r == with_modifiers(CONTROL_BITS, key_code(after_prefix(accel@, "Control+"@))),
        is_portable_combination(accel@) ==> r == parse_tokens(
            split_plus(accel@),
            NO_MODIFIERS,
            None,
        ),
{
    match accel.parse::<HotKey>() {
        Ok(hotkey) => Some((hotkey.mods.bits(), hotkey.key as u32)),
        Err(_) => None,
    }
}

} // verus!
