//! The hotkey rules: which keys may serve as the remappable base key, which
//! accelerators a base key derives, and which action a fired shortcut means.
use vstd::prelude::*;

use crate::shortcut::{
    after_prefix, is_plain_token, key_code, parse_accelerator, stated_hotkey, with_modifiers,
    CONTROL_BITS, NO_MODIFIERS, SHIFT_BITS,
};
use crate::text::{
    chars_contain, chars_eq_ignore_ascii_case, chars_equal, chars_have_whitespace, chars_of,
    chars_start_with, eq_ignore_ascii_case, has_whitespace, is_unicode_whitespace, starts_with,
    trailing_whitespace_is_trimmed, trim, trimmed,
};
use vstd::utf8::encode_utf8;

verus! {

/// The base key used when none (or no valid one) is stored.
pub const DEFAULT_HOTKEY_BASE: &'static str = "Insert";

/// Action of the base key and of the fixed extra accelerator.
pub const ANALYZE: &'static str = "analyze";

/// Action of Shift + base key.
pub const TOGGLE: &'static str = "toggle";

/// Rejection: empty, a combination, or whitespace.
pub const INVALID_KEY: &'static str = "invalid key";

/// Rejection: a key a global grab must never own.
pub const RESERVED_KEY: &'static str = "reserved key (Escape, Enter, chat)";

/// Rejection: a key that produces text.
pub const TYPING_KEY: &'static str = "typing key — it would get swallowed everywhere, chat included";

/// Rejection: a key the shortcut parser does not know.
pub const UNSUPPORTED_KEY: &'static str = "unsupported key";

/// Keys a global grab must never own (matched without regard to ASCII case).
pub open spec fn hotkey_blocklist() -> Seq<Seq<char>> {
    seq!["Escape"@, "Enter"@, "NumpadEnter"@, "Space"@, "Tab"@, "Backspace"@]
}

/// Punctuation key codes that produce text.
pub open spec fn printable_key_names() -> Seq<Seq<char>> {
    seq![
        "Comma"@,
        "Period"@,
        "Slash"@,
        "Semicolon"@,
        "Quote"@,
        "BracketLeft"@,
        "BracketRight"@,
        "Backslash"@,
        "Backquote"@,
        "Minus"@,
        "Equal"@,
        "IntlBackslash"@,
        "IntlRo"@,
        "IntlYen"@,
    ]
}

/// A W3C `KeyboardEvent.code` that produces text: `KeyA`..`KeyZ` (four bytes
/// starting with `Key`), `Digit0`..`Digit9` (six bytes starting with
/// `Digit`), every `Numpad` key but `NumpadEnter`, and the punctuation keys.
pub open spec fn spec_is_printable_key(base: Seq<char>) -> bool {
    ||| encode_utf8(base).len() == 4 && starts_with(base, "Key"@)
    ||| encode_utf8(base).len() == 6 && starts_with(base, "Digit"@)
    ||| starts_with(base, "Numpad"@) && base != "NumpadEnter"@
    ||| printable_key_names().contains(base)
}

/// `base` matches a blocklisted key up to ASCII case.
pub open spec fn is_blocklisted(base: Seq<char>) -> bool {
    exists|i: int|
        0 <= i < hotkey_blocklist().len() && eq_ignore_ascii_case(
            #[trigger] hotkey_blocklist()[i],
            base,
        )
}

/// Why `base` cannot serve as the base key, or `None` when it can. The rules
/// apply in order: empty, holding `+` or holding whitespace; blocklisted;
/// printable; not a key the shortcut parser knows (then neither `base` nor
/// `Shift+base` parses).
pub open spec fn hotkey_base_rejection(base: Seq<char>) -> Option<Seq<char>> {
    if base.len() == 0 || base.contains('+') || has_whitespace(base) {
        Some(INVALID_KEY@)
    } else if is_blocklisted(base) {
        Some(RESERVED_KEY@)
    } else if spec_is_printable_key(base) {
        Some(TYPING_KEY@)
    } else if key_code(base) is None {
        Some(UNSUPPORTED_KEY@)
    } else {
        None
    }
}

/// `base` can serve as the base key.
pub open spec fn is_valid_hotkey_base(base: Seq<char>) -> bool {
    hotkey_base_rejection(base) is None
}

/// The accelerators a base key derives: the base itself for `analyze`,
/// Shift + base for `toggle`.
pub open spec fn spec_hotkey_accels(base: Seq<char>) -> Seq<(Seq<char>, Seq<char>)> {
    seq![(base, ANALYZE@), ("Shift+"@ + base, TOGGLE@)]
}

/// The fixed accelerators registered whatever the base: Control+E for
/// `analyze`.
pub open spec fn extra_hotkeys() -> Seq<(Seq<char>, Seq<char>)> {
    seq![("Control+KeyE"@, ANALYZE@)]
}

/// Every accelerator live for a base key: its own, then the fixed ones.
pub open spec fn spec_all_accels(base: Seq<char>) -> Seq<(Seq<char>, Seq<char>)> {
    spec_hotkey_accels(base) + extra_hotkeys()
}

/// An accelerator list as character sequences.
pub open spec fn accels_view(v: Seq<(String, &'static str)>) -> Seq<(Seq<char>, Seq<char>)> {
    v.map_values(|p: (String, &'static str)| (p.0@, p.1@))
}

/// Whether `base` is a W3C key code that produces text, so that a global grab
/// of it would swallow typing everywhere.
pub fn is_printable_key(base: &str) -> (r: bool)
    ensures
        r == spec_is_printable_key(base@),
{
    let cs = chars_of(base);
    let key_prefix = chars_of("Key");
    let digit_prefix = chars_of("Digit");
    let numpad_prefix = chars_of("Numpad");
    let numpad_enter = chars_of("NumpadEnter");
    if base.as_bytes().len() == 4 && chars_start_with(&cs, &key_prefix) {
        return true;
    }
    if base.as_bytes().len() == 6 && chars_start_with(&cs, &digit_prefix) {
        return true;
    }
    if chars_start_with(&cs, &numpad_prefix) && !chars_equal(&cs, &numpad_enter) {
        return true;
    }
    let names: Vec<&'static str> = vec![
        "Comma",
        "Period",
        "Slash",
        "Semicolon",
        "Quote",
        "BracketLeft",
        "BracketRight",
        "Backslash",
        "Backquote",
        "Minus",
        "Equal",
        "IntlBackslash",
        "IntlRo",
        "IntlYen",
    ];
    assert(names@.map_values(|s: &'static str| s@) =~= printable_key_names());
    let mut i: usize = 0;
    while i < names.len()
        invariant
            cs@ == base@,
            names@.map_values(|s: &'static str| s@) == printable_key_names(),
            i <= names.len(),
            forall|j: int| 0 <= j < i ==> printable_key_names()[j] != base@,
        decreases names.len() - i,
    {
        let name = chars_of(names[i]);
        assert(names@.map_values(|s: &'static str| s@)[i as int] == names@[i as int]@);
        if chars_equal(&name, &cs) {
            assert(printable_key_names()[i as int] == base@);
            return true;
        }
        i = i + 1;
    }
    assert(!printable_key_names().contains(base@));
    false
}

/// `prefix + rest` begins with `prefix`, and what follows it is `rest`.
pub proof fn lemma_prefix_split(prefix: Seq<char>, rest: Seq<char>)
    ensures
        starts_with(prefix + rest, prefix),
        after_prefix(prefix + rest, prefix) == rest,
{
    assert((prefix + rest).subrange(0, prefix.len() as int) =~= prefix);
    assert((prefix + rest).skip(prefix.len() as int) =~= rest);
}

/// The accelerators derived from `base`: `base` for `analyze`, then
/// `Shift+base` for `toggle`.
pub fn hotkey_accels(base: &str) -> (r: Vec<(String, &'static str)>)
    ensures
        accels_view(r@) == spec_hotkey_accels(base@),
        r@.len() == 2,
        forall|i: int|
            0 <= i < 2 ==> (#[trigger] r@[i].0@, r@[i].1@) == spec_hotkey_accels(base@)[i],
{
    let mut shifted = "Shift+".to_owned();
    shifted.append(base);
    let r = vec![(base.to_owned(), ANALYZE), (shifted, TOGGLE)];
    assert(accels_view(r@) =~= spec_hotkey_accels(base@));
    r
}

/// Every accelerator that should be registered for `base`: those it derives,
/// then the fixed Control+E for `analyze`.
pub fn all_accels(base: &str) -> (r: Vec<(String, &'static str)>)
    ensures
        accels_view(r@) == spec_all_accels(base@),
        r@.len() == 3,
        forall|i: int|
            0 <= i < 3 ==> (#[trigger] r@[i].0@, r@[i].1@) == spec_all_accels(base@)[i],
{
    let mut accels = hotkey_accels(base);
    accels.push(("Control+KeyE".to_owned(), ANALYZE));
    assert(accels_view(accels@) =~= spec_all_accels(base@));
    accels
}

/// Whether `base` matches a blocklisted key up to ASCII case.
fn is_blocklisted_key(cs: &Vec<char>) -> (r: bool)
    ensures
        r == is_blocklisted(cs@),
{
    let names: Vec<&'static str> = vec!["Escape", "Enter", "NumpadEnter", "Space", "Tab", "Backspace"];
    assert(names@.map_values(|s: &'static str| s@) =~= hotkey_blocklist());
    let mut i: usize = 0;
    while i < names.len()
        invariant
            names@.map_values(|s: &'static str| s@) == hotkey_blocklist(),
            i <= names.len(),
            forall|j: int| 0 <= j < i ==> !eq_ignore_ascii_case(#[trigger] hotkey_blocklist()[j], cs@),
        decreases names.len() - i,
    {
        let name = chars_of(names[i]);
        assert(names@.map_values(|s: &'static str| s@)[i as int] == names@[i as int]@);
        if chars_eq_ignore_ascii_case(&name, cs) {
            assert(eq_ignore_ascii_case(hotkey_blocklist()[i as int], cs@));
            return true;
        }
        i = i + 1;
    }
    false
}

/// Accepts `base` as the base key, or says why not: `"invalid key"` when it
/// is empty, a combination or holds whitespace; `"reserved key ..."` for a
/// blocklisted key in any ASCII case; `"typing key ..."` for a key that
/// produces text; `"unsupported key"` when the shortcut parser rejects one
/// of its accelerators.
pub fn validate_hotkey_base(base: &str) -> (r: Result<(), String>)
    ensures
        match r {
            Ok(()) => is_valid_hotkey_base(base@),
            Err(e) => hotkey_base_rejection(base@) == Some(e@),
        },
{
    let cs = chars_of(base);
    if cs.len() == 0 || chars_contain(&cs, '+') || chars_have_whitespace(&cs) {
        return Err(INVALID_KEY.to_owned());
    }
    if is_blocklisted_key(&cs) {
        return Err(RESERVED_KEY.to_owned());
    }
    if is_printable_key(base) {
        return Err(TYPING_KEY.to_owned());
    }
    let accels = hotkey_accels(base);
    proof {
        lemma_prefix_split("Shift+"@, base@);
        assert(accels_view(accels@).len() == accels@.len());
    }
    let mut i: usize = 0;
    while i < accels.len()
        invariant
            accels_view(accels@) == spec_hotkey_accels(base@),
            accels@.len() == 2,
            base@.len() > 0,
            is_plain_token(base@),
            !is_blocklisted(base@),
            !spec_is_printable_key(base@),
            starts_with("Shift+"@ + base@, "Shift+"@),
            after_prefix("Shift+"@ + base@, "Shift+"@) == base@,
            i <= accels.len(),
            i > 0 ==> key_code(base@) is Some,
        decreases accels.len() - i,
    {
        assert(accels_view(accels@)[i as int] == (accels@[i as int].0@, accels@[i as int].1@));
        if parse_accelerator(accels[i].0.as_str()).is_none() {
            assert(accels@[i as int].0@ == spec_hotkey_accels(base@)[i as int].0);
            return Err(UNSUPPORTED_KEY.to_owned());
        }
        i = i + 1;
    }
    Ok(())
}

/// The base key to use at startup, from the stored file contents: the
/// trimmed contents when they form a valid base key, otherwise the default.
pub open spec fn spec_load_hotkey_base(stored: Option<Seq<char>>) -> Seq<char> {
    match stored {
        Some(s) => if is_valid_hotkey_base(trimmed(s)) {
            trimmed(s)
        } else {
            DEFAULT_HOTKEY_BASE@
        },
        None => DEFAULT_HOTKEY_BASE@,
    }
}

/// The base key to start with, from what the hotkey file holds (`None` when
/// it could not be read): its trimmed contents if they are a valid base key,
/// otherwise `"Insert"`.
pub fn load_hotkey_base(stored: Option<&str>) -> (r: String)
    ensures
        r@ == spec_load_hotkey_base(
            match stored {
                Some(s) => Some(s@),
                None => None,
            },
        ),
{
    match stored {
        Some(s) => {
            let base = trim(s);
            if base.as_str().unicode_len() > 0 && validate_hotkey_base(base.as_str()).is_ok() {
                base
            } else {
                DEFAULT_HOTKEY_BASE.to_owned()
            }
        },
        None => DEFAULT_HOTKEY_BASE.to_owned(),
    }
}

/// What the parser is stated to make of `accel`, `None` standing also for
/// "not stated" (see `accels_stated`).
pub open spec fn hotkey_of(accel: Seq<char>) -> Option<(u32, u32)> {
    match stated_hotkey(accel) {
        Some(h) => h,
        None => None,
    }
}

/// What each accelerator of `base` parses to, in the order of
/// `spec_all_accels`.
pub open spec fn accel_hotkeys(base: Seq<char>) -> Seq<Option<(u32, u32)>> {
    seq![hotkey_of(base), hotkey_of("Shift+"@ + base), hotkey_of("Control+KeyE"@)]
}

/// The parser's contract states what each accelerator of `base` parses to:
/// true of every base key without `+` or whitespace (valid ones among them),
/// and of every ASCII base key whose tokens avoid the platform-dependent
/// modifier.
pub open spec fn accels_stated(base: Seq<char>) -> bool {
    stated_hotkey(base) is Some && stated_hotkey("Shift+"@ + base) is Some
}

/// The action of the first accelerator of `base` that parses to the fired
/// hotkey `fired`, or `None` when none does.
pub open spec fn spec_shortcut_action(base: Seq<char>, fired: (u32, u32)) -> Option<Seq<char>> {
    let hotkeys = accel_hotkeys(base);
    if hotkeys[0] == Some(fired) {
        Some(ANALYZE@)
    } else if hotkeys[1] == Some(fired) {
        Some(TOGGLE@)
    } else if hotkeys[2] == Some(fired) {
        Some(ANALYZE@)
    } else {
        None
    }
}

/// `Control+KeyE` is parsed as Control with the key `KeyE`.
proof fn lemma_fixed_hotkey_stated()
    ensures
        stated_hotkey("Control+KeyE"@) == Some(with_modifiers(CONTROL_BITS, key_code("KeyE"@))),
{
    lemma_prefix_split("Control+"@, "KeyE"@);
    reveal_strlit("Control+");
    reveal_strlit("KeyE");
    reveal_strlit("Control+KeyE");
    reveal_strlit("Shift+");
    assert("Control+"@ + "KeyE"@ =~= "Control+KeyE"@);
    assert("Control+KeyE"@[7] == '+');
    assert("Control+KeyE"@.subrange(0, "Shift+"@.len() as int)[0] != "Shift+"@[0]);
    assert(forall|j: int| 0 <= j < "KeyE"@.len() ==> "KeyE"@[j] != '+');
    assert(forall|j: int| 0 <= j < "KeyE"@.len() ==> !is_unicode_whitespace(#[trigger] "KeyE"@[j]));
}

/// A base key without `+` parses as that key alone, and Shift + base, when
/// the base is also free of whitespace, as that key with Shift.
proof fn lemma_plain_base_stated(base: Seq<char>)
    requires
        is_plain_token(base),
    ensures
        stated_hotkey(base) == Some(with_modifiers(NO_MODIFIERS, key_code(base))),
        stated_hotkey("Shift+"@ + base) == Some(with_modifiers(SHIFT_BITS, key_code(base))),
{
    lemma_prefix_split("Shift+"@, base);
    reveal_strlit("Shift+");
    assert(("Shift+"@ + base)[5] == '+');
}

/// The action that a fired global shortcut stands for, with `base` the
/// current base key and `fired` the shortcut as (modifier bits, key code):
/// that of the first live accelerator that parses to the same hotkey, or
/// `None` for an unmatched shortcut.
pub fn shortcut_action(base: &str, fired: (u32, u32)) -> (r: Option<&'static str>)
    ensures
        accels_stated(base@) ==> match r {
            Some(a) => spec_shortcut_action(base@, fired) == Some(a@),
            None => spec_shortcut_action(base@, fired) is None,
        },
        is_plain_token(base@) ==> accels_stated(base@),
        r matches Some(a) ==> a@ == ANALYZE@ || a@ == TOGGLE@,
{
    let accels = all_accels(base);
    proof {
        lemma_fixed_hotkey_stated();
        if is_plain_token(base@) {
            lemma_plain_base_stated(base@);
        }
        assert(accels_view(accels@).len() == accels@.len());
    }
    let mut i: usize = 0;
    while i < accels.len()
        invariant
            accels_view(accels@) == spec_all_accels(base@),
            accels.len() == 3,
            stated_hotkey("Control+KeyE"@) is Some,
            is_plain_token(base@) ==> accels_stated(base@),
            i <= accels.len(),
            accels_stated(base@) ==> forall|j: int|
                0 <= j < i ==> accel_hotkeys(base@)[j] != Some(fired),
        decreases accels.len() - i,
    {
        assert(accels_view(accels@)[i as int] == (accels@[i as int].0@, accels@[i as int].1@));
        assert(accels@[i as int].0@ == spec_all_accels(base@)[i as int].0);
        if parse_accelerator(accels[i].0.as_str()) == Some(fired) {
            return Some(accels[i].1);
        }
        i = i + 1;
    }
    None
}

/// A key that produces text is never accepted as the base key.
pub proof fn printable_keys_are_never_bases(base: Seq<char>)
    requires
        spec_is_printable_key(base),
    ensures
        !is_valid_hotkey_base(base),
{
}

/// The keys that produce text are exactly the letter keys `KeyA`..`KeyZ`,
/// the digit keys `Digit0`..`Digit9`, the numpad keys but `NumpadEnter`, and
/// the punctuation keys; every other key (function, navigation, arrow, lock
/// and system keys such as `NumLock` or `ScrollLock`) does not.
pub proof fn text_keys_are_letters_digits_numpad_and_punctuation(base: Seq<char>)
    ensures
        spec_is_printable_key(base) <==> {
            ||| encode_utf8(base).len() == 4 && base.len() >= 3 && base.subrange(0, 3) == seq!['K', 'e', 'y']
            ||| encode_utf8(base).len() == 6 && base.len() >= 5 && base.subrange(0, 5) == seq!['D', 'i', 'g', 'i', 't']
            ||| base.len() >= 6 && base.subrange(0, 6) == seq!['N', 'u', 'm', 'p', 'a', 'd']
                && base != seq!['N', 'u', 'm', 'p', 'a', 'd', 'E', 'n', 't', 'e', 'r']
            ||| base == "Comma"@ || base == "Period"@ || base == "Slash"@
            ||| base == "Semicolon"@ || base == "Quote"@ || base == "BracketLeft"@
            ||| base == "BracketRight"@ || base == "Backslash"@ || base == "Backquote"@
            ||| base == "Minus"@ || base == "Equal"@ || base == "IntlBackslash"@
            ||| base == "IntlRo"@ || base == "IntlYen"@
        },
{
    reveal_strlit("Key");
    reveal_strlit("Digit");
    reveal_strlit("Numpad");
    reveal_strlit("NumpadEnter");
    assert("Key"@ =~= seq!['K', 'e', 'y']);
    assert("Digit"@ =~= seq!['D', 'i', 'g', 'i', 't']);
    assert("Numpad"@ =~= seq!['N', 'u', 'm', 'p', 'a', 'd']);
    assert("NumpadEnter"@ =~= seq!['N', 'u', 'm', 'p', 'a', 'd', 'E', 'n', 't', 'e', 'r']);
    let names = printable_key_names();
    if base == "Comma"@ || base == "Period"@ || base == "Slash"@ || base == "Semicolon"@
        || base == "Quote"@ || base == "BracketLeft"@ || base == "BracketRight"@
        || base == "Backslash"@ || base == "Backquote"@ || base == "Minus"@
        || base == "Equal"@ || base == "IntlBackslash"@ || base == "IntlRo"@
        || base == "IntlYen"@ {
        if base == "Comma"@ { assert(names[0] == base); }
        if base == "Period"@ { assert(names[1] == base); }
        if base == "Slash"@ { assert(names[2] == base); }
        if base == "Semicolon"@ { assert(names[3] == base); }
        if base == "Quote"@ { assert(names[4] == base); }
        if base == "BracketLeft"@ { assert(names[5] == base); }
        if base == "BracketRight"@ { assert(names[6] == base); }
        if base == "Backslash"@ { assert(names[7] == base); }
        if base == "Backquote"@ { assert(names[8] == base); }
        if base == "Minus"@ { assert(names[9] == base); }
        if base == "Equal"@ { assert(names[10] == base); }
        if base == "IntlBackslash"@ { assert(names[11] == base); }
        if base == "IntlRo"@ { assert(names[12] == base); }
        if base == "IntlYen"@ { assert(names[13] == base); }
    }
}

/// A blocklisted key is never accepted as the base key, whatever its ASCII
/// case.
pub proof fn blocklisted_keys_are_never_bases(base: Seq<char>, i: int)
    requires
        0 <= i < hotkey_blocklist().len(),
        eq_ignore_ascii_case(hotkey_blocklist()[i], base),
    ensures
        !is_valid_hotkey_base(base),
{
}

/// Whatever the base key, the live accelerators end with the fixed
/// Control+E for `analyze`: a remap neither changes nor drops it.
pub proof fn fixed_hotkey_is_live_for_every_base(a: Seq<char>, b: Seq<char>)
    ensures
        spec_all_accels(a).len() == 3,
        spec_all_accels(a)[2] == ("Control+KeyE"@, ANALYZE@),
        spec_all_accels(a).skip(2) == spec_all_accels(b).skip(2),
{
    assert(spec_all_accels(a).skip(2) =~= spec_all_accels(b).skip(2));
}

/// The base key loaded at startup is always valid when the default is: a
/// valid stored key is kept (trimmed), anything else falls back.
pub proof fn loaded_base_is_valid(stored: Option<Seq<char>>)
    requires
        is_valid_hotkey_base(DEFAULT_HOTKEY_BASE@),
    ensures
        is_valid_hotkey_base(spec_load_hotkey_base(stored)),
        stored is Some && is_valid_hotkey_base(trimmed(stored->0)) ==> spec_load_hotkey_base(
            stored,
        ) == trimmed(stored->0),
{
}

/// Whitespace after the stored key, such as a line ending `\n` or `\r\n`,
/// does not change the base key loaded at startup.
pub proof fn line_endings_do_not_change_the_loaded_base(s: Seq<char>, w: Seq<char>)
    requires
        forall|j: int| 0 <= j < w.len() ==> is_unicode_whitespace(#[trigger] w[j]),
    ensures
        spec_load_hotkey_base(Some(s + w)) == spec_load_hotkey_base(Some(s)),
        spec_load_hotkey_base(Some(s + seq!['\r', '\n'])) == spec_load_hotkey_base(Some(s)),
{
    trailing_whitespace_is_trimmed(s, w);
}

/// With a valid base key that the parser knows as `key`, pressing the base
/// key means `analyze` and Shift + base means `toggle`; Control+E means
/// `analyze` whatever the base key.
pub proof fn base_shortcuts_mean_their_actions(base: Seq<char>, key: u32, e_key: u32)
    requires
        is_valid_hotkey_base(base),
        key_code(base) == Some(key),
        key_code("KeyE"@) == Some(e_key),
    ensures
        spec_shortcut_action(base, (NO_MODIFIERS, key)) == Some(ANALYZE@),
        spec_shortcut_action(base, (SHIFT_BITS, key)) == Some(TOGGLE@),
        spec_shortcut_action(base, (CONTROL_BITS, e_key)) == Some(ANALYZE@),
{
    lemma_fixed_hotkey_stated();
    lemma_plain_base_stated(base);
}

} // verus!
