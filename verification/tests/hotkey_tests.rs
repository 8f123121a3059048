use global_hotkey::hotkey::Code;
use waystone_overlay::hotkey::{
    all_accels, hotkey_accels, is_printable_key, load_hotkey_base, shortcut_action,
    validate_hotkey_base, DEFAULT_HOTKEY_BASE,
};
use waystone_overlay::shortcut::{CONTROL_BITS, NO_MODIFIERS, SHIFT_BITS};

#[test]
fn printable_keys_are_rejected_letters_digits_numpad() {
    assert!(is_printable_key("KeyA"));
    assert!(is_printable_key("KeyZ"));
    assert!(is_printable_key("Digit0"));
    assert!(is_printable_key("Digit9"));
    assert!(is_printable_key("Numpad5"));
    assert!(is_printable_key("Comma"));
    assert!(is_printable_key("Semicolon"));
}

#[test]
fn numpad_enter_is_the_one_numpad_exception() {
    assert!(!is_printable_key("NumpadEnter"));
}

#[test]
fn navigation_and_function_keys_are_not_printable() {
    assert!(!is_printable_key("Insert"));
    assert!(!is_printable_key("F9"));
    assert!(!is_printable_key("Delete"));
    assert!(!is_printable_key("Home"));
    assert!(!is_printable_key("ArrowUp"));
    assert!(!is_printable_key("Escape"));
}

#[test]
fn hotkey_accels_derives_the_two_action_layers() {
    let accels = hotkey_accels("Insert");
    assert_eq!(
        accels,
        vec![
            ("Insert".to_string(), "analyze"),
            ("Shift+Insert".to_string(), "toggle"),
        ]
    );
}

#[test]
fn all_accels_appends_the_fixed_extra_hotkeys() {
    let accels = all_accels("Insert");
    assert_eq!(
        accels,
        vec![
            ("Insert".to_string(), "analyze"),
            ("Shift+Insert".to_string(), "toggle"),
            ("Control+KeyE".to_string(), "analyze"),
        ]
    );
    // Independent of base — a remap doesn't change or drop it.
    assert!(all_accels("F9").contains(&("Control+KeyE".to_string(), "analyze")));
}

#[test]
fn validate_hotkey_base_accepts_the_default_and_a_function_key() {
    assert!(validate_hotkey_base(DEFAULT_HOTKEY_BASE).is_ok());
    assert!(validate_hotkey_base("F9").is_ok());
}

#[test]
fn validate_hotkey_base_rejects_empty_and_combos() {
    assert!(validate_hotkey_base("").is_err());
    assert!(validate_hotkey_base("Shift+Insert").is_err());
    assert!(validate_hotkey_base("Control C").is_err()); // whitespace
}

#[test]
fn validate_hotkey_base_rejects_blocklisted_keys() {
    assert!(validate_hotkey_base("Escape").is_err());
    assert!(validate_hotkey_base("Enter").is_err());
    assert!(validate_hotkey_base("NumpadEnter").is_err());
    assert!(validate_hotkey_base("Space").is_err());
    assert!(validate_hotkey_base("Tab").is_err());
    assert!(validate_hotkey_base("Backspace").is_err());
}

#[test]
fn validate_hotkey_base_rejects_printable_keys() {
    assert!(validate_hotkey_base("KeyA").is_err());
    assert!(validate_hotkey_base("Digit5").is_err());
    assert!(validate_hotkey_base("Comma").is_err());
}

#[test]
fn validate_hotkey_base_is_case_insensitive_on_the_blocklist() {
    assert!(validate_hotkey_base("escape").is_err());
    assert!(validate_hotkey_base("ESCAPE").is_err());
}

#[test]
fn each_rejection_carries_its_own_reason() {
    assert_eq!(validate_hotkey_base(""), Err("invalid key".to_string()));
    assert_eq!(validate_hotkey_base("Shift+Insert"), Err("invalid key".to_string()));
    assert_eq!(validate_hotkey_base("Control\u{3000}C"), Err("invalid key".to_string()));
    assert_eq!(
        validate_hotkey_base("bAcKsPaCe"),
        Err("reserved key (Escape, Enter, chat)".to_string())
    );
    assert_eq!(
        validate_hotkey_base("KeyQ"),
        Err("typing key — it would get swallowed everywhere, chat included".to_string())
    );
    assert_eq!(validate_hotkey_base("Foo"), Err("unsupported key".to_string()));
    assert_eq!(validate_hotkey_base("PageDown"), Ok(()));
}

#[test]
fn printable_key_lengths_are_counted_in_bytes() {
    // "Keyé" is four characters but five bytes: not a KeyA..KeyZ code.
    assert!(!is_printable_key("Keyé"));
    assert!(is_printable_key("Key_"));
    assert!(!is_printable_key("Digit10"));
    assert!(is_printable_key("NumpadAdd"));
    assert!(is_printable_key("IntlYen"));
    assert!(!is_printable_key("comma"));
}

#[test]
fn the_stored_base_is_trimmed_and_checked() {
    assert_eq!(load_hotkey_base(Some("  F9\n")), "F9");
    assert_eq!(load_hotkey_base(Some("KeyA")), "Insert");
    assert_eq!(load_hotkey_base(Some("   ")), "Insert");
    assert_eq!(load_hotkey_base(None), "Insert");
}

#[test]
fn fired_shortcuts_map_to_their_actions() {
    let insert = Code::Insert as u32;
    let key_e = Code::KeyE as u32;
    assert_eq!(shortcut_action("Insert", (NO_MODIFIERS, insert)), Some("analyze"));
    assert_eq!(shortcut_action("Insert", (SHIFT_BITS, insert)), Some("toggle"));
    assert_eq!(shortcut_action("Insert", (CONTROL_BITS, key_e)), Some("analyze"));
    assert_eq!(shortcut_action("F9", (CONTROL_BITS, key_e)), Some("analyze"));
    assert_eq!(shortcut_action("F9", (NO_MODIFIERS, insert)), None);
    assert_eq!(shortcut_action("Insert", (CONTROL_BITS, insert)), None);
    // Matching goes by the parsed hotkey, not by the spelling.
    assert_eq!(shortcut_action("insert", (NO_MODIFIERS, insert)), Some("analyze"));
}

#[test]
fn a_combination_base_is_matched_by_its_parsed_hotkey() {
    // Such a base is never stored (validation refuses it), but the matching
    // still goes by the parser: Alt+F9 and Shift+Alt+F9.
    let f9 = Code::F9 as u32;
    let alt = 0x1;
    assert_eq!(shortcut_action("Alt+F9", (alt, f9)), Some("analyze"));
    assert_eq!(shortcut_action("Alt+F9", (alt | SHIFT_BITS, f9)), Some("toggle"));
    assert_eq!(shortcut_action("Alt+F9", (NO_MODIFIERS, f9)), None);
}
