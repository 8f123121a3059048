use waystone_overlay::input::{copy_keystrokes, key_is_down, left_click_since_last_poll, Keystroke};

#[test]
fn a_click_shows_in_the_low_bit() {
    assert!(left_click_since_last_poll(Some(1)));
    assert!(left_click_since_last_poll(Some(-32767))); // 0x8001: down, and pressed since
    assert!(!left_click_since_last_poll(Some(0)));
    assert!(!left_click_since_last_poll(Some(i16::MIN))); // 0x8000: down only
    assert!(!left_click_since_last_poll(None));
}

#[test]
fn a_held_key_shows_in_the_high_bit() {
    assert!(key_is_down(i16::MIN));
    assert!(key_is_down(-1));
    assert!(!key_is_down(1));
    assert!(!key_is_down(0));
}

#[test]
fn a_copy_presses_the_modifier_only_when_it_is_not_held() {
    assert_eq!(
        copy_keystrokes(false),
        vec![Keystroke::PressModifier, Keystroke::ClickC, Keystroke::ReleaseModifier]
    );
    assert_eq!(copy_keystrokes(true), vec![Keystroke::ClickC]);
}
