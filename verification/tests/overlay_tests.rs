use waystone_overlay::overlay::{
    click_through_step, env_flag, has_cli_flag, pointer_poll_start, recompose_nudge_sizes,
    tray_action, window_options, OverlayEnv, PointerPoll, TrayAction, AUTOSTART_FLAG,
};
use waystone_overlay::update::{updater_endpoint, updater_endpoint_url};

fn no_env() -> OverlayEnv {
    OverlayEnv {
        debug_opaque: None,
        transparent: None,
        decorations: None,
        always_on_top: None,
        shadow: None,
        skip_taskbar: None,
        click_through: None,
        explicit_bg: None,
    }
}

#[test]
fn env_flags_read_only_zero_and_one() {
    assert!(!env_flag(Some("0"), true));
    assert!(env_flag(Some("1"), false));
    assert!(env_flag(Some("true"), true));
    assert!(!env_flag(Some("yes"), false));
    assert!(env_flag(None, true));
    assert!(!env_flag(Some(""), false));
}

#[test]
fn the_autostart_flag_is_found_among_the_arguments() {
    let args = vec!["overlay.exe".to_string(), "--autostart".to_string()];
    assert!(has_cli_flag(&args, AUTOSTART_FLAG));
    let args = vec!["overlay.exe".to_string(), "--autostart=1".to_string()];
    assert!(!has_cli_flag(&args, AUTOSTART_FLAG));
    assert!(!has_cli_flag(&Vec::new(), AUTOSTART_FLAG));
}

#[test]
fn the_shipped_window_is_transparent_and_click_through() {
    let w = window_options(false, &no_env());
    assert!(!w.debug_opaque);
    assert!(w.transparent);
    assert!(w.click_through);
    assert!(!w.decorations);
    assert!(w.always_on_top);
    assert!(!w.shadow);
    assert!(w.skip_taskbar);
    assert_eq!(w.title, "Waystone-Analyzer");
    assert_eq!(w.background, Some((0, 0, 0, 0)));
}

#[test]
fn the_debug_window_is_opaque_unless_told_otherwise() {
    let w = window_options(true, &no_env());
    assert!(w.debug_opaque);
    assert!(!w.transparent);
    assert!(!w.click_through);
    assert_eq!(w.title, "Waystone-Analyzer [DEBUG OPAQUE]");
    assert_eq!(w.background, Some((26, 26, 46, 255)));

    let mut env = no_env();
    env.debug_opaque = Some("1".to_string());
    env.click_through = Some("1".to_string());
    env.explicit_bg = Some("0".to_string());
    let w = window_options(false, &env);
    assert!(w.debug_opaque);
    assert!(w.click_through);
    assert_eq!(w.background, None);
}

#[test]
fn a_nudge_widens_by_one_pixel_and_comes_back() {
    assert_eq!(recompose_nudge_sizes(620, 406), [(621, 406), (620, 406)]);
}

#[test]
fn the_first_poll_never_nudges() {
    let start = pointer_poll_start();
    let (state, actions) = click_through_step(start, true, false, false);
    assert_eq!(state, PointerPoll { interactive: true, first_check: false });
    assert_eq!(actions.ignore_cursor_events, Some(false));
    assert!(!actions.nudge);
    // Leaving, then entering again: a real hover transition nudges.
    let (state, actions) = click_through_step(state, false, false, false);
    assert_eq!(actions.ignore_cursor_events, Some(true));
    assert!(!actions.nudge);
    let (_, actions) = click_through_step(state, true, false, false);
    assert!(actions.nudge);
}

#[test]
fn a_click_outside_hides_unless_pinned() {
    let state = PointerPoll { interactive: false, first_check: false };
    let (_, actions) = click_through_step(state, false, true, false);
    assert!(actions.hide);
    assert_eq!(actions.ignore_cursor_events, None);
    let (_, actions) = click_through_step(state, false, true, true);
    assert!(!actions.hide);
    let (_, actions) = click_through_step(state, true, true, false);
    assert!(!actions.hide);
}

#[test]
fn only_quit_ends_the_process() {
    assert_eq!(tray_action("quit"), TrayAction::Quit);
    assert_eq!(tray_action("show"), TrayAction::Show);
    assert_eq!(tray_action("Quit"), TrayAction::Ignore);
    assert_eq!(tray_action(""), TrayAction::Ignore);
}

#[test]
fn each_channel_has_its_feed() {
    assert!(updater_endpoint(true).ends_with("/updater-beta/latest.json"));
    assert!(updater_endpoint(false).ends_with("/updater/latest.json"));
    let (url, serialized) = updater_endpoint_url(true).unwrap();
    assert_eq!(url.host_str(), Some("github.com"));
    assert_eq!(url.path(), "/Captain-VII/poe2-waystone-analyzer-v3/releases/download/updater-beta/latest.json");
    assert_eq!(serialized, updater_endpoint(true));
    let (url, _) = updater_endpoint_url(false).unwrap();
    assert_eq!(url.scheme(), "https");
}
