//! Decisions behind the overlay window: launch flags, the window's build
//! options, the click-through poll, the resize nudge and the tray menu.
use vstd::prelude::*;

use crate::text::{chars_equal, chars_of};

verus! {

/// The command-line flag the autostart entry appends.
pub const AUTOSTART_FLAG: &'static str = "--autostart";

/// The command-line flag that asks for the opaque debug window.
pub const DEBUG_OPAQUE_FLAG: &'static str = "--debug-opaque-overlay";

/// Title of the shipped overlay window.
pub const OVERLAY_TITLE: &'static str = "Waystone-Analyzer";

/// Title of the opaque debug window.
pub const DEBUG_OVERLAY_TITLE: &'static str = "Waystone-Analyzer [DEBUG OPAQUE]";

/// An optional string as an optional character sequence.
pub open spec fn opt_view(value: Option<&str>) -> Option<Seq<char>> {
    match value {
        Some(s) => Some(s@),
        None => None,
    }
}

/// An optional owned string as an optional character sequence.
pub open spec fn opt_string_view(value: Option<String>) -> Option<Seq<char>> {
    match value {
        Some(s) => Some(s@),
        None => None,
    }
}

/// A boolean switch read from an environment variable's value: `"0"` is
/// off, `"1"` is on, anything else (or no value) leaves `default`.
pub open spec fn spec_env_flag(value: Option<Seq<char>>, default: bool) -> bool {
    match value {
        Some(v) => if v == "0"@ {
            false
        } else if v == "1"@ {
            true
        } else {
            default
        },
        None => default,
    }
}

/// A value of `"0"` always switches off and `"1"` always switches on,
/// whatever the default; only an absent or other value leaves the default.
pub proof fn zero_and_one_decide_a_switch(default: bool, other: Seq<char>)
    ensures
        spec_env_flag(Some("0"@), default) == false,
        spec_env_flag(Some("1"@), default) == true,
        spec_env_flag(None, default) == default,
        other != "0"@ && other != "1"@ ==> spec_env_flag(Some(other), default) == default,
{
    reveal_strlit("0");
    reveal_strlit("1");
    assert("0"@[0] != "1"@[0]);
}

/// The switch set by an environment variable whose value is `value` (`None`
/// when it is unset or not Unicode): `"0"` off, `"1"` on, else `default`.
pub fn env_flag(value: Option<&str>, default: bool) -> (r: bool)
    ensures
        r == spec_env_flag(opt_view(value), default),
{
    match value {
        None => default,
        Some(v) => {
            let cs = chars_of(v);
            if chars_equal(&cs, &chars_of("0")) {
                false
            } else if chars_equal(&cs, &chars_of("1")) {
                true
            } else {
                default
            }
        },
    }
}

/// Whether the command line `args` holds the argument `flag`.
pub fn has_cli_flag(args: &Vec<String>, flag: &str) -> (r: bool)
    ensures
        r == exists|i: int| 0 <= i < args@.len() && (#[trigger] args@[i])@ == flag@,
{
    let wanted = chars_of(flag);
    let mut i: usize = 0;
    while i < args.len()
        invariant
            wanted@ == flag@,
            i <= args.len(),
            forall|j: int| 0 <= j < i ==> (#[trigger] args@[j])@ != flag@,
        decreases args.len() - i,
    {
        let arg = chars_of(args[i].as_str());
        if chars_equal(&arg, &wanted) {
            assert(args@[i as int]@ == flag@);
            return true;
        }
        i = i + 1;
    }
    false
}

fn opt_as_str(value: &Option<String>) -> (r: Option<&str>)
    ensures
        opt_view(r) == opt_string_view(*value),
{
    match value {
        Some(s) => Some(s.as_str()),
        None => None,
    }
}

/// The values of the `OVERLAY_*` environment variables that shape the
/// window (`None` when unset).
pub struct OverlayEnv {
    pub debug_opaque: Option<String>,
    pub transparent: Option<String>,
    pub decorations: Option<String>,
    pub always_on_top: Option<String>,
    pub shadow: Option<String>,
    pub skip_taskbar: Option<String>,
    pub click_through: Option<String>,
    pub explicit_bg: Option<String>,
}

/// How the overlay window is built.
pub struct WindowOptions {
    /// Opaque, focusable debug window in place of the overlay.
    pub debug_opaque: bool,
    pub transparent: bool,
    pub decorations: bool,
    pub always_on_top: bool,
    pub shadow: bool,
    pub skip_taskbar: bool,
    /// Clicks pass through the window except over its interactive rects.
    pub click_through: bool,
    pub title: &'static str,
    /// Background colour as (red, green, blue, alpha), when it is set
    /// explicitly.
    pub background: Option<(u8, u8, u8, u8)>,
}

/// The window's build options: `debug_opaque_flag` is whether the command
/// line asks for the debug window, `env` the `OVERLAY_*` values. The debug
/// window turns transparency and click-through off unless they are set
/// explicitly; a transparent window gets a fully transparent background, an
/// opaque one #1a1a2e, unless the explicit background is switched off.
pub fn window_options(debug_opaque_flag: bool, env: &OverlayEnv) -> (r: WindowOptions)
    ensures
        r.debug_opaque == (debug_opaque_flag || spec_env_flag(
            opt_string_view(env.debug_opaque),
            false,
        )),
        r.transparent == spec_env_flag(opt_string_view(env.transparent), !r.debug_opaque),
        r.decorations == spec_env_flag(opt_string_view(env.decorations), false),
        r.always_on_top == spec_env_flag(opt_string_view(env.always_on_top), true),
        r.shadow == spec_env_flag(opt_string_view(env.shadow), false),
        r.skip_taskbar == spec_env_flag(opt_string_view(env.skip_taskbar), true),
        r.click_through == spec_env_flag(opt_string_view(env.click_through), !r.debug_opaque),
        r.title@ == if r.debug_opaque {
            DEBUG_OVERLAY_TITLE@
        } else {
            OVERLAY_TITLE@
        },
        r.background == if spec_env_flag(opt_string_view(env.explicit_bg), true) {
            Some(
                if r.transparent {
                    (0u8, 0u8, 0u8, 0u8)
                } else {
                    (26u8, 26u8, 46u8, 255u8)
                },
            )
        } else {
            None::<(u8, u8, u8, u8)>
        },
{
    let debug_opaque = debug_opaque_flag || env_flag(opt_as_str(&env.debug_opaque), false);
    let transparent = env_flag(opt_as_str(&env.transparent), !debug_opaque);
    let decorations = env_flag(opt_as_str(&env.decorations), false);
    let always_on_top = env_flag(opt_as_str(&env.always_on_top), true);
    let shadow = env_flag(opt_as_str(&env.shadow), false);
    let skip_taskbar = env_flag(opt_as_str(&env.skip_taskbar), true);
    let click_through = env_flag(opt_as_str(&env.click_through), !debug_opaque);
    let title = if debug_opaque {
        DEBUG_OVERLAY_TITLE
    } else {
        OVERLAY_TITLE
    };
    let background = if env_flag(opt_as_str(&env.explicit_bg), true) {
        if transparent {
            Some((0u8, 0u8, 0u8, 0u8))
        } else {
            Some((26u8, 26u8, 46u8, 255u8))
        }
    } else {
        None
    };
    WindowOptions {
        debug_opaque,
        transparent,
        decorations,
        always_on_top,
        shadow,
        skip_taskbar,
        click_through,
        title,
        background,
    }
}

/// The two sizes of a recompose nudge for a window of `width` x `height`
/// physical pixels: one pixel wider, then back to the original size.
pub fn recompose_nudge_sizes(width: u32, height: u32) -> (r: [(u32, u32); 2])
    requires
        width < u32::MAX,
    ensures
        r@ == seq![((width + 1) as u32, height), (width, height)],
{
    let r = [(width + 1, height), (width, height)];
    assert(r@ =~= seq![((width + 1) as u32, height), (width, height)]);
    r
}

/// What the click-through poll remembers between two polls.
#[derive(Clone, Copy, Debug, PartialEq, Eq, Structural)]
pub struct PointerPoll {
    /// The window currently takes the cursor's events.
    pub interactive: bool,
    /// No poll has been made yet.
    pub first_check: bool,
}

/// What one poll asks of the window.
#[derive(Clone, Copy, Debug, PartialEq, Eq, Structural)]
pub struct PollActions {
    /// New setting of "ignore cursor events", when it changes.
    pub ignore_cursor_events: Option<bool>,
    /// Fire a recompose nudge.
    pub nudge: bool,
    /// Hide the overlay.
    pub hide: bool,
}

/// The poll's state before any poll.
pub fn pointer_poll_start() -> (r: PointerPoll)
    ensures
        r == (PointerPoll { interactive: false, first_check: true }),
{
    PointerPoll { interactive: false, first_check: true }
}

/// One click-through poll: `inside` is whether the cursor is over an
/// interactive region, `clicked` whether the left button was pressed since
/// the previous poll, `pinned` whether the pin toggle is on. The window takes
/// cursor events exactly while the cursor is inside; entering fires a
/// recompose nudge, except on the very first poll, which only establishes
/// the initial state; a click outside hides the overlay unless it is pinned.
pub fn click_through_step(state: PointerPoll, inside: bool, clicked: bool, pinned: bool) -> (r: (
    PointerPoll,
    PollActions,
))
    ensures
        r == spec_click_through_step(state, inside, clicked, pinned),
{
    let is_real_transition = inside != state.interactive && !state.first_check;
    let mut interactive = state.interactive;
    let mut ignore_cursor_events = None;
    let mut nudge = false;
    if inside != interactive {
        interactive = inside;
        ignore_cursor_events = Some(!inside);
        if inside && is_real_transition {
            nudge = true;
        }
    }
    let hide = clicked && !inside && !pinned;
    (PointerPoll { interactive, first_check: false }, PollActions { ignore_cursor_events, nudge, hide })
}

/// The window's "ignore cursor events" setting after a poll's actions are
/// applied, `ignoring` being the setting before.
pub open spec fn ignoring_after(ignoring: bool, actions: PollActions) -> bool {
    match actions.ignore_cursor_events {
        Some(v) => v,
        None => ignoring,
    }
}

/// Each poll keeps the window consistent: when, before it, the window
/// ignores cursor events exactly if the poll state is not interactive (as
/// right after the window is built), then after its actions the window
/// ignores them exactly if the cursor is outside every interactive region,
/// and the new state agrees. A pinned overlay is never hidden by a poll, and
/// no poll nudges while the cursor is outside.
pub proof fn click_through_follows_the_cursor(
    state: PointerPoll,
    ignoring: bool,
    inside: bool,
    clicked: bool,
    pinned: bool,
    next: PointerPoll,
    actions: PollActions,
)
    requires
        ignoring == !state.interactive,
        (next, actions) == spec_click_through_step(state, inside, clicked, pinned),
    ensures
        ignoring_after(ignoring, actions) == !inside,
        ignoring_after(ignoring, actions) == !next.interactive,
        pinned ==> !actions.hide,
        !inside ==> !actions.nudge,
{
}

/// The result of one poll, as `click_through_step` computes it.
pub open spec fn spec_click_through_step(
    state: PointerPoll,
    inside: bool,
    clicked: bool,
    pinned: bool,
) -> (PointerPoll, PollActions) {
    (
        PointerPoll { interactive: inside, first_check: false },
        PollActions {
            ignore_cursor_events: if inside != state.interactive {
                Some(!inside)
            } else {
                None
            },
            nudge: inside && !state.interactive && !state.first_check,
            hide: clicked && !inside && !pinned,
        },
    )
}

/// A click over an interactive region never hides the overlay, whatever the
/// poll state and pin; a click outside every interactive region hides it
/// exactly when it is not pinned; the decision does not depend on what the
/// previous poll saw.
pub proof fn only_a_click_away_hides(
    state: PointerPoll,
    other: PointerPoll,
    inside: bool,
    clicked: bool,
    pinned: bool,
)
    ensures
        inside ==> !spec_click_through_step(state, inside, clicked, pinned).1.hide,
        !clicked ==> !spec_click_through_step(state, inside, clicked, pinned).1.hide,
        clicked && !inside ==> spec_click_through_step(state, inside, clicked, pinned).1.hide
            == !pinned,
        spec_click_through_step(state, inside, clicked, pinned).1.hide
            == spec_click_through_step(other, inside, clicked, pinned).1.hide,
{
}

/// An entry of the tray menu.
#[derive(Clone, Copy, Debug, PartialEq, Eq, Structural)]
pub enum TrayAction {
    /// Flush the log and end the process.
    Quit,
    /// Show, focus and re-size the overlay.
    Show,
    /// An unknown entry: nothing happens.
    Ignore,
}

/// What the tray menu entry with id `id` does: `"quit"` quits, `"show"`
/// shows, any other id does nothing.
pub fn tray_action(id: &str) -> (r: TrayAction)
    ensures
        r == if id@ == "quit"@ {
            TrayAction::Quit
        } else if id@ == "show"@ {
            TrayAction::Show
        } else {
            TrayAction::Ignore
        },
{
    let cs = chars_of(id);
    if chars_equal(&cs, &chars_of("quit")) {
        TrayAction::Quit
    } else if chars_equal(&cs, &chars_of("show")) {
        TrayAction::Show
    } else {
        TrayAction::Ignore
    }
}

} // verus!
