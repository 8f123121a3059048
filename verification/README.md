# waystone_overlay

The verified core of the Waystone overlay, a small always-on-top window for
Path of Exile 2. The window itself, its tray, global shortcuts, updater and
logging are driven by Tauri in `app/`; every decision they rest on is a
function of `src/`, checked by Verus.

- `src/frame.rs` — is a captured window frame (nearly) solid black?
- `src/hotkey.rs` — which keys may be the remappable base key, the
  accelerators a base key derives, which action a fired shortcut means.
- `src/remap.rs` — remapping the base key with rollback, and pruning
  registration retries.
- `src/shortcut.rs` — the bridge to the `global-hotkey` parser.
- `src/text.rs` — prefix, membership, ASCII case folding, whitespace, trim.
- `src/input.rs` — key-state words and the keystrokes of a copy.
- `src/overlay.rs` — launch flags, window options, the click-through poll,
  the resize nudge, the tray menu.
- `src/update.rs` — the update channel's feed.
