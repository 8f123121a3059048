//! Verified core of the Waystone overlay: hotkey rules, frame checks and the
//! decisions behind the overlay window.
pub mod frame;
pub mod text;
pub mod shortcut;
pub mod hotkey;
pub mod remap;
pub mod input;
pub mod overlay;
pub mod update;
