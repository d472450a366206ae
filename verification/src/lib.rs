//! The logic of winflow, a window switcher for macOS that shows thumbnails of
//! the windows on the current desktop, ordered by recency.
//!
//! - `windows` decides which windows can be switched to, `recency` in which
//!   order they are listed, and `layout` where their cards stand.
//! - `tap` decides what keyboard events do to the shared `state`, and
//!   `overlay`, `commands` and `tags` what commands, mouse events and ticks do
//!   on the main thread; `render` says what the overlay looks like.
//! - `capture` decides which thumbnails are captured when.
//! - `config`, `panel` and `permissions` are the settings and the dialogs,
//!   `display` and `accessibility` choose displays, screens and windows among
//!   those that the system offers.
//!
//! Nothing here talks to the system: callers look up what only the system
//! knows, and carry out what is decided here. Lengths are whole milli-points
//! (thousandths of a point), ratios are millionths, and times are nanoseconds
//! of one monotonic clock. The modules whose names end in `_laws` state what
//! holds across several functions.

pub mod accessibility;
pub mod capture;
pub mod capture_laws;
pub mod commands;
pub mod config;
pub mod display;
pub mod keys;
pub mod layout;
pub mod layout_laws;
pub mod overlay;
pub mod overlay_laws;
pub mod panel;
pub mod permissions;
pub mod picture_laws;
pub mod recency;
pub mod recency_laws;
pub mod render;
pub mod state;
pub mod tags;
pub mod tags_laws;
pub mod tap;
pub mod tap_laws;
pub mod text_laws;
pub mod util;
pub mod windows;
pub mod windows_laws;
