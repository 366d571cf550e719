//! A verified core for a small workspace indicator: it reduces a window
//! manager's event stream to a one-window-per-desktop snapshot, resolves
//! each window to an icon through an ordered, regex-driven rule table parsed
//! from a hot-reloadable configuration language, and renders the snapshot
//! through user templates into one composed line per state change.
//!
//! The live transports — the window-manager socket, the display-server
//! connection and the file watcher — live outside this crate and hand it
//! plain values: resolved window identities ride on the events, and every
//! state transition, parse and render here is a pure, specified function.

pub mod config;
pub mod engine;
pub mod icons;
pub mod parser;
pub mod text;
pub mod window;
