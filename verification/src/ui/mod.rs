//! The interface's non-visual parts: log, configuration guide, actions, status
//! badges, colours.
pub mod action_panel;
pub mod cheatsheet;
pub mod log_panel;
pub mod status_panel;
pub mod theme;
