//! Route-splitting helper library: the commands that inspect and change the
//! routing table on Linux and Windows and the meaning of their output, the
//! adapter and route models, the proxy switch, the configuration snippets that
//! keep a proxy away from internal networks, the bounded execution log, and the
//! application state with its transitions.

pub mod app;
pub mod command;
pub mod icon;
pub mod network;
pub mod platform;
pub mod registry;
pub mod text;
pub mod ui;
