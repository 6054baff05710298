//! Linux commands and their output.
pub mod network;
pub mod registry;
