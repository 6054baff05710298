//! Windows commands and their output.
pub mod network;
pub mod powershell;
pub mod registry;
