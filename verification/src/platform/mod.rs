//! Platform-specific commands and the meaning of their output.
pub mod linux;
pub mod windows;
