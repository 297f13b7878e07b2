//! Terminal input decoding and ANSI escape-code construction.

pub mod ansi;
pub mod chars;
pub mod input;
pub mod unix_input;
pub mod windows_input;
