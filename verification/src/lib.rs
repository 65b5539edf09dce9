//! An in-process shell: a dispatcher and a small set of file utilities.
//!
//! The library never touches the operating system. Every command is a state
//! machine: it says which operation the host has to perform next, and is
//! resumed with what the host observed.

pub mod commands;
pub mod host;
pub mod machine;
pub mod shell;
pub mod utils;
