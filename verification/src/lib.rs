//! Terminal front-end for a line-oriented text editor: syntax-highlighted
//! line printing and an interactive, event-driven line-input loop.
//!
//! The crate models rendering as a pure computation from lines and a print
//! configuration to colored text segments, and input handling as a state
//! machine from edit-buffer states and key events to new states, so that
//! both can be specified and verified; the terminal device and the
//! highlighting engine are reached only through small trusted wrappers.

pub mod errors;
pub mod color;
pub mod escape;
pub mod input;
pub mod render;
pub mod syntax;
pub mod term;
pub mod ui;
