//! ANSI escape sequences. Each function returns the text that, written to
//! a terminal, performs the action.

pub mod cursor;
pub mod screen;
pub mod style;
pub mod mouse;
