//! The state of each screen: an in-memory model of its cells, and the
//! modes and cursor that the terminal shows on it.

pub mod buffer;
pub mod parse;
pub mod screens;
