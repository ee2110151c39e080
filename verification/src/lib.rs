//! A terminal library: escape sequences for cursor, screen, style and mouse
//! control, parsers of terminal input, and an in-memory model of the screen
//! that renders only what changed.

pub mod enums;
pub mod text;
pub mod ansi;
pub mod input;
pub mod unicode;
pub mod store;
pub mod actions;
pub mod cache;
pub mod dispatch;
pub mod wincon;
pub mod laws;
pub mod behaviour;
