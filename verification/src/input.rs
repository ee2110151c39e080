//! Parsers of terminal input.

pub mod bytes;
pub mod unix;
pub mod stream;
pub mod windows;
