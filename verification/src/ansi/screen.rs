//! Escape sequences that clear and resize the screen and switch to the
//! alternate screen.

use vstd::prelude::*;
use crate::enums::Clear;
use crate::text::{decimal, push_decimal};

verus! {

/// The sequence that clears the part of the screen that `clr` names.
pub open spec fn clear_seq(clr: Clear) -> Seq<char> {
    match clr {
        Clear::All => "\x1B[2J"@,
        Clear::CursorDn => "\x1B[J"@,
        Clear::CursorUp => "\x1B[1J"@,
        Clear::CurrentLn => "\x1B[2K"@,
        Clear::NewLn => "\x1B[K"@,
    }
}

/// The sequence that clears the part of the screen that `clr` names.
pub fn clear(clr: Clear) -> (res: String)
    ensures
        res@ == clear_seq(clr),
{
    match clr {
        Clear::All => String::from_str("\x1B[2J"),
        Clear::CursorDn => String::from_str("\x1B[J"),
        Clear::CursorUp => String::from_str("\x1B[1J"),
        Clear::CurrentLn => String::from_str("\x1B[2K"),
        Clear::NewLn => String::from_str("\x1B[K"),
    }
}

/// `ESC [ 8 ; h ; w t`: resizes the terminal to `w` columns and `h` rows.
pub open spec fn resize_seq(w: int, h: int) -> Seq<char> {
    seq!['\x1B', '[', '8', ';'] + decimal(h) + seq![';'] + decimal(w) + seq!['t']
}

/// The sequence that resizes the terminal to `w` columns and `h` rows.
pub fn resize(w: i16, h: i16) -> (res: String)
    ensures
        res@ == resize_seq(w as int, h as int),
{
    let mut s = String::new();
    s.push('\x1B');
    s.push('[');
    s.push('8');
    s.push(';');
    push_decimal(&mut s, h as i64);
    s.push(';');
    push_decimal(&mut s, w as i64);
    s.push('t');
    assert(s@ =~= resize_seq(w as int, h as int));
    s
}

/// The sequence that switches to the alternate screen.
pub fn enable_alt() -> (res: String)
    ensures
        res@ == "\x1B[?1049h"@,
{
    String::from_str("\x1B[?1049h")
}

/// The sequence that switches back from the alternate screen.
pub fn disable_alt() -> (res: String)
    ensures
        res@ == "\x1B[?1049l"@,
{
    String::from_str("\x1B[?1049l")
}

} // verus!
