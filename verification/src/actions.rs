//! What each terminal action writes to the terminal. The caller sends the
//! returned text to standard output; a negative count or coordinate is
//! taken by its absolute value.

use vstd::prelude::*;
use crate::ansi::{cursor, mouse, screen, style};
use crate::ansi::cursor::{csi_num, goto_seq};
use crate::ansi::screen::{clear_seq, resize_seq};
use crate::ansi::style::style_seq;
use crate::enums::{Clear, Color, Style};
use crate::store::buffer::abs;
use crate::input::bytes::{parse_i16, parse_int};

verus! {

/// The absolute value of `n`.
pub fn magnitude(n: i16) -> (res: i16)
    requires
        n > i16::MIN,
    ensures
        res == abs(n as int),
{
    if n < 0 { -n } else { n }
}

/// Moves the cursor to column `col` and row `row` (counted from 0).
pub fn goto(col: i16, row: i16) -> (res: String)
    requires
        i16::MIN < col,
        i16::MIN < row,
        abs(col as int) < i16::MAX,
        abs(row as int) < i16::MAX,
    ensures
        res@ == goto_seq(abs(col as int), abs(row as int)),
{
    cursor::goto(magnitude(col), magnitude(row))
}

/// Moves the cursor `n` rows up.
pub fn up(n: i16) -> (res: String)
    requires
        n > i16::MIN,
    ensures
        res@ == csi_num(abs(n as int), 'A'),
{
    cursor::move_up(magnitude(n))
}

/// Moves the cursor `n` rows down.
pub fn down(n: i16) -> (res: String)
    requires
        n > i16::MIN,
    ensures
        res@ == csi_num(abs(n as int), 'B'),
{
    cursor::move_down(magnitude(n))
}

/// Moves the cursor `n` columns left.
pub fn left(n: i16) -> (res: String)
    requires
        n > i16::MIN,
    ensures
        res@ == csi_num(abs(n as int), 'D'),
{
    cursor::move_left(magnitude(n))
}

/// Moves the cursor `n` columns right.
pub fn right(n: i16) -> (res: String)
    requires
        n > i16::MIN,
    ensures
        res@ == csi_num(abs(n as int), 'C'),
{
    cursor::move_right(magnitude(n))
}

/// Asks the terminal to report the cursor position.
pub fn query_pos() -> (res: String)
    ensures
        res@ == "\x1B[6n"@,
{
    cursor::pos()
}

/// Hides the cursor.
pub fn hide_cursor() -> (res: String)
    ensures
        res@ == "\x1B[?25l"@,
{
    cursor::hide_cursor()
}

/// Shows the cursor.
pub fn show_cursor() -> (res: String)
    ensures
        res@ == "\x1B[?25h"@,
{
    cursor::show_cursor()
}

/// Clears the part of the screen that `method` names.
pub fn clear(method: Clear) -> (res: String)
    ensures
        res@ == clear_seq(method),
{
    screen::clear(method)
}

/// Resizes the terminal to `w` columns and `h` rows.
pub fn resize(w: i16, h: i16) -> (res: String)
    ensures
        res@ == resize_seq(w as int, h as int),
{
    screen::resize(w, h)
}

/// Switches to the alternate screen.
pub fn enable_alt() -> (res: String)
    ensures
        res@ == "\x1B[?1049h"@,
{
    screen::enable_alt()
}

/// Switches back to the main screen.
pub fn disable_alt() -> (res: String)
    ensures
        res@ == "\x1B[?1049l"@,
{
    screen::disable_alt()
}

/// Turns mouse reporting on.
pub fn enable_mouse() -> (res: String)
    ensures
        res@ == "\x1B[?1000h\x1B[?1002h\x1B[?1015h\x1B[?1006h"@,
{
    mouse::enable_mouse_mode()
}

/// Turns mouse reporting off.
pub fn disable_mouse() -> (res: String)
    ensures
        res@ == "\x1B[?1006l\x1B[?1015l\x1B[?1002l\x1B[?1000l"@,
{
    mouse::disable_mouse_mode()
}

/// Turns on the effects of the set `effects`.
pub fn set_fx(effects: u32) -> (res: String)
    ensures
        res@ == style_seq(Style::Fx(effects)),
{
    style::set_style(Style::Fx(effects))
}

/// Sets the foreground color.
pub fn set_fg(color: Color) -> (res: String)
    ensures
        res@ == style_seq(Style::Fg(color)),
{
    style::set_style(Style::Fg(color))
}

/// Sets the background color.
pub fn set_bg(color: Color) -> (res: String)
    ensures
        res@ == style_seq(Style::Bg(color)),
{
    style::set_style(Style::Bg(color))
}

/// Sets the foreground, the background and the effects.
pub fn set_styles(fg: Color, bg: Color, fx: u32) -> (res: String)
    ensures
        res@ == style_seq(Style::Fg(fg)) + style_seq(Style::Bg(bg)) + style_seq(Style::Fx(fx)),
{
    style::set_styles(fg, bg, fx)
}

/// Resets every color and effect.
pub fn reset_styles() -> (res: String)
    ensures
        res@ == "\x1B[0m"@,
{
    style::reset()
}

/// `n - 1`, stopping at `i16::MIN`.
pub open spec fn minus_one(n: int) -> int {
    if n - 1 < i16::MIN { i16::MIN as int } else { n - 1 }
}

/// The 0-based (column, row) of a cursor report `ESC [ row ; col R`, from
/// the bytes of its row and column numbers (counted from 1); `None` where
/// one of them is not a number.
pub fn pos_from_report(row: &[u8], col: &[u8]) -> (res: Option<(i16, i16)>)
    ensures
        match (parse_int(row@, true, i16::MIN as int, i16::MAX as int), parse_int(col@, true, i16::MIN as int, i16::MAX as int)) {
            (Some(r), Some(c)) => res == Some((minus_one(c) as i16, minus_one(r) as i16)),
            _ => res is None,
        },
{
    match (parse_i16(row), parse_i16(col)) {
        (Some(r), Some(c)) => Some((if c == i16::MIN { c } else { c - 1 }, if r == i16::MIN { r } else { r - 1 })),
        _ => None,
    }
}

/// The tab width the terminal uses: the columns a tab moved the cursor,
/// from the column reported before and the one after.
pub fn tab_width_from_reports(before: i16, after: i16) -> (res: usize)
    requires
        after >= before,
    ensures
        res == after - before,
{
    (after as i32 - before as i32) as usize
}

} // verus!
