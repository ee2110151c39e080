//! Escape sequences that move, show and hide the cursor.

use vstd::prelude::*;
use crate::text::{decimal, push_decimal};

verus! {

/// `ESC [ row+1 ; col+1 H`: moves the cursor to the 0-based (col, row).
pub open spec fn goto_seq(col: int, row: int) -> Seq<char> {
    seq!['\x1B', '['] + decimal(row + 1) + seq![';'] + decimal(col + 1) + seq!['H']
}

/// The sequence that moves the cursor to column `col` and row `row`
/// (both counted from 0).
pub fn goto(col: i16, row: i16) -> (res: String)
    requires
        col < i16::MAX,
        row < i16::MAX,
    ensures
        res@ == goto_seq(col as int, row as int),
{
    let mut s = String::new();
    s.push('\x1B');
    s.push('[');
    push_decimal(&mut s, (row + 1) as i64);
    s.push(';');
    push_decimal(&mut s, (col + 1) as i64);
    s.push('H');
    assert(s@ =~= goto_seq(col as int, row as int));
    s
}


/// `ESC [ n final`: a control sequence with one numeric parameter.
pub open spec fn csi_num(n: int, fin: char) -> Seq<char> {
    seq!['\x1B', '['] + decimal(n) + seq![fin]
}

fn csi_with_num(n: i16, fin: char) -> (res: String)
    ensures
        res@ == csi_num(n as int, fin),
{
    let mut s = String::new();
    s.push('\x1B');
    s.push('[');
    push_decimal(&mut s, n as i64);
    s.push(fin);
    assert(s@ =~= csi_num(n as int, fin));
    s
}

/// The sequence that moves the cursor `n` rows up.
pub fn move_up(n: i16) -> (res: String)
    ensures
        res@ == csi_num(n as int, 'A'),
{
    csi_with_num(n, 'A')
}

/// The sequence that moves the cursor `n` rows down.
pub fn move_down(n: i16) -> (res: String)
    ensures
        res@ == csi_num(n as int, 'B'),
{
    csi_with_num(n, 'B')
}

/// The sequence that moves the cursor `n` columns right.
pub fn move_right(n: i16) -> (res: String)
    ensures
        res@ == csi_num(n as int, 'C'),
{
    csi_with_num(n, 'C')
}

/// The sequence that moves the cursor `n` columns left.
pub fn move_left(n: i16) -> (res: String)
    ensures
        res@ == csi_num(n as int, 'D'),
{
    csi_with_num(n, 'D')
}

/// The sequence that hides the cursor.
pub fn hide_cursor() -> (res: String)
    ensures
        res@ == "\x1B[?25l"@,
{
    String::from_str("\x1B[?25l")
}

/// The sequence that shows the cursor.
pub fn show_cursor() -> (res: String)
    ensures
        res@ == "\x1B[?25h"@,
{
    String::from_str("\x1B[?25h")
}

/// The sequence that asks the terminal to report the cursor position.
pub fn pos() -> (res: String)
    ensures
        res@ == "\x1B[6n"@,
{
    String::from_str("\x1B[6n")
}

} // verus!
