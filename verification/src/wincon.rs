//! The Windows console's side of styles, mouse mode and cursor moves: the
//! text attributes and console modes to set, and the cursor targets to go
//! to. The program that owns the console handle reads the current values
//! and sets the ones computed here.

use vstd::prelude::*;
use crate::enums::{Clear, Color, Effect, Style};

verus! {

/// Text attribute bits of the Windows API.
pub const FG_BLUE: u16 = 0x0001;
pub const FG_GREEN: u16 = 0x0002;
pub const FG_RED: u16 = 0x0004;
pub const FG_INTENSE: u16 = 0x0008;
pub const BG_BLUE: u16 = 0x0010;
pub const BG_GREEN: u16 = 0x0020;
pub const BG_RED: u16 = 0x0040;
pub const BG_INTENSE: u16 = 0x0080;
pub const REVERSE: u16 = 0x4000;
pub const UNDERLINE: u16 = 0x8000;

/// A color that stands for the starting attributes.
pub const RESET: u16 = 0xFFFF;
/// A color the console cannot show, which keeps the current one.
pub const IGNORE: u16 = 0xFFF0;

/// The console input modes that mouse reporting needs: mouse input,
/// extended flags and window input.
pub const MOUSE_MODE: u32 = 0x0010 | 0x0080 | 0x0008;
/// The quick edit console input mode.
pub const QUICK_EDIT: u32 = 0x0040;

/// The foreground attribute bits of a color (`RESET` or `IGNORE` for the
/// colors the console has no bits for).
pub open spec fn fg_bits(color: Color) -> u16 {
    match color {
        Color::Black => 0,
        Color::DarkGrey => FG_INTENSE,
        Color::Red => FG_RED | FG_INTENSE,
        Color::DarkRed => FG_RED,
        Color::Green => FG_GREEN | FG_INTENSE,
        Color::DarkGreen => FG_GREEN,
        Color::Yellow => FG_RED | FG_GREEN | FG_INTENSE,
        Color::DarkYellow => FG_RED | FG_GREEN,
        Color::Blue => FG_BLUE | FG_INTENSE,
        Color::DarkBlue => FG_BLUE,
        Color::Magenta => FG_RED | FG_BLUE | FG_INTENSE,
        Color::DarkMagenta => FG_RED | FG_BLUE,
        Color::Cyan => FG_GREEN | FG_BLUE | FG_INTENSE,
        Color::DarkCyan => FG_GREEN | FG_BLUE,
        Color::White => FG_RED | FG_GREEN | FG_BLUE | FG_INTENSE,
        Color::Grey => FG_RED | FG_GREEN | FG_BLUE,
        Color::Reset => RESET,
        Color::Rgb { .. } => IGNORE,
        Color::AnsiValue(_) => IGNORE,
    }
}

/// The background attribute bits of a color (`RESET` or `IGNORE` as for
/// `fg_bits`).
pub open spec fn bg_bits(color: Color) -> u16 {
    match color {
        Color::Black => 0,
        Color::DarkGrey => BG_INTENSE,
        Color::Red => BG_RED | BG_INTENSE,
        Color::DarkRed => BG_RED,
        Color::Green => BG_GREEN | BG_INTENSE,
        Color::DarkGreen => BG_GREEN,
        Color::Yellow => BG_RED | BG_GREEN | BG_INTENSE,
        Color::DarkYellow => BG_RED | BG_GREEN,
        Color::Blue => BG_BLUE | BG_INTENSE,
        Color::DarkBlue => BG_BLUE,
        Color::Magenta => BG_RED | BG_BLUE | BG_INTENSE,
        Color::DarkMagenta => BG_RED | BG_BLUE,
        Color::Cyan => BG_GREEN | BG_BLUE | BG_INTENSE,
        Color::DarkCyan => BG_GREEN | BG_BLUE,
        Color::White => BG_RED | BG_GREEN | BG_BLUE | BG_INTENSE,
        Color::Grey => BG_RED | BG_GREEN | BG_BLUE,
        Color::Reset => RESET,
        Color::Rgb { .. } => IGNORE,
        Color::AnsiValue(_) => IGNORE,
    }
}

/// The attributes `current` with the foreground set to `color`: `reset`'s
/// foreground for `Reset`, the current one for a color without bits.
pub open spec fn fg_attributes(color: Color, current: u16, reset: u16) -> u16 {
    let a = fg_bits(color);
    let b = if a == RESET { reset & 0x000f } else if a == IGNORE { current & 0x000f } else { a };
    b | (current & !0x000fu16)
}

/// The attributes `current` with the background set to `color` (see
/// `fg_attributes`).
pub open spec fn bg_attributes(color: Color, current: u16, reset: u16) -> u16 {
    let a = bg_bits(color);
    let b = if a == RESET { reset & 0x00f0 } else if a == IGNORE { current & 0x00f0 } else { a };
    b | (current & !0x00f0u16)
}

/// The attributes after the effect `e`, when it is in the set `fx`, starting
/// from `attrib` (the attributes were `current` before any effect): bold
/// sets the foreground intensity, dim clears it, underline and reverse set
/// their bits, hide makes the foreground of the attributes built so far
/// their background, and reset clears the effect bits of `current`.
pub open spec fn fx_step(fx: u32, e: Effect, attrib: u16, current: u16) -> u16 {
    if fx & e.spec_bits() != 0 {
        match e {
            Effect::Bold => attrib | FG_INTENSE,
            Effect::Dim => attrib & !FG_INTENSE,
            Effect::Underline => attrib | UNDERLINE,
            Effect::Reverse => attrib | REVERSE,
            Effect::Hide => ((attrib & 0x00f0) >> 4u16) | (attrib & !0x000fu16),
            Effect::Reset => current & !0xdf00u16,
        }
    } else {
        attrib
    }
}

/// The attributes `current` after the effects of the set `fx`, taken in the
/// order reset, bold, dim, underline, reverse, hide.
pub open spec fn fx_attributes(fx: u32, current: u16) -> u16 {
    let a0 = fx_step(fx, Effect::Reset, current, current);
    let a1 = fx_step(fx, Effect::Bold, a0, current);
    let a2 = fx_step(fx, Effect::Dim, a1, current);
    let a3 = fx_step(fx, Effect::Underline, a2, current);
    let a4 = fx_step(fx, Effect::Reverse, a3, current);
    fx_step(fx, Effect::Hide, a4, current)
}

/// The foreground attribute bits of a color (see `fg_bits`).
fn fg_code(color: Color) -> (res: u16)
    ensures
        res == fg_bits(color),
{
    match color {
        Color::Black => 0,
        Color::DarkGrey => FG_INTENSE,
        Color::Red => FG_RED | FG_INTENSE,
        Color::DarkRed => FG_RED,
        Color::Green => FG_GREEN | FG_INTENSE,
        Color::DarkGreen => FG_GREEN,
        Color::Yellow => FG_RED | FG_GREEN | FG_INTENSE,
        Color::DarkYellow => FG_RED | FG_GREEN,
        Color::Blue => FG_BLUE | FG_INTENSE,
        Color::DarkBlue => FG_BLUE,
        Color::Magenta => FG_RED | FG_BLUE | FG_INTENSE,
        Color::DarkMagenta => FG_RED | FG_BLUE,
        Color::Cyan => FG_GREEN | FG_BLUE | FG_INTENSE,
        Color::DarkCyan => FG_GREEN | FG_BLUE,
        Color::White => FG_RED | FG_GREEN | FG_BLUE | FG_INTENSE,
        Color::Grey => FG_RED | FG_GREEN | FG_BLUE,
        Color::Reset => RESET,
        Color::Rgb { .. } => IGNORE,
        Color::AnsiValue(_) => IGNORE,
    }
}

/// The background attribute bits of a color (see `bg_bits`).
fn bg_code(color: Color) -> (res: u16)
    ensures
        res == bg_bits(color),
{
    match color {
        Color::Black => 0,
        Color::DarkGrey => BG_INTENSE,
        Color::Red => BG_RED | BG_INTENSE,
        Color::DarkRed => BG_RED,
        Color::Green => BG_GREEN | BG_INTENSE,
        Color::DarkGreen => BG_GREEN,
        Color::Yellow => BG_RED | BG_GREEN | BG_INTENSE,
        Color::DarkYellow => BG_RED | BG_GREEN,
        Color::Blue => BG_BLUE | BG_INTENSE,
        Color::DarkBlue => BG_BLUE,
        Color::Magenta => BG_RED | BG_BLUE | BG_INTENSE,
        Color::DarkMagenta => BG_RED | BG_BLUE,
        Color::Cyan => BG_GREEN | BG_BLUE | BG_INTENSE,
        Color::DarkCyan => BG_GREEN | BG_BLUE,
        Color::White => BG_RED | BG_GREEN | BG_BLUE | BG_INTENSE,
        Color::Grey => BG_RED | BG_GREEN | BG_BLUE,
        Color::Reset => RESET,
        Color::Rgb { .. } => IGNORE,
        Color::AnsiValue(_) => IGNORE,
    }
}

/// The attributes `current` with the foreground set to `color` (see
/// `fg_attributes`).
pub fn into_fg(color: Color, current: u16, reset: u16) -> (res: u16)
    ensures
        res == fg_attributes(color, current, reset),
{
    let mut attrib = fg_code(color);
    if attrib == RESET {
        attrib = reset & 0x000f;
    }
    if attrib == IGNORE {
        attrib = current & 0x000f;
    }
    proof {
        assert((reset & 0x000f) != IGNORE) by (bit_vector);
    }
    attrib | (current & !0x000f)
}

/// The attributes `current` with the background set to `color` (see
/// `bg_attributes`).
pub fn into_bg(color: Color, current: u16, reset: u16) -> (res: u16)
    ensures
        res == bg_attributes(color, current, reset),
{
    let mut attrib = bg_code(color);
    if attrib == RESET {
        attrib = reset & 0x00f0;
    }
    if attrib == IGNORE {
        attrib = current & 0x00f0;
    }
    proof {
        assert((reset & 0x00f0) != IGNORE) by (bit_vector);
    }
    attrib | (current & !0x00f0)
}

/// The attributes after one effect (see `fx_step`).
fn apply_effect(fx: u32, e: Effect, attrib: u16, current: u16) -> (res: u16)
    ensures
        res == fx_step(fx, e, attrib, current),
{
    if (fx & e.bits()) != 0 {
        match e {
            Effect::Bold => attrib | FG_INTENSE,
            Effect::Dim => attrib & !FG_INTENSE,
            Effect::Underline => attrib | UNDERLINE,
            Effect::Reverse => attrib | REVERSE,
            Effect::Hide => ((attrib & 0x00f0) >> 4) | (attrib & !0x000f),
            Effect::Reset => current & !0xdf00,
        }
    } else {
        attrib
    }
}

/// The attributes `current` after the effects of the set `fx` (see
/// `fx_attributes`).
pub fn into_fx(fx: u32, current: u16) -> (res: u16)
    ensures
        res == fx_attributes(fx, current),
{
    let a0 = apply_effect(fx, Effect::Reset, current, current);
    let a1 = apply_effect(fx, Effect::Bold, a0, current);
    let a2 = apply_effect(fx, Effect::Dim, a1, current);
    let a3 = apply_effect(fx, Effect::Underline, a2, current);
    let a4 = apply_effect(fx, Effect::Reverse, a3, current);
    apply_effect(fx, Effect::Hide, a4, current)
}

/// The attributes a console had when it started, which `Reset` colors go
/// back to.
pub struct ConsoleOutput(pub u16);

impl ConsoleOutput {
    /// The styles of a console that started with the attributes `initial`.
    pub fn new(initial: u16) -> (res: ConsoleOutput)
        ensures
            res.0 == initial,
    {
        ConsoleOutput(initial)
    }

    /// The attributes `current` after one style setting.
    pub fn set_style(&self, style: Style, current: u16) -> (res: u16)
        ensures
            res == (match style {
                Style::Fg(c) => fg_attributes(c, current, self.0),
                Style::Bg(c) => bg_attributes(c, current, self.0),
                Style::Fx(f) => fx_attributes(f, current),
            }),
    {
        match style {
            Style::Fg(c) => into_fg(c, current, self.0),
            Style::Bg(c) => into_bg(c, current, self.0),
            Style::Fx(f) => into_fx(f, current),
        }
    }

    /// The attributes `current` after a foreground, a background and a set
    /// of effects, in that order.
    pub fn set_styles(&self, fg: Color, bg: Color, fx: u32, current: u16) -> (res: u16)
        ensures
            res == fx_attributes(fx, bg_attributes(bg, fg_attributes(fg, current, self.0), self.0)),
    {
        let a = self.set_style(Style::Fg(fg), current);
        let b = self.set_style(Style::Bg(bg), a);
        self.set_style(Style::Fx(fx), b)
    }
}

/// The console input mode `mode` with mouse reporting on (and quick edit
/// off).
pub fn enable_mouse_mode(mode: u32) -> (res: u32)
    ensures
        res == (mode | MOUSE_MODE) & !QUICK_EDIT,
{
    (mode | MOUSE_MODE) & !QUICK_EDIT
}

/// The console input mode `mode` with mouse reporting off (and quick edit
/// on).
pub fn disable_mouse_mode(mode: u32) -> (res: u32)
    ensures
        res == (mode & !MOUSE_MODE) | QUICK_EDIT,
{
    (mode & !MOUSE_MODE) | QUICK_EDIT
}

/// Whether the console takes (col, row) as a cursor position.
pub open spec fn valid_pos(col: int, row: int) -> bool {
    0 <= col < i16::MAX && 0 <= row < i16::MAX
}

/// The cursor position to go to, or `None` where the console refuses it.
pub fn goto(col: i16, row: i16) -> (res: Option<(i16, i16)>)
    ensures
        res == (if valid_pos(col as int, row as int) { Some((col, row)) } else { None }),
{
    if col < 0 || col >= i16::MAX || row < 0 || row >= i16::MAX {
        None
    } else {
        Some((col, row))
    }
}

/// The target `n` rows up from `pos` (see `goto`).
pub fn move_up(n: i16, pos: (i16, i16)) -> (res: Option<(i16, i16)>)
    requires
        i16::MIN <= pos.1 - n <= i16::MAX,
    ensures
        res == (if valid_pos(pos.0 as int, pos.1 - n) { Some((pos.0, (pos.1 - n) as i16)) } else { None }),
{
    goto(pos.0, pos.1 - n)
}

/// The target `n` columns right from `pos` (see `goto`).
pub fn move_right(n: i16, pos: (i16, i16)) -> (res: Option<(i16, i16)>)
    requires
        i16::MIN <= pos.0 + n <= i16::MAX,
    ensures
        res == (if valid_pos(pos.0 + n, pos.1 as int) { Some(((pos.0 + n) as i16, pos.1)) } else { None }),
{
    goto(pos.0 + n, pos.1)
}

/// The target `n` rows down from `pos` (see `goto`).
pub fn move_down(n: i16, pos: (i16, i16)) -> (res: Option<(i16, i16)>)
    requires
        i16::MIN <= pos.1 + n <= i16::MAX,
    ensures
        res == (if valid_pos(pos.0 as int, pos.1 + n) { Some((pos.0, (pos.1 + n) as i16)) } else { None }),
{
    goto(pos.0, pos.1 + n)
}

/// The target `n` columns left from `pos` (see `goto`).
pub fn move_left(n: i16, pos: (i16, i16)) -> (res: Option<(i16, i16)>)
    requires
        i16::MIN <= pos.0 - n <= i16::MAX,
    ensures
        res == (if valid_pos(pos.0 - n, pos.1 as int) { Some(((pos.0 - n) as i16, pos.1)) } else { None }),
{
    goto(pos.0 - n, pos.1)
}

/// The attribute bits that draw around a cell (leading and trailing byte,
/// grid lines, reverse video, underscore), which clearing leaves out.
pub const CELL_DECORATIONS: u16 = 0x0100 | 0x0200 | 0x0400 | 0x0800 | 0x1000 | 0x4000 | 0x8000;

/// What clearing the console fills: `cells` cells from `start`, with
/// spaces in the attributes `attr`.
#[derive(Clone, Copy, Debug, PartialEq, Eq, Structural)]
pub struct ClearPlan {
    pub start_col: i16,
    pub start_row: i16,
    pub cells: u32,
    pub attr: u16,
}

/// The cells that clearing with `clr` fills, for the cursor at `pos` in a
/// buffer of `size` cells whose attributes are `attrs`.
pub open spec fn clear_plan_of(clr: Clear, pos: (i16, i16), size: (i16, i16), attrs: u16) -> ClearPlan {
    let (x, y) = (pos.0 as int, pos.1 as int);
    let (bw, bh) = (size.0 as int, size.1 as int);
    let attr = attrs & !CELL_DECORATIONS;
    match clr {
        Clear::All => ClearPlan { start_col: 0, start_row: 0, cells: (bw * bh) as u32, attr },
        Clear::CursorDn => {
            let (x2, y2) = if x > bw { (0, y + 1) } else { (x, y) };
            ClearPlan { start_col: x2 as i16, start_row: y2 as i16, cells: ((bw - x2) + bw * (bh - y2)) as u32, attr }
        },
        Clear::CursorUp => ClearPlan { start_col: 0, start_row: 0, cells: (bw * y + x + 1) as u32, attr },
        Clear::CurrentLn => ClearPlan { start_col: 0, start_row: pos.1, cells: bw as u32, attr },
        Clear::NewLn => ClearPlan { start_col: pos.0, start_row: pos.1, cells: ((bw - x) as i16) as u32, attr },
    }
}

/// The positions and sizes that clearing takes without overflowing.
pub open spec fn clear_ok(clr: Clear, pos: (i16, i16), size: (i16, i16)) -> bool {
    let (x, y) = (pos.0 as int, pos.1 as int);
    let (bw, bh) = (size.0 as int, size.1 as int);
    &&& 0 <= x && 0 <= y && 0 <= bw && 0 <= bh
    &&& clr is CursorDn ==> (if x > bw { y + 1 <= bh } else { x <= bw && y <= bh })
}

/// What clearing the console with `clr` fills (see `clear_plan_of`).
pub fn clear(clr: Clear, pos: (i16, i16), size: (i16, i16), attrs: u16) -> (res: ClearPlan)
    requires
        clear_ok(clr, pos, size),
    ensures
        res == clear_plan_of(clr, pos, size, attrs),
{
    let attr = attrs & !CELL_DECORATIONS;
    let (bw, bh) = (size.0 as u32, size.1 as u32);
    proof {
        assert(bw * bh <= 32767 * 32767) by (nonlinear_arith)
            requires
                bw <= 32767,
                bh <= 32767,
        ;
    }
    match clr {
        Clear::All => ClearPlan { start_col: 0, start_row: 0, cells: bw * bh, attr },
        Clear::CursorDn => {
            let (mut x, mut y) = (pos.0, pos.1);
            if x > size.0 {
                y = y + 1;
                x = 0;
            }
            proof {
                assert(bw * (bh - y as u32) <= 32767 * 32767) by (nonlinear_arith)
                    requires
                        bw <= 32767,
                        bh - y <= 32767,
                        y <= bh,
                ;
            }
            let cells = (bw - x as u32) + bw * (bh - y as u32);
            ClearPlan { start_col: x, start_row: y, cells, attr }
        },
        Clear::CursorUp => {
            let yy = pos.1 as u32;
            proof {
                assert(bw * yy <= 32767 * 32767) by (nonlinear_arith)
                    requires
                        bw <= 32767,
                        yy <= 32767,
                ;
            }
            let cells = bw * yy + (pos.0 as u32 + 1);
            ClearPlan { start_col: 0, start_row: 0, cells, attr }
        },
        Clear::CurrentLn => ClearPlan { start_col: 0, start_row: pos.1, cells: bw, attr },
        Clear::NewLn => {
            let n = size.0 - pos.0;
            ClearPlan { start_col: pos.0, start_row: pos.1, cells: n as u32, attr }
        },
    }
}

/// Why the console cannot take a size.
#[derive(Clone, Copy, Debug, PartialEq, Eq, Structural)]
pub enum ResizeError {
    WidthBelowOne,
    HeightBelowOne,
    WidthOutOfRange,
    HeightOutOfRange,
    WidthOverLargest(i16),
    HeightOverLargest(i16),
}

/// How to resize the console window to `w` by `h`: grow the buffer to
/// `buffer` first where it is too small (and put it back after), then set
/// the window to the rectangle from (`left`, `top`) to (`right`, `bottom`).
#[derive(Clone, Copy, Debug, PartialEq, Eq, Structural)]
pub struct ResizePlan {
    pub resize_buffer: bool,
    pub buffer_w: i16,
    pub buffer_h: i16,
    pub left: i16,
    pub top: i16,
    pub right: i16,
    pub bottom: i16,
}

/// How to resize a window at (`left`, `top`) with a buffer of `buf` cells
/// to `w` by `h`, or why it cannot be done.
pub open spec fn resize_plan_of(w: i16, h: i16, buf: (i16, i16), left: i16, top: i16) -> Result<ResizePlan, ResizeError> {
    if w <= 0 {
        Err(ResizeError::WidthBelowOne)
    } else if h <= 0 {
        Err(ResizeError::HeightBelowOne)
    } else if buf.0 < left + w && left >= i16::MAX - w {
        Err(ResizeError::WidthOutOfRange)
    } else if buf.1 < top + h && top >= i16::MAX - h {
        Err(ResizeError::HeightOutOfRange)
    } else {
        let grow_w = buf.0 < left + w;
        let grow_h = buf.1 < top + h;
        Ok(ResizePlan {
            resize_buffer: grow_w || grow_h,
            buffer_w: if grow_w { (left + w) as i16 } else { buf.0 },
            buffer_h: if grow_h { (top + h) as i16 } else { buf.1 },
            left,
            top,
            right: (left + w) as i16,
            bottom: (top + h) as i16,
        })
    }
}

/// How to resize the console window to `w` by `h` (see `resize_plan_of`).
pub fn resize(w: i16, h: i16, buf: (i16, i16), left: i16, top: i16) -> (res: Result<ResizePlan, ResizeError>)
    requires
        w <= 0 || i16::MIN <= left + w <= i16::MAX,
        w <= 0 || h <= 0 || i16::MIN <= top + h <= i16::MAX,
    ensures
        res == resize_plan_of(w, h, buf, left, top),
{
    if w <= 0 {
        return Err(ResizeError::WidthBelowOne);
    }
    if h <= 0 {
        return Err(ResizeError::HeightBelowOne);
    }
    let (mut new_w, mut new_h) = (buf.0, buf.1);
    let mut resize_buffer = false;
    if buf.0 < left + w {
        if left >= i16::MAX - w {
            return Err(ResizeError::WidthOutOfRange);
        }
        new_w = left + w;
        resize_buffer = true;
    }
    if buf.1 < top + h {
        if top >= i16::MAX - h {
            return Err(ResizeError::HeightOutOfRange);
        }
        new_h = top + h;
        resize_buffer = true;
    }
    Ok(ResizePlan {
        resize_buffer,
        buffer_w: new_w,
        buffer_h: new_h,
        left,
        top,
        right: left + w,
        bottom: top + h,
    })
}

/// After the window was set: the size must not pass the largest window
/// the console can show.
pub fn check_largest(w: i16, h: i16, largest: (i16, i16)) -> (res: Result<(), ResizeError>)
    ensures
        res == (if w > largest.0 {
            Err(ResizeError::WidthOverLargest(w))
        } else if h > largest.1 {
            Err(ResizeError::HeightOverLargest(h))
        } else {
            Ok(())
        }),
{
    if w > largest.0 {
        Err(ResizeError::WidthOverLargest(w))
    } else if h > largest.1 {
        Err(ResizeError::HeightOverLargest(h))
    } else {
        Ok(())
    }
}

/// The size of a window whose last column and row are `last`.
pub fn size(last: (i16, i16)) -> (res: (i16, i16))
    requires
        last.0 < i16::MAX,
        last.1 < i16::MAX,
    ensures
        res == ((last.0 + 1) as i16, (last.1 + 1) as i16),
{
    (last.0 + 1, last.1 + 1)
}

/// Whether two texts are the same.
fn same_text(a: &str, b: &str) -> (res: bool)
    ensures
        res == (a@ == b@),
{
    let n = a.unicode_len();
    if n != b.unicode_len() {
        return false;
    }
    let mut i: usize = 0;
    while i < n
        invariant
            n == a@.len() == b@.len(),
            i <= n,
            forall|j: int| 0 <= j < i ==> a@[j] == b@[j],
        decreases n - i,
    {
        if a.get_char(i) != b.get_char(i) {
            return false;
        }
        i += 1;
    }
    assert(a@ =~= b@);
    true
}

/// Whether `t` names a terminal known to take escape sequences.
pub open spec fn known_term(t: Seq<char>) -> bool {
    ||| t == "xterm"@
    ||| t == "rxvt"@
    ||| t == "eterm"@
    ||| t == "screen"@
    ||| t == "tmux"@
    ||| t == "vt100"@
    ||| t == "vt102"@
    ||| t == "vt220"@
    ||| t == "vt320"@
    ||| t == "ansi"@
    ||| t == "scoansi"@
    ||| t == "cygwin"@
    ||| t == "linux"@
    ||| t == "konsole"@
    ||| t == "bvterm"@
}

/// Whether the terminal named by `TERM` (none when it is not set) takes
/// escape sequences: any name but `dumb`, or a known one.
pub open spec fn ansi_term(term: Option<Seq<char>>) -> bool {
    match term {
        Some(t) => t != "dumb"@ || known_term(t),
        None => false,
    }
}

/// Whether the terminal named by `TERM` takes escape sequences (see
/// `ansi_term`). Where it does not, the console is asked to take them
/// (`vt_mode`).
pub fn is_ansi_term(term: Option<&str>) -> (res: bool)
    ensures
        res == ansi_term(match term {
            Some(t) => Some(t@),
            None => None,
        }),
{
    match term {
        None => false,
        Some(t) => {
            proof {
                reveal_strlit("xterm");
                reveal_strlit("rxvt");
                reveal_strlit("eterm");
                reveal_strlit("screen");
                reveal_strlit("tmux");
                reveal_strlit("vt100");
                reveal_strlit("vt102");
                reveal_strlit("vt220");
                reveal_strlit("vt320");
                reveal_strlit("ansi");
                reveal_strlit("scoansi");
                reveal_strlit("cygwin");
                reveal_strlit("linux");
                reveal_strlit("konsole");
                reveal_strlit("bvterm");
            }
            !same_text(t, "dumb") || same_text(t, "xterm") || same_text(t, "rxvt") || same_text(t, "eterm") || same_text(t, "screen") || same_text(t, "tmux") || same_text(t, "vt100") || same_text(t, "vt102") || same_text(t, "vt220") || same_text(t, "vt320") || same_text(t, "ansi") || same_text(t, "scoansi") || same_text(t, "cygwin") || same_text(t, "linux") || same_text(t, "konsole") || same_text(t, "bvterm")
        },
    }
}

/// The console output mode `mode` with escape sequences turned on.
pub fn vt_mode(mode: u32) -> (res: u32)
    ensures
        res == mode | 0x0004,
{
    mode | 0x0004
}

} // verus!
