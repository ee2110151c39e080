//! Escape sequences (SGR) that color and format text.

use vstd::prelude::*;
use crate::enums::{Color, Effect, Style};
use crate::text::{decimal, push_decimal};

verus! {

/// The index of a named color in the 256-color palette.
pub open spec fn palette_index(c: Color) -> int {
    match c {
        Color::Black => 0,
        Color::DarkGrey => 8,
        Color::Red => 9,
        Color::DarkRed => 1,
        Color::Green => 10,
        Color::DarkGreen => 2,
        Color::Yellow => 11,
        Color::DarkYellow => 3,
        Color::Blue => 12,
        Color::DarkBlue => 4,
        Color::Magenta => 13,
        Color::DarkMagenta => 5,
        Color::Cyan => 14,
        Color::DarkCyan => 6,
        Color::White => 15,
        Color::Grey => 7,
        Color::AnsiValue(v) => v as int,
        _ => 0,
    }
}

/// The SGR color parameters of a color: `5;n` for a palette color, `2;r;g;b`
/// for a true color, and nothing for `Reset`.
pub open spec fn color_code_seq(c: Color) -> Seq<char> {
    match c {
        Color::Rgb { r, g, b } => seq!['2', ';'] + decimal(r as int) + seq![';'] + decimal(g as int)
            + seq![';'] + decimal(b as int),
        Color::Reset => Seq::empty(),
        _ => seq!['5', ';'] + decimal(palette_index(c)),
    }
}

/// The SGR color parameters of a color (what `String::from(Color)` gives).
pub fn color_code(c: Color) -> (res: String)
    ensures
        res@ == color_code_seq(c),
{
    let mut s = String::new();
    match c {
        Color::Rgb { r, g, b } => {
            s.push('2');
            s.push(';');
            push_decimal(&mut s, r as i64);
            s.push(';');
            push_decimal(&mut s, g as i64);
            s.push(';');
            push_decimal(&mut s, b as i64);
        },
        Color::Reset => {},
        _ => {
            let n: u8 = match c {
                Color::Black => 0,
                Color::DarkGrey => 8,
                Color::Red => 9,
                Color::DarkRed => 1,
                Color::Green => 10,
                Color::DarkGreen => 2,
                Color::Yellow => 11,
                Color::DarkYellow => 3,
                Color::Blue => 12,
                Color::DarkBlue => 4,
                Color::Magenta => 13,
                Color::DarkMagenta => 5,
                Color::Cyan => 14,
                Color::DarkCyan => 6,
                Color::White => 15,
                Color::Grey => 7,
                Color::AnsiValue(v) => v,
                _ => 0,
            };
            s.push('5');
            s.push(';');
            push_decimal(&mut s, n as i64);
        },
    }
    assert(s@ =~= color_code_seq(c));
    s
}

/// `ESC [ 0 m`: resets every color and effect.
pub fn reset() -> (res: String)
    ensures
        res@ == "\x1B[0m"@,
{
    String::from_str("\x1B[0m")
}

/// `ESC [ n m` for the effect `e` when `e` is in the set `f`, else nothing.
pub open spec fn effect_seq(f: u32, e: Effect) -> Seq<char> {
    if f & e.spec_bits() != 0 {
        seq!['\x1B', '['] + decimal(e.spec_sgr() as int) + seq!['m']
    } else {
        Seq::empty()
    }
}

/// The sequences that turn on every effect of the set `f`, in the order
/// reset, bold, dim, underline, reverse, hide.
pub open spec fn effects_seq(f: u32) -> Seq<char> {
    effect_seq(f, Effect::Reset) + effect_seq(f, Effect::Bold) + effect_seq(f, Effect::Dim)
        + effect_seq(f, Effect::Underline) + effect_seq(f, Effect::Reverse) + effect_seq(f, Effect::Hide)
}

/// The sequence for one style setting: `ESC [ 38 ; code m` for a foreground
/// color (`ESC [ 39 m` to reset it), `ESC [ 48 ; code m` for a background
/// color (`ESC [ 49 m` to reset it), and the effect sequences for effects.
pub open spec fn style_seq(style: Style) -> Seq<char> {
    match style {
        Style::Fg(c) => if c == Color::Reset {
            "\x1B[39m"@
        } else {
            "\x1B[38;"@ + color_code_seq(c) + seq!['m']
        },
        Style::Bg(c) => if c == Color::Reset {
            "\x1B[49m"@
        } else {
            "\x1B[48;"@ + color_code_seq(c) + seq!['m']
        },
        Style::Fx(f) => effects_seq(f),
    }
}

fn push_effect(s: &mut String, f: u32, e: Effect)
    ensures
        final(s)@ == old(s)@ + effect_seq(f, e),
{
    if f & e.bits() != 0 {
        let code: u8 = match e {
            Effect::Reset => 0,
            Effect::Bold => 1,
            Effect::Dim => 2,
            Effect::Underline => 4,
            Effect::Reverse => 7,
            Effect::Hide => 8,
        };
        s.push('\x1B');
        s.push('[');
        push_decimal(s, code as i64);
        s.push('m');
    }
    assert(final(s)@ =~= old(s)@ + effect_seq(f, e));
}

/// The sequence for one style setting.
pub fn set_style(style: Style) -> (res: String)
    ensures
        res@ == style_seq(style),
{
    match style {
        Style::Fg(c) => {
            if c == Color::Reset {
                return String::from_str("\x1B[39m");
            }
            let mut s = String::from_str("\x1B[38;");
            let code = color_code(c);
            s.append(code.as_str());
            s.push('m');
            s
        },
        Style::Bg(c) => {
            if c == Color::Reset {
                return String::from_str("\x1B[49m");
            }
            let mut s = String::from_str("\x1B[48;");
            let code = color_code(c);
            s.append(code.as_str());
            s.push('m');
            s
        },
        Style::Fx(f) => {
            let mut s = String::new();
            push_effect(&mut s, f, Effect::Reset);
            push_effect(&mut s, f, Effect::Bold);
            push_effect(&mut s, f, Effect::Dim);
            push_effect(&mut s, f, Effect::Underline);
            push_effect(&mut s, f, Effect::Reverse);
            push_effect(&mut s, f, Effect::Hide);
            assert(s@ =~= effects_seq(f));
            s
        },
    }
}

/// The sequences for a foreground color, a background color and a set of
/// effects, in that order.
pub fn set_styles(fg: Color, bg: Color, fx: u32) -> (res: String)
    ensures
        res@ == style_seq(Style::Fg(fg)) + style_seq(Style::Bg(bg)) + style_seq(Style::Fx(fx)),
{
    let mut s = set_style(Style::Fg(fg));
    let b = set_style(Style::Bg(bg));
    s.append(b.as_str());
    let f = set_style(Style::Fx(fx));
    s.append(f.as_str());
    s
}

} // verus!
