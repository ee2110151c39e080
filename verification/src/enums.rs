//! The vocabulary shared by every part of the library.

use vstd::prelude::*;

verus! {

/// The colors a terminal can paint text and background with.
#[derive(Clone, Copy, Debug, PartialEq, Eq, Structural)]
pub enum Color {
    Black,
    DarkGrey,
    Red,
    DarkRed,
    Green,
    DarkGreen,
    Yellow,
    DarkYellow,
    Blue,
    DarkBlue,
    Magenta,
    DarkMagenta,
    Cyan,
    DarkCyan,
    White,
    Grey,
    Rgb { r: u8, g: u8, b: u8 },
    AnsiValue(u8),
    Reset,
}

/// Text effects. Each effect is one bit of a `u32` set (see `Effect::bits`),
/// so that several effects can be combined with `|`.
#[derive(Clone, Copy, Debug, PartialEq, Eq, Structural)]
pub enum Effect {
    Reset,
    Bold,
    Dim,
    Underline,
    Reverse,
    Hide,
}

impl Effect {
    /// The bit of an effect set that stands for this effect.
    pub open spec fn spec_bits(self) -> u32 {
        match self {
            Effect::Reset => 0x200,
            Effect::Bold => 0x400,
            Effect::Dim => 0x800,
            Effect::Underline => 0x2000,
            Effect::Reverse => 0x1_0000,
            Effect::Hide => 0x2_0000,
        }
    }

    /// The bit of an effect set that stands for this effect.
    #[verifier::when_used_as_spec(spec_bits)]
    pub fn bits(self) -> (res: u32)
        ensures
            res == self.spec_bits(),
    {
        match self {
            Effect::Reset => 0x200,
            Effect::Bold => 0x400,
            Effect::Dim => 0x800,
            Effect::Underline => 0x2000,
            Effect::Reverse => 0x1_0000,
            Effect::Hide => 0x2_0000,
        }
    }

    /// The SGR parameter of the effect: the number of trailing zero bits
    /// of `bits() >> 9`.
    pub open spec fn spec_sgr(self) -> u32 {
        match self {
            Effect::Reset => 0,
            Effect::Bold => 1,
            Effect::Dim => 2,
            Effect::Underline => 4,
            Effect::Reverse => 7,
            Effect::Hide => 8,
        }
    }
}

/// One style setting: a foreground color, a background color or a set of
/// effects.
#[derive(Clone, Copy, Debug, PartialEq, Eq, Structural)]
pub enum Style {
    Fg(Color),
    Bg(Color),
    Fx(u32),
}

/// The ways of clearing the screen.
#[derive(Clone, Copy, Debug, PartialEq, Eq, Structural)]
pub enum Clear {
    /// clear all cells in terminal
    All,
    /// clear all cells from the cursor downwards
    CursorDn,
    /// clear all cells from the cursor upwards
    CursorUp,
    /// clear the current line
    CurrentLn,
    /// clear all cells from the cursor until a new line
    NewLn,
}

/// A key press.
#[derive(Clone, Copy, Debug, PartialEq, Eq)]
pub enum KeyEvent {
    Null,
    Backspace,
    Enter,
    Tab,
    BackTab,
    Left,
    Right,
    Up,
    Down,
    Home,
    End,
    PageUp,
    PageDown,
    Delete,
    Insert,
    Esc,
    F(u8),
    Char(char),
    Alt(char),
    Ctrl(char),
    CtrlUp,
    CtrlDown,
    CtrlLeft,
    CtrlRight,
    ShiftUp,
    ShiftDown,
    ShiftLeft,
    ShiftRight,
}

/// A mouse button.
#[derive(Clone, Copy, Debug, PartialEq, Eq)]
pub enum MouseButton {
    Left,
    Right,
    Middle,
    WheelUp,
    WheelDown,
}

/// A mouse event at a (column, row) position.
#[derive(Clone, Copy, Debug, PartialEq, Eq)]
pub enum MouseEvent {
    Press(MouseButton, i16, i16),
    Release(i16, i16),
    Hold(i16, i16),
    Unknown,
}

/// An answer from the screen state, or a report of the terminal.
#[derive(Clone, Debug, PartialEq, Eq)]
pub enum StoreEvent {
    Size(i16, i16),
    Coord(i16, i16),
    SysPos(i16, i16),
    Pos(i16, i16),
    GetCh(String),
}

/// What the input of the terminal means.
#[derive(Clone, Debug, PartialEq, Eq)]
pub enum InputEvent {
    Keyboard(KeyEvent),
    Mouse(MouseEvent),
    Unsupported,
    Dispatch(StoreEvent),
}

} // verus!
