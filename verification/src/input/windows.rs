//! Reading the input records of a Windows console as key and mouse events.
//! The records are held as plain values: the program that reads the
//! console copies each `KEY_EVENT_RECORD` and `MOUSE_EVENT_RECORD` into a
//! `KeyEventRecord` or a `MouseEventRecord`.

use vstd::prelude::*;
use crate::enums::{InputEvent, KeyEvent, MouseButton, MouseEvent};

verus! {

/// Virtual key codes of the Windows API.
pub const VK_BACK: u16 = 0x08;
pub const VK_RETURN: u16 = 0x0D;
pub const VK_SHIFT: u16 = 0x10;
pub const VK_CONTROL: u16 = 0x11;
pub const VK_MENU: u16 = 0x12;
pub const VK_ESCAPE: u16 = 0x1B;
pub const VK_PRIOR: u16 = 0x21;
pub const VK_NEXT: u16 = 0x22;
pub const VK_END: u16 = 0x23;
pub const VK_HOME: u16 = 0x24;
pub const VK_LEFT: u16 = 0x25;
pub const VK_UP: u16 = 0x26;
pub const VK_RIGHT: u16 = 0x27;
pub const VK_DOWN: u16 = 0x28;
pub const VK_INSERT: u16 = 0x2D;
pub const VK_DELETE: u16 = 0x2E;
pub const VK_F1: u16 = 0x70;
pub const VK_F12: u16 = 0x7B;

/// Bits of the control key state of the Windows API.
pub const RIGHT_ALT_PRESSED: u32 = 0x0001;
pub const LEFT_ALT_PRESSED: u32 = 0x0002;
pub const RIGHT_CTRL_PRESSED: u32 = 0x0004;
pub const LEFT_CTRL_PRESSED: u32 = 0x0008;
pub const SHIFT_PRESSED: u32 = 0x0010;

/// Which modifier keys were down.
#[derive(Clone, Copy, Debug, PartialEq, Eq, Structural)]
pub struct ControlKeyState(pub u32);

impl ControlKeyState {
    /// Whether any of the keys of `state` was down.
    pub fn has_state(&self, state: u32) -> (res: bool)
        ensures
            res == ((state & self.0) != 0),
    {
        (state & self.0) != 0
    }
}

/// The kind of a mouse event.
#[derive(Clone, Copy, Debug, PartialEq, Eq, Structural)]
pub enum EventFlags {
    PressOrRelease,
    DoubleClick,
    MouseHwheeled,
    MouseMoved,
    MouseWheeled,
}

/// The kinds of mouse event that a console reports.
pub open spec fn known_flags(e: u32) -> bool {
    e == 0 || e == 1 || e == 2 || e == 4 || e == 8
}

impl EventFlags {
    /// The kind of mouse event that `dwEventFlags` gives.
    pub fn from_dword(event: u32) -> (res: EventFlags)
        requires
            known_flags(event),
        ensures
            res == (if event == 0 {
                EventFlags::PressOrRelease
            } else if event == 2 {
                EventFlags::DoubleClick
            } else if event == 8 {
                EventFlags::MouseHwheeled
            } else if event == 1 {
                EventFlags::MouseMoved
            } else {
                EventFlags::MouseWheeled
            }),
    {
        if event == 0 {
            EventFlags::PressOrRelease
        } else if event == 2 {
            EventFlags::DoubleClick
        } else if event == 8 {
            EventFlags::MouseHwheeled
        } else if event == 1 {
            EventFlags::MouseMoved
        } else {
            EventFlags::MouseWheeled
        }
    }
}

/// The state of the mouse buttons.
#[derive(Clone, Copy, Debug, PartialEq, Eq, Structural)]
pub enum ButtonState {
    Release,
    FromLeft1stButtonPressed,
    FromLeft2ndButtonPressed,
    FromLeft3rdButtonPressed,
    FromLeft4thButtonPressed,
    RightmostButtonPressed,
    Unknown,
    /// The wheel turned backward, toward the user.
    Negative,
}

/// The button state that `dwButtonState` gives: one button, or, for a
/// value that is negative as an `i32` (a wheel turned backward), `Negative`.
pub open spec fn button_state_of(e: u32) -> ButtonState {
    if e == 0 {
        ButtonState::Release
    } else if e == 1 {
        ButtonState::FromLeft1stButtonPressed
    } else if e == 4 {
        ButtonState::FromLeft2ndButtonPressed
    } else if e == 8 {
        ButtonState::FromLeft3rdButtonPressed
    } else if e == 0x10 {
        ButtonState::FromLeft4thButtonPressed
    } else if e == 2 {
        ButtonState::RightmostButtonPressed
    } else if e >= 0x8000_0000 {
        ButtonState::Negative
    } else {
        ButtonState::Unknown
    }
}

impl ButtonState {
    /// The button state that `dwButtonState` gives (see `button_state_of`).
    pub fn from_dword(event: u32) -> (res: ButtonState)
        ensures
            res == button_state_of(event),
    {
        if event == 0 {
            ButtonState::Release
        } else if event == 1 {
            ButtonState::FromLeft1stButtonPressed
        } else if event == 4 {
            ButtonState::FromLeft2ndButtonPressed
        } else if event == 8 {
            ButtonState::FromLeft3rdButtonPressed
        } else if event == 0x10 {
            ButtonState::FromLeft4thButtonPressed
        } else if event == 2 {
            ButtonState::RightmostButtonPressed
        } else if event >= 0x8000_0000 {
            ButtonState::Negative
        } else {
            ButtonState::Unknown
        }
    }
}

/// A mouse event of the console.
#[derive(Clone, Copy, Debug)]
pub struct MouseEventRecord {
    pub mouse_position: (i16, i16),
    pub button_state: ButtonState,
    pub control_key_state: ControlKeyState,
    pub event_flags: EventFlags,
}

/// A keyboard event of the console.
#[derive(Clone, Copy, Debug, PartialEq, Eq, Structural)]
pub struct KeyEventRecord {
    pub key_down: bool,
    pub virtual_key_code: u16,
    /// The UTF-16 code unit of the character, if any.
    pub unicode_char: u16,
    pub control_key_state: ControlKeyState,
}

/// An input record of the console.
#[derive(Clone, Copy, Debug)]
pub enum InputRecord {
    Key(KeyEventRecord),
    Mouse(MouseEventRecord),
    WindowBufferSize,
    Focus,
    Menu,
}

/// Whether `char::is_alphabetic` holds of the character.
pub uninterp spec fn alphabetic(c: char) -> bool;

/// `char::is_alphabetic` (std): whether the character has the Unicode
/// `Alphabetic` property. What each character has is left to the name.
#[verifier::external_body]
fn is_alphabetic(c: char) -> (res: bool)
    ensures
        res == alphabetic(c),
{
    c.is_alphabetic()
}

/// The arrow key of a virtual key code, with Ctrl or else Shift.
pub open spec fn arrow_key(code: u16, ctrl: bool, shift: bool) -> KeyEvent {
    if code == VK_LEFT {
        if ctrl { KeyEvent::CtrlLeft } else if shift { KeyEvent::ShiftLeft } else { KeyEvent::Left }
    } else if code == VK_UP {
        if ctrl { KeyEvent::CtrlUp } else if shift { KeyEvent::ShiftUp } else { KeyEvent::Up }
    } else if code == VK_RIGHT {
        if ctrl { KeyEvent::CtrlRight } else if shift { KeyEvent::ShiftRight } else { KeyEvent::Right }
    } else {
        if ctrl { KeyEvent::CtrlDown } else if shift { KeyEvent::ShiftDown } else { KeyEvent::Down }
    }
}

/// The key event of a key press: named keys by their virtual key code;
/// else the character (up to U+00FE), with Alt (a letter key code), Ctrl
/// (a control character) or Shift (a tab is a back tab).
pub open spec fn key_event_of(k: KeyEventRecord) -> KeyEvent {
    let code = k.virtual_key_code;
    let state = k.control_key_state.0;
    if code == VK_SHIFT || code == VK_CONTROL || code == VK_MENU {
        KeyEvent::Null
    } else if code == VK_BACK {
        KeyEvent::Backspace
    } else if code == VK_ESCAPE {
        KeyEvent::Esc
    } else if code == VK_RETURN {
        KeyEvent::Enter
    } else if VK_F1 <= code <= VK_F12 {
        KeyEvent::F((code - 111) as u8)
    } else if VK_LEFT <= code <= VK_DOWN {
        arrow_key(code, (RIGHT_CTRL_PRESSED | LEFT_CTRL_PRESSED) & state != 0, SHIFT_PRESSED & state != 0)
    } else if code == VK_PRIOR {
        KeyEvent::PageUp
    } else if code == VK_NEXT {
        KeyEvent::PageDown
    } else if code == VK_HOME {
        KeyEvent::Home
    } else if code == VK_END {
        KeyEvent::End
    } else if code == VK_DELETE {
        KeyEvent::Delete
    } else if code == VK_INSERT {
        KeyEvent::Insert
    } else if k.unicode_char < 255 {
        let ch = (k.unicode_char as u8) as char;
        if (LEFT_ALT_PRESSED | RIGHT_ALT_PRESSED) & state != 0 {
            let cmd = (code as u8) as char;
            if alphabetic(cmd) { KeyEvent::Alt(cmd) } else { KeyEvent::Null }
        } else if (LEFT_CTRL_PRESSED | RIGHT_CTRL_PRESSED) & state != 0 {
            let c = k.unicode_char as u8;
            if 0x01 <= c <= 0x1A {
                KeyEvent::Ctrl(((c - 1 + 97) as u8) as char)
            } else if 0x1C <= c <= 0x1F {
                KeyEvent::Ctrl(((c - 0x1C + 52) as u8) as char)
            } else {
                KeyEvent::Null
            }
        } else if SHIFT_PRESSED & state != 0 {
            if ch == '\t' { KeyEvent::BackTab } else { KeyEvent::Char(ch) }
        } else {
            if ch == '\t' { KeyEvent::Tab } else { KeyEvent::Char(ch) }
        }
    } else {
        KeyEvent::Null
    }
}

/// The key event of a key press (see `key_event_of`).
pub fn parse_key_event(kevt: &KeyEventRecord) -> (res: KeyEvent)
    ensures
        res == key_event_of(*kevt),
{
    let code = kevt.virtual_key_code;
    let kstate = kevt.control_key_state;
    if code == VK_SHIFT || code == VK_CONTROL || code == VK_MENU {
        KeyEvent::Null
    } else if code == VK_BACK {
        KeyEvent::Backspace
    } else if code == VK_ESCAPE {
        KeyEvent::Esc
    } else if code == VK_RETURN {
        KeyEvent::Enter
    } else if VK_F1 <= code && code <= VK_F12 {
        KeyEvent::F((code - 111) as u8)
    } else if VK_LEFT <= code && code <= VK_DOWN {
        let ctrl = kstate.has_state(RIGHT_CTRL_PRESSED | LEFT_CTRL_PRESSED);
        let shift = kstate.has_state(SHIFT_PRESSED);
        if code == VK_LEFT {
            if ctrl { KeyEvent::CtrlLeft } else if shift { KeyEvent::ShiftLeft } else { KeyEvent::Left }
        } else if code == VK_UP {
            if ctrl { KeyEvent::CtrlUp } else if shift { KeyEvent::ShiftUp } else { KeyEvent::Up }
        } else if code == VK_RIGHT {
            if ctrl { KeyEvent::CtrlRight } else if shift { KeyEvent::ShiftRight } else { KeyEvent::Right }
        } else {
            if ctrl { KeyEvent::CtrlDown } else if shift { KeyEvent::ShiftDown } else { KeyEvent::Down }
        }
    } else if code == VK_PRIOR {
        KeyEvent::PageUp
    } else if code == VK_NEXT {
        KeyEvent::PageDown
    } else if code == VK_HOME {
        KeyEvent::Home
    } else if code == VK_END {
        KeyEvent::End
    } else if code == VK_DELETE {
        KeyEvent::Delete
    } else if code == VK_INSERT {
        KeyEvent::Insert
    } else {
        let chraw = kevt.unicode_char;
        if chraw < 255 {
            let ch = (chraw as u8) as char;
            if kstate.has_state(LEFT_ALT_PRESSED | RIGHT_ALT_PRESSED) {
                let cmd = (code as u8) as char;
                if is_alphabetic(cmd) { KeyEvent::Alt(cmd) } else { KeyEvent::Null }
            } else if kstate.has_state(LEFT_CTRL_PRESSED | RIGHT_CTRL_PRESSED) {
                let c = chraw as u8;
                if 0x01 <= c && c <= 0x1A {
                    KeyEvent::Ctrl((c - 1 + 97) as char)
                } else if 0x1C <= c && c <= 0x1F {
                    KeyEvent::Ctrl((c - 0x1C + 52) as char)
                } else {
                    KeyEvent::Null
                }
            } else if kstate.has_state(SHIFT_PRESSED) {
                if ch == '\t' { KeyEvent::BackTab } else { KeyEvent::Char(ch) }
            } else {
                if ch == '\t' { KeyEvent::Tab } else { KeyEvent::Char(ch) }
            }
        } else {
            KeyEvent::Null
        }
    }
}

/// The mouse event of a mouse record: a press or release of the left,
/// right or middle button, a move with a button held, or a turn of the
/// wheel; else `Unknown`.
pub open spec fn mouse_event_of(m: MouseEventRecord) -> MouseEvent {
    let (x, y) = m.mouse_position;
    match m.event_flags {
        EventFlags::PressOrRelease => match m.button_state {
            ButtonState::Release => MouseEvent::Release(x, y),
            ButtonState::FromLeft1stButtonPressed => MouseEvent::Press(MouseButton::Left, x, y),
            ButtonState::RightmostButtonPressed => MouseEvent::Press(MouseButton::Right, x, y),
            ButtonState::FromLeft2ndButtonPressed => MouseEvent::Press(MouseButton::Middle, x, y),
            _ => MouseEvent::Unknown,
        },
        EventFlags::MouseMoved => if m.button_state != ButtonState::Release {
            MouseEvent::Hold(x, y)
        } else {
            MouseEvent::Unknown
        },
        EventFlags::MouseWheeled => if m.button_state != ButtonState::Negative {
            MouseEvent::Press(MouseButton::WheelUp, x, y)
        } else {
            MouseEvent::Press(MouseButton::WheelDown, x, y)
        },
        EventFlags::DoubleClick => MouseEvent::Unknown,
        EventFlags::MouseHwheeled => MouseEvent::Unknown,
    }
}

/// The mouse event of a mouse record (see `mouse_event_of`).
pub fn parse_mouse_event(mevt: &MouseEventRecord) -> (res: MouseEvent)
    ensures
        res == mouse_event_of(*mevt),
{
    let (x, y) = mevt.mouse_position;
    match mevt.event_flags {
        EventFlags::PressOrRelease => match mevt.button_state {
            ButtonState::Release => MouseEvent::Release(x, y),
            ButtonState::FromLeft1stButtonPressed => MouseEvent::Press(MouseButton::Left, x, y),
            ButtonState::RightmostButtonPressed => MouseEvent::Press(MouseButton::Right, x, y),
            ButtonState::FromLeft2ndButtonPressed => MouseEvent::Press(MouseButton::Middle, x, y),
            _ => MouseEvent::Unknown,
        },
        EventFlags::MouseMoved => {
            if mevt.button_state != ButtonState::Release {
                MouseEvent::Hold(x, y)
            } else {
                MouseEvent::Unknown
            }
        },
        EventFlags::MouseWheeled => {
            if mevt.button_state != ButtonState::Negative {
                MouseEvent::Press(MouseButton::WheelUp, x, y)
            } else {
                MouseEvent::Press(MouseButton::WheelDown, x, y)
            }
        },
        EventFlags::DoubleClick => MouseEvent::Unknown,
        EventFlags::MouseHwheeled => MouseEvent::Unknown,
    }
}

/// The events of a batch of records, in order: a key press or a mouse
/// record gives one; a key release and the other records give none.
pub open spec fn events_of(records: Seq<InputRecord>) -> Seq<InputEvent>
    decreases records.len(),
{
    if records.len() == 0 {
        Seq::empty()
    } else {
        let rest = events_of(records.drop_last());
        match records.last() {
            InputRecord::Key(k) => if k.key_down {
                rest.push(InputEvent::Keyboard(key_event_of(k)))
            } else {
                rest
            },
            InputRecord::Mouse(m) => rest.push(InputEvent::Mouse(mouse_event_of(m))),
            _ => rest,
        }
    }
}

/// The events of a batch of records (see `events_of`).
pub fn read_input_events(records: &Vec<InputRecord>) -> (res: Vec<InputEvent>)
    ensures
        res@ == events_of(records@),
{
    let mut events: Vec<InputEvent> = Vec::new();
    let mut i: usize = 0;
    while i < records.len()
        invariant
            i <= records@.len(),
            events@ == events_of(records@.take(i as int)),
        decreases records.len() - i,
    {
        proof {
            let t = records@.take(i as int + 1);
            assert(t.drop_last() =~= records@.take(i as int));
            assert(t.last() == records@[i as int]);
        }
        match &records[i] {
            InputRecord::Key(k) => {
                if k.key_down {
                    events.push(InputEvent::Keyboard(parse_key_event(k)));
                }
            },
            InputRecord::Mouse(m) => {
                events.push(InputEvent::Mouse(parse_mouse_event(m)));
            },
            _ => {},
        }
        i += 1;
    }
    assert(records@.take(records@.len() as int) =~= records@);
    events
}

} // verus!
