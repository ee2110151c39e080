use tuitty::enums::{Clear, Color, Effect, InputEvent, KeyEvent, MouseButton, MouseEvent, Style};
use tuitty::input::windows::{
    parse_key_event, parse_mouse_event, read_input_events, ButtonState, ControlKeyState,
    EventFlags, InputRecord, KeyEventRecord, MouseEventRecord,
};
use tuitty::wincon::{
    check_largest, clear, disable_mouse_mode, enable_mouse_mode, goto, into_bg, into_fg, into_fx,
    is_ansi_term, move_left, move_up, resize, size, vt_mode, ClearPlan, ConsoleOutput,
    ResizeError, ResizePlan,
};

fn key(code: u16, ch: u16, state: u32) -> KeyEventRecord {
    KeyEventRecord {
        key_down: true,
        virtual_key_code: code,
        unicode_char: ch,
        control_key_state: ControlKeyState(state),
    }
}

fn mouse(flags: EventFlags, buttons: ButtonState) -> MouseEventRecord {
    MouseEventRecord {
        mouse_position: (3, 4),
        button_state: buttons,
        control_key_state: ControlKeyState(0),
        event_flags: flags,
    }
}

#[test]
fn console_keys() {
    assert_eq!(parse_key_event(&key(0x10, 0, 0)), KeyEvent::Null);
    assert_eq!(parse_key_event(&key(0x08, 0, 0)), KeyEvent::Backspace);
    assert_eq!(parse_key_event(&key(0x72, 0, 0)), KeyEvent::F(3));
    assert_eq!(parse_key_event(&key(0x25, 0, 0x0008)), KeyEvent::CtrlLeft);
    assert_eq!(parse_key_event(&key(0x26, 0, 0x0010)), KeyEvent::ShiftUp);
    assert_eq!(parse_key_event(&key(0x28, 0, 0)), KeyEvent::Down);
    assert_eq!(parse_key_event(&key(0x21, 0, 0)), KeyEvent::PageUp);
    assert_eq!(parse_key_event(&key(0x41, 'a' as u16, 0)), KeyEvent::Char('a'));
    assert_eq!(parse_key_event(&key(0x41, 'a' as u16, 0x0002)), KeyEvent::Alt('A'));
    assert_eq!(parse_key_event(&key(0x31, '1' as u16, 0x0001)), KeyEvent::Null);
    assert_eq!(parse_key_event(&key(0x41, 0x01, 0x0004)), KeyEvent::Ctrl('a'));
    assert_eq!(parse_key_event(&key(0x09, '\t' as u16, 0x0010)), KeyEvent::BackTab);
    assert_eq!(parse_key_event(&key(0x09, '\t' as u16, 0)), KeyEvent::Tab);
    assert_eq!(parse_key_event(&key(0x41, 0x4E2D, 0)), KeyEvent::Null);
}

#[test]
fn console_mouse() {
    assert_eq!(
        parse_mouse_event(&mouse(EventFlags::PressOrRelease, ButtonState::FromLeft1stButtonPressed)),
        MouseEvent::Press(MouseButton::Left, 3, 4)
    );
    assert_eq!(
        parse_mouse_event(&mouse(EventFlags::PressOrRelease, ButtonState::Release)),
        MouseEvent::Release(3, 4)
    );
    assert_eq!(
        parse_mouse_event(&mouse(EventFlags::MouseMoved, ButtonState::RightmostButtonPressed)),
        MouseEvent::Hold(3, 4)
    );
    assert_eq!(
        parse_mouse_event(&mouse(EventFlags::MouseWheeled, ButtonState::Negative)),
        MouseEvent::Press(MouseButton::WheelDown, 3, 4)
    );
    assert_eq!(parse_mouse_event(&mouse(EventFlags::DoubleClick, ButtonState::Release)), MouseEvent::Unknown);
    assert_eq!(ButtonState::from_dword(0xFF88_0000), ButtonState::Negative);
    assert_eq!(ButtonState::from_dword(0x40), ButtonState::Unknown);
    assert_eq!(EventFlags::from_dword(4), EventFlags::MouseWheeled);
    assert!(ControlKeyState(0x0018).has_state(0x0010));
    assert!(!ControlKeyState(0x0018).has_state(0x0003));
}

#[test]
fn console_records() {
    let mut released = key(0x41, 'a' as u16, 0);
    released.key_down = false;
    let records = vec![
        InputRecord::Key(key(0x41, 'b' as u16, 0)),
        InputRecord::Key(released),
        InputRecord::Focus,
        InputRecord::Mouse(mouse(EventFlags::PressOrRelease, ButtonState::Release)),
    ];
    assert_eq!(
        read_input_events(&records),
        vec![
            InputEvent::Keyboard(KeyEvent::Char('b')),
            InputEvent::Mouse(MouseEvent::Release(3, 4)),
        ]
    );
}

#[test]
fn console_colors() {
    assert_eq!(into_fg(Color::Red, 0x00F7, 0x0007), 0x00FC);
    assert_eq!(into_fg(Color::Reset, 0x00F1, 0x0007), 0x00F7);
    assert_eq!(into_fg(Color::AnsiValue(3), 0x00F1, 0x0007), 0x00F1);
    assert_eq!(into_bg(Color::Blue, 0x0007, 0x0000), 0x0097);
    assert_eq!(into_fx(Effect::Bold.bits() | Effect::Underline.bits(), 0x0007), 0x800F);
    assert_eq!(into_fx(Effect::Hide.bits(), 0x0027), 0x0022);
    assert_eq!(into_fx(Effect::Reset.bits(), 0xC0F7), 0x00F7);
    assert_eq!(into_fx(Effect::Underline.bits() | Effect::Hide.bits(), 0x0020), 0x8022);
    assert_eq!(into_fg(Color::DarkRed, 0, 0), 0x0004);
    assert_eq!(into_fg(Color::DarkGreen, 0, 0), 0x0002);
    assert_eq!(into_bg(Color::DarkRed, 0, 0), 0x0040);
    assert_eq!(into_fg(Color::White, 0, 0), 0x000F);
    assert_eq!(into_fg(Color::Grey, 0, 0), 0x0007);
    let console = ConsoleOutput::new(0x0007);
    assert_eq!(console.set_style(Style::Fg(Color::Reset), 0x00F1), 0x00F7);
    assert_eq!(console.set_styles(Color::Green, Color::Black, Effect::Dim.bits(), 0x0077), 0x0002);
}

#[test]
fn console_modes_and_moves() {
    assert_eq!(enable_mouse_mode(0x0047), 0x009F);
    assert_eq!(disable_mouse_mode(0x009F), 0x0047);
    assert_eq!(vt_mode(0x0003), 0x0007);
    assert_eq!(goto(3, 4), Some((3, 4)));
    assert_eq!(goto(-1, 4), None);
    assert_eq!(move_up(2, (3, 4)), Some((3, 2)));
    assert_eq!(move_left(5, (3, 4)), None);
    assert_eq!(size((79, 23)), (80, 24));
    assert!(is_ansi_term(Some("xterm-256color")));
    assert!(!is_ansi_term(Some("dumb")));
    assert!(!is_ansi_term(None));
}

#[test]
fn console_clear_and_resize() {
    assert_eq!(
        clear(Clear::All, (2, 1), (10, 5), 0xC0F7),
        ClearPlan { start_col: 0, start_row: 0, cells: 50, attr: 0x00F7 }
    );
    assert_eq!(
        clear(Clear::CursorDn, (2, 1), (10, 5), 0x0007),
        ClearPlan { start_col: 2, start_row: 1, cells: 48, attr: 0x0007 }
    );
    assert_eq!(
        clear(Clear::CursorUp, (2, 1), (10, 5), 0x0007),
        ClearPlan { start_col: 0, start_row: 0, cells: 13, attr: 0x0007 }
    );
    assert_eq!(
        clear(Clear::NewLn, (2, 1), (10, 5), 0x0007),
        ClearPlan { start_col: 2, start_row: 1, cells: 8, attr: 0x0007 }
    );
    assert_eq!(
        clear(Clear::CurrentLn, (2, 1), (10, 5), 0x0007),
        ClearPlan { start_col: 0, start_row: 1, cells: 10, attr: 0x0007 }
    );
    assert_eq!(
        resize(20, 10, (80, 300), 0, 5),
        Ok(ResizePlan { resize_buffer: false, buffer_w: 80, buffer_h: 300, left: 0, top: 5, right: 20, bottom: 15 })
    );
    assert_eq!(
        resize(90, 10, (80, 300), 0, 5),
        Ok(ResizePlan { resize_buffer: true, buffer_w: 90, buffer_h: 300, left: 0, top: 5, right: 90, bottom: 15 })
    );
    assert_eq!(resize(0, 10, (80, 300), 0, 5), Err(ResizeError::WidthBelowOne));
    assert_eq!(check_largest(200, 10, (120, 40)), Err(ResizeError::WidthOverLargest(200)));
}
