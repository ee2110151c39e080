use tuitty::enums::{InputEvent, KeyEvent, MouseButton, MouseEvent, StoreEvent};
use tuitty::input::bytes::parse_utf8_char;
use tuitty::input::unix::{parse_csi, parse_event, try_parse_event};

fn ev(bytes: &[u8]) -> Option<InputEvent> {
    try_parse_event(bytes[0], &bytes[1..])
}

#[test]
fn plain_keys() {
    assert_eq!(ev(b"a"), Some(InputEvent::Keyboard(KeyEvent::Char('a'))));
    assert_eq!(ev(b"\r"), Some(InputEvent::Keyboard(KeyEvent::Enter)));
    assert_eq!(ev(b"\t"), Some(InputEvent::Keyboard(KeyEvent::Tab)));
    assert_eq!(ev(b"\x7F"), Some(InputEvent::Keyboard(KeyEvent::Backspace)));
    assert_eq!(ev(b"\x01"), Some(InputEvent::Keyboard(KeyEvent::Ctrl('a'))));
    assert_eq!(ev(b"\x1C"), Some(InputEvent::Keyboard(KeyEvent::Ctrl('4'))));
    assert_eq!(ev(b"\x00"), Some(InputEvent::Keyboard(KeyEvent::Null)));
    assert_eq!(ev("é".as_bytes()), Some(InputEvent::Keyboard(KeyEvent::Char('é'))));
    assert_eq!(ev(&[0xC3]), Some(InputEvent::Unsupported));
}

#[test]
fn escape_sequences() {
    assert_eq!(ev(b"\x1B"), Some(InputEvent::Keyboard(KeyEvent::Esc)));
    assert_eq!(ev(b"\x1B\x1B"), Some(InputEvent::Keyboard(KeyEvent::Esc)));
    assert_eq!(ev(b"\x1Bx"), Some(InputEvent::Keyboard(KeyEvent::Alt('x'))));
    assert_eq!(ev(b"\x1BOP"), Some(InputEvent::Keyboard(KeyEvent::F(1))));
    assert_eq!(ev(b"\x1B[A"), Some(InputEvent::Keyboard(KeyEvent::Up)));
    assert_eq!(ev(b"\x1B[Z"), Some(InputEvent::Keyboard(KeyEvent::BackTab)));
    assert_eq!(ev(b"\x1B[[B"), Some(InputEvent::Keyboard(KeyEvent::F(2))));
    assert_eq!(ev(b"\x1B[3~"), Some(InputEvent::Keyboard(KeyEvent::Delete)));
    assert_eq!(ev(b"\x1B[15~"), Some(InputEvent::Keyboard(KeyEvent::F(5))));
    assert_eq!(ev(b"\x1B[1;5A"), Some(InputEvent::Keyboard(KeyEvent::CtrlUp)));
    assert_eq!(ev(b"\x1B[1;2D"), Some(InputEvent::Keyboard(KeyEvent::ShiftLeft)));
    assert_eq!(ev(b"\x1B[12;40R"), Some(InputEvent::Dispatch(StoreEvent::Pos(39, 11))));
    assert_eq!(parse_event(b'\x1B', b"[H"), InputEvent::Keyboard(KeyEvent::Home));
}

#[test]
fn mouse_reports() {
    assert_eq!(
        ev(b"\x1B[M !!"),
        Some(InputEvent::Mouse(MouseEvent::Press(MouseButton::Left, 0, 0)))
    );
    assert_eq!(
        ev(b"\x1B[<0;5;7M"),
        Some(InputEvent::Mouse(MouseEvent::Press(MouseButton::Left, 4, 6)))
    );
    assert_eq!(
        ev(b"\x1B[<0;5;7m"),
        Some(InputEvent::Mouse(MouseEvent::Release(4, 6)))
    );
    assert_eq!(ev(b"\x1B[<32;2;2M"), Some(InputEvent::Mouse(MouseEvent::Hold(1, 1))));
    assert_eq!(
        ev(b"\x1B[32;3;4M"),
        Some(InputEvent::Mouse(MouseEvent::Press(MouseButton::Left, 3, 4)))
    );
    assert_eq!(ev(b"\x1B[<0;5"), Some(InputEvent::Unsupported));
}

#[test]
fn unreadable_reports_are_refused() {
    assert_eq!(ev(b"\x1B[3;4M"), None);
    assert_eq!(ev(b"\x1B[x;1M"), Some(InputEvent::Unsupported));
    assert_eq!(ev(b"\x1B[12R"), None);
}

#[test]
fn reports_of_goto_positions_read_back() {
    for (col, row) in [(0i16, 0i16), (9, 4), (79, 23), (1234, 32766)] {
        let goto = tuitty::actions::goto(col, row);
        let report = goto.replace('H', "R");
        let bytes = report.as_bytes();
        assert_eq!(
            try_parse_event(bytes[0], &bytes[1..]),
            Some(InputEvent::Dispatch(StoreEvent::Pos(col, row)))
        );
    }
    assert_eq!(tuitty::input::bytes::parse_i16(b"32767"), Some(32767));
    assert_eq!(tuitty::input::bytes::parse_u8(b"255"), Some(255));
}

#[test]
fn control_sequences_say_how_much_they_take() {
    let cases: [(&[u8], KeyEvent, usize); 9] = [
        (b"Dx", KeyEvent::Left, 1),
        (b"Cx", KeyEvent::Right, 1),
        (b"Ax", KeyEvent::Up, 1),
        (b"Bx", KeyEvent::Down, 1),
        (b"Hx", KeyEvent::Home, 1),
        (b"Fx", KeyEvent::End, 1),
        (b"Zx", KeyEvent::BackTab, 1),
        (b"[Ax", KeyEvent::F(1), 2),
        (b"[Ex", KeyEvent::F(5), 2),
    ];
    for (bytes, key, taken) in cases {
        assert_eq!(parse_csi(bytes, 0), (Some(InputEvent::Keyboard(key)), taken));
    }
    assert_eq!(parse_csi(b"<0;3;4Mx", 0).1, 7);
    assert_eq!(parse_csi(b"12;40Rx", 0).1, 6);
    assert_eq!(parse_csi(b"M !", 0), (Some(InputEvent::Unsupported), 3));
    assert_eq!(parse_csi(b"", 0), (Some(InputEvent::Unsupported), 0));
}

#[test]
fn characters_say_how_many_bytes_they_take() {
    assert_eq!(parse_utf8_char(b'a', b"bc", 0), (Some('a'), 0));
    assert_eq!(parse_utf8_char(0xC3, &[0xA9, b'x'], 0), (Some('é'), 1));
    assert_eq!(parse_utf8_char(0xF0, &[0x9F, 0xA6, 0x8A, b'x'], 0), (Some('🦊'), 3));
    assert_eq!(parse_utf8_char(0xFF, &[], 0), (None, 0));
    assert_eq!(parse_utf8_char(0xC3, &[b'a', b'b', b'c', b'd'], 0), (None, 3));
}
