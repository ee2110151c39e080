use tuitty::enums::{InputEvent, KeyEvent, MouseButton, MouseEvent};
use tuitty::input::stream::{parse_event, try_parse_event, ParseError};

fn read(bytes: &[u8]) -> Option<(Result<InputEvent, ParseError>, usize)> {
    try_parse_event(bytes[0], &bytes[1..])
}

fn key(k: KeyEvent, taken: usize) -> Option<(Result<InputEvent, ParseError>, usize)> {
    Some((Ok(InputEvent::Keyboard(k)), taken))
}

fn mouse(m: MouseEvent, taken: usize) -> Option<(Result<InputEvent, ParseError>, usize)> {
    Some((Ok(InputEvent::Mouse(m)), taken))
}

#[test]
fn stream_plain_keys() {
    assert_eq!(read(b"abc"), key(KeyEvent::Char('a'), 0));
    assert_eq!(read(b"\r"), key(KeyEvent::Char('\n'), 0));
    assert_eq!(read(b"\n"), key(KeyEvent::Char('\n'), 0));
    assert_eq!(read(b"\t"), key(KeyEvent::Char('\t'), 0));
    assert_eq!(read(b"\x7F"), key(KeyEvent::Backspace, 0));
    assert_eq!(read(b"\x02"), key(KeyEvent::Ctrl('b'), 0));
    assert_eq!(read(b"\x1F"), key(KeyEvent::Ctrl('7'), 0));
    assert_eq!(read(b"\x00"), key(KeyEvent::Null, 0));
}

#[test]
fn stream_utf8() {
    let mut bytes = "中x".as_bytes().to_vec();
    assert_eq!(read(&bytes), key(KeyEvent::Char('中'), 2));
    bytes.insert(0, 0x1B);
    assert_eq!(read(&bytes), key(KeyEvent::Alt('中'), 3));
    assert_eq!(read(&[0xC3]), Some((Err(ParseError::Utf8), 0)));
    assert_eq!(read(&[0xC3, 0x41, 0x42, 0x43, 0x44]), Some((Err(ParseError::Utf8), 3)));
    assert_eq!(read(&[0x1B, 0xE4, 0xB8]), Some((Err(ParseError::Utf8), 2)));
}

#[test]
fn stream_escape_sequences() {
    assert_eq!(read(b"\x1B"), key(KeyEvent::Esc, 0));
    assert_eq!(read(b"\x1B\x1Bz"), key(KeyEvent::Esc, 1));
    assert_eq!(read(b"\x1BOQ"), key(KeyEvent::F(2), 2));
    assert_eq!(read(b"\x1BOx"), Some((Err(ParseError::Sequence), 2)));
    assert_eq!(read(b"\x1BO"), Some((Err(ParseError::Sequence), 1)));
    assert_eq!(read(b"\x1B["), Some((Ok(InputEvent::Unsupported), 1)));
    assert_eq!(read(b"\x1B[Bq"), key(KeyEvent::Down, 2));
    assert_eq!(read(b"\x1B[[C"), key(KeyEvent::F(3), 3));
    assert_eq!(read(b"\x1B[6~x"), key(KeyEvent::PageDown, 3));
    assert_eq!(read(b"\x1B[1;5D"), key(KeyEvent::CtrlLeft, 5));
    assert_eq!(read(b"\x1B[1;2B"), key(KeyEvent::ShiftDown, 5));
    assert_eq!(read(b"\x1B[3;4R"), Some((Ok(InputEvent::Unsupported), 5)));
    assert_eq!(read(b"\x1B[3;4~"), Some((Ok(InputEvent::Unsupported), 5)));
}

#[test]
fn stream_mouse() {
    assert_eq!(read(b"\x1B[M #$"), mouse(MouseEvent::Press(MouseButton::Left, 3, 4), 5));
    assert_eq!(read(b"\x1B[M#!!"), mouse(MouseEvent::Release(1, 1), 5));
    assert_eq!(read(b"\x1B[<0;10;20M"), mouse(MouseEvent::Press(MouseButton::Left, 10, 20), 10));
    assert_eq!(read(b"\x1B[<65;1;2M"), mouse(MouseEvent::Press(MouseButton::WheelDown, 1, 2), 9));
    assert_eq!(read(b"\x1B[<2;7;8m"), mouse(MouseEvent::Release(7, 8), 8));
    assert_eq!(read(b"\x1B[<32;7;8M"), mouse(MouseEvent::Hold(7, 8), 9));
    assert_eq!(read(b"\x1B[<9;7;8M"), Some((Ok(InputEvent::Unsupported), 8)));
    assert_eq!(read(b"\x1B[32;5;6M"), mouse(MouseEvent::Press(MouseButton::Left, 5, 6), 8));
    assert_eq!(read(b"\x1B[40;5;6M"), mouse(MouseEvent::Unknown, 8));
}

#[test]
fn stream_cut_short() {
    assert_eq!(read(b"\x1B[M #"), None);
    assert_eq!(read(&[0x1B, b'[', b'M', 0x90, 0x21, 0x21]), None);
    assert_eq!(read(b"\x1B[<0;10"), None);
    assert_eq!(read(b"\x1B[<0;10M"), None);
    assert_eq!(read(b"\x1B[<0;x;1M"), None);
    assert_eq!(read(b"\x1B[12"), None);
    assert_eq!(read(b"\x1B[1;300~"), None);
    assert_eq!(read(b"\x1B[32;5M"), None);
}

#[test]
fn stream_parse_event_agrees() {
    let bytes = b"\x1B[A\x1B[B";
    let (first, taken) = parse_event(bytes[0], &bytes[1..]);
    assert_eq!(first, Ok(InputEvent::Keyboard(KeyEvent::Up)));
    let next = 1 + taken;
    let (second, _) = parse_event(bytes[next], &bytes[next + 1..]);
    assert_eq!(second, Ok(InputEvent::Keyboard(KeyEvent::Down)));
    assert_eq!(ParseError::Utf8.message(), "Input character is not valid UTF-8");
    assert_eq!(ParseError::Sequence.message(), "Could not parse an input event");
}
