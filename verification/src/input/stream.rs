//! The parser behind the byte-stream readers: it reads one event from a
//! first byte and the bytes that follow it, and says how many of those it
//! took, so that a reader keeps the rest for the next event.
//!
//! It differs from the dispatcher's parser (`input::unix`): Enter and Tab
//! come as the characters `'\n'` and `'\t'`, mouse coordinates are not
//! shifted to start at 0, an unknown `ESC O` sequence or malformed UTF-8 is
//! an error, and a sequence that stops short (or holds numbers that do not
//! parse) cannot be read at all: `stream_event` gives `None` for those
//! inputs, which `parse_event` refuses and `try_parse_event` reports.

use vstd::prelude::*;
use vstd::utf8::*;
use crate::enums::{InputEvent, KeyEvent, MouseButton, MouseEvent};
use crate::input::bytes::{parse_i16, parse_int, parse_utf8_char, split_fields, utf8_char, utf8_taken, is_valid_utf8};
use crate::input::unix::{
    all_fields_parse, copy_range, field_value, field_views, fields_of, all_i16, first_final,
    first_mouse_end, parse_csi_modified_arrow_keys, parse_csi_special_key_code,
    spec_modified_arrow_keys, spec_special_key_code,
};

verus! {

/// Why an event could not be read.
#[derive(Clone, Copy, Debug, PartialEq, Eq, Structural)]
pub enum ParseError {
    /// `ESC O` followed by something other than `P` to `S`.
    Sequence,
    /// A character whose UTF-8 encoding is malformed or cut short.
    Utf8,
}

impl ParseError {
    /// The error's message.
    pub fn message(self) -> (res: &'static str)
        ensures
            self == ParseError::Sequence ==> res@ == "Could not parse an input event"@,
            self == ParseError::Utf8 ==> res@ == "Input character is not valid UTF-8"@,
    {
        match self {
            ParseError::Sequence => "Could not parse an input event",
            ParseError::Utf8 => "Input character is not valid UTF-8",
        }
    }
}

/// `x.saturating_sub(32)` for a coordinate byte of the X10 encoding.
pub open spec fn x10_raw(b: u8) -> int {
    if b >= 32 { b - 32 } else { 0 }
}

/// The X10 mouse encoding; `r` holds what follows `ESC [ M`. It takes three
/// bytes; `None` where there are fewer or `Cb as i8 - 32` overflows.
pub open spec fn stream_x10(r: Seq<u8>) -> Option<(InputEvent, int)> {
    if r.len() < 1 || (128 <= r[0] < 160) || r.len() < 3 {
        None
    } else {
        let cb = ((r[0] as int + 224) % 256) as u8;
        let cx = x10_raw(r[1]) as i16;
        let cy = x10_raw(r[2]) as i16;
        Some(
            (
                InputEvent::Mouse(
                    if cb & 3 == 0 {
                        if cb & 0x40 != 0 {
                            MouseEvent::Press(MouseButton::WheelUp, cx, cy)
                        } else {
                            MouseEvent::Press(MouseButton::Left, cx, cy)
                        }
                    } else if cb & 3 == 1 {
                        if cb & 0x40 != 0 {
                            MouseEvent::Press(MouseButton::WheelDown, cx, cy)
                        } else {
                            MouseEvent::Press(MouseButton::Middle, cx, cy)
                        }
                    } else if cb & 3 == 2 {
                        MouseEvent::Press(MouseButton::Right, cx, cy)
                    } else {
                        MouseEvent::Release(cx, cy)
                    },
                ),
                3,
            ),
        )
    }
}

/// Whether the first three fields parse as `i16`.
pub open spec fn first_three_parse(fields: Seq<Seq<u8>>) -> bool {
    &&& fields.len() >= 3
    &&& parse_int(fields[0], true, i16::MIN as int, i16::MAX as int) is Some
    &&& parse_int(fields[1], true, i16::MIN as int, i16::MAX as int) is Some
    &&& parse_int(fields[2], true, i16::MIN as int, i16::MAX as int) is Some
}

/// The SGR mouse encoding; `r` holds what follows `ESC [ <`. It takes the
/// bytes up to and including the first `m` or `M`; `None` where there is
/// none, or the parameters are not UTF-8 or hold fewer than three numbers.
pub open spec fn stream_xterm(r: Seq<u8>) -> Option<(InputEvent, int)> {
    let j = first_mouse_end(r, 0);
    let fields = split_fields(r.take(j));
    if j >= r.len() || !valid_utf8(r.take(j)) || !first_three_parse(fields) {
        None
    } else {
        let cb = field_value(fields, 0, true, i16::MIN as int, i16::MAX as int);
        let cx = field_value(fields, 1, true, i16::MIN as int, i16::MAX as int) as i16;
        let cy = field_value(fields, 2, true, i16::MIN as int, i16::MAX as int) as i16;
        let ev = if cb == 0 || cb == 1 || cb == 2 || cb == 64 || cb == 65 {
            let btn = if cb == 0 {
                MouseButton::Left
            } else if cb == 1 {
                MouseButton::Middle
            } else if cb == 2 {
                MouseButton::Right
            } else if cb == 64 {
                MouseButton::WheelUp
            } else {
                MouseButton::WheelDown
            };
            if r[j] == 77u8 {
                InputEvent::Mouse(MouseEvent::Press(btn, cx, cy))
            } else {
                InputEvent::Mouse(MouseEvent::Release(cx, cy))
            }
        } else if cb == 32 {
            InputEvent::Mouse(MouseEvent::Hold(cx, cy))
        } else if cb == 3 {
            InputEvent::Mouse(MouseEvent::Release(cx, cy))
        } else {
            InputEvent::Unsupported
        };
        Some((ev, j + 1))
    }
}

/// The rxvt mouse encoding `ESC [ Cb ; Cx ; Cy M`; `buf` holds the
/// parameters. `None` where a field does not parse or there are fewer than
/// three; an unknown `Cb` gives an unknown mouse event.
pub open spec fn stream_rxvt(buf: Seq<u8>) -> Option<InputEvent> {
    let fields = split_fields(buf);
    if !all_fields_parse(fields, true, i16::MIN as int, i16::MAX as int) || fields.len() < 3 {
        None
    } else {
        let cb = field_value(fields, 0, true, i16::MIN as int, i16::MAX as int);
        let cx = field_value(fields, 1, true, i16::MIN as int, i16::MAX as int) as i16;
        let cy = field_value(fields, 2, true, i16::MIN as int, i16::MAX as int) as i16;
        Some(
            InputEvent::Mouse(
                if cb == 32 {
                    MouseEvent::Press(MouseButton::Left, cx, cy)
                } else if cb == 33 {
                    MouseEvent::Press(MouseButton::Middle, cx, cy)
                } else if cb == 34 {
                    MouseEvent::Press(MouseButton::Right, cx, cy)
                } else if cb == 35 {
                    MouseEvent::Release(cx, cy)
                } else if cb == 64 {
                    MouseEvent::Hold(cx, cy)
                } else if cb == 96 || cb == 97 {
                    MouseEvent::Press(MouseButton::WheelUp, cx, cy)
                } else {
                    MouseEvent::Unknown
                },
            ),
        )
    }
}

/// A control sequence; `r` holds what follows `ESC [`. The event and how
/// many bytes of `r` it takes, or `None` where it cannot be read.
pub open spec fn stream_csi(r: Seq<u8>) -> Option<(InputEvent, int)> {
    if r.len() == 0 {
        Some((InputEvent::Unsupported, 0))
    } else {
        let b = r[0];
        if b == 91u8 {
            if r.len() > 1 && 65 <= r[1] <= 69 {
                Some((InputEvent::Keyboard(KeyEvent::F((1 + r[1] - 65) as u8)), 2))
            } else {
                Some((InputEvent::Unsupported, if r.len() > 1 { 2 } else { 1 }))
            }
        } else if b == 68u8 {
            Some((InputEvent::Keyboard(KeyEvent::Left), 1))
        } else if b == 67u8 {
            Some((InputEvent::Keyboard(KeyEvent::Right), 1))
        } else if b == 65u8 {
            Some((InputEvent::Keyboard(KeyEvent::Up), 1))
        } else if b == 66u8 {
            Some((InputEvent::Keyboard(KeyEvent::Down), 1))
        } else if b == 72u8 {
            Some((InputEvent::Keyboard(KeyEvent::Home), 1))
        } else if b == 70u8 {
            Some((InputEvent::Keyboard(KeyEvent::End), 1))
        } else if b == 90u8 {
            Some((InputEvent::Keyboard(KeyEvent::BackTab), 1))
        } else if b == 77u8 {
            match stream_x10(r.drop_first()) {
                Some((e, k)) => Some((e, k + 1)),
                None => None,
            }
        } else if b == 60u8 {
            match stream_xterm(r.drop_first()) {
                Some((e, k)) => Some((e, k + 1)),
                None => None,
            }
        } else if 48 <= b <= 57 {
            let j = first_final(r, 1);
            if j >= r.len() {
                None
            } else {
                let buf = r.take(j);
                let fin = r[j];
                let ev = if fin == 77u8 {
                    stream_rxvt(buf)
                } else if fin == 126u8 {
                    spec_special_key_code(buf)
                } else {
                    Some(spec_modified_arrow_keys(buf, fin))
                };
                match ev {
                    Some(e) => Some((e, j + 1)),
                    None => None,
                }
            }
        } else {
            Some((InputEvent::Unsupported, 1))
        }
    }
}

/// The event (or the error) that the byte `item` followed by `rest` stands
/// for, and how many bytes of `rest` it takes; `None` where it cannot be
/// read at all.
pub open spec fn stream_event(item: u8, rest: Seq<u8>) -> Option<(Result<InputEvent, ParseError>, int)> {
    if item == 0x1Bu8 {
        if rest.len() == 0 {
            Some((Ok(InputEvent::Keyboard(KeyEvent::Esc)), 0))
        } else {
            let a = rest[0];
            if a == 79u8 {
                if rest.len() > 1 && 80 <= rest[1] <= 83 {
                    Some((Ok(InputEvent::Keyboard(KeyEvent::F((1 + rest[1] - 80) as u8))), 2))
                } else {
                    Some((Err(ParseError::Sequence), if rest.len() > 1 { 2 } else { 1 }))
                }
            } else if a == 91u8 {
                match stream_csi(rest.drop_first()) {
                    Some((e, k)) => Some((Ok(e), k + 1)),
                    None => None,
                }
            } else if a == 0x1Bu8 {
                Some((Ok(InputEvent::Keyboard(KeyEvent::Esc)), 1))
            } else {
                let taken = 1 + utf8_taken(a, rest.drop_first());
                match utf8_char(a, rest.drop_first()) {
                    Some(ch) => Some((Ok(InputEvent::Keyboard(KeyEvent::Alt(ch))), taken)),
                    None => Some((Err(ParseError::Utf8), taken)),
                }
            }
        }
    } else if item == 13u8 || item == 10u8 {
        Some((Ok(InputEvent::Keyboard(KeyEvent::Char('\n'))), 0))
    } else if item == 9u8 {
        Some((Ok(InputEvent::Keyboard(KeyEvent::Char('\t'))), 0))
    } else if item == 0x7Fu8 {
        Some((Ok(InputEvent::Keyboard(KeyEvent::Backspace)), 0))
    } else if 1 <= item <= 0x1A {
        Some((Ok(InputEvent::Keyboard(KeyEvent::Ctrl(((item - 1 + 97) as u8) as char))), 0))
    } else if 0x1C <= item <= 0x1F {
        Some((Ok(InputEvent::Keyboard(KeyEvent::Ctrl(((item - 0x1C + 52) as u8) as char))), 0))
    } else if item == 0 {
        Some((Ok(InputEvent::Keyboard(KeyEvent::Null)), 0))
    } else {
        let taken = utf8_taken(item, rest);
        match utf8_char(item, rest) {
            Some(ch) => Some((Ok(InputEvent::Keyboard(KeyEvent::Char(ch))), taken)),
            None => Some((Err(ParseError::Utf8), taken)),
        }
    }
}

/// Reads the X10 mouse encoding from `r[p..]` (what follows `ESC [ M`).
fn x10_mouse(r: &[u8], p: usize) -> (res: Option<(InputEvent, usize)>)
    requires
        p <= r.len(),
    ensures
        res matches Some((e, k)) ==> stream_x10(r@.skip(p as int)) == Some((e, k as int)),
        res is None ==> stream_x10(r@.skip(p as int)) is None,
{
    let ghost t = r@.skip(p as int);
    if r.len() - p < 3 {
        return None;
    }
    assert(t[0] == r[p as int] && t[1] == r[p + 1] && t[2] == r[p + 2]);
    let b0 = r[p];
    if 128 <= b0 && b0 < 160 {
        return None;
    }
    let cb: u8 = if b0 >= 32 { b0 - 32 } else { b0 + 224 };
    assert(cb == ((b0 as int + 224) % 256) as u8);
    let cx = r[p + 1].saturating_sub(32) as i16;
    let cy = r[p + 2].saturating_sub(32) as i16;
    let ev = if cb & 3 == 0 {
        if cb & 0x40 != 0 {
            MouseEvent::Press(MouseButton::WheelUp, cx, cy)
        } else {
            MouseEvent::Press(MouseButton::Left, cx, cy)
        }
    } else if cb & 3 == 1 {
        if cb & 0x40 != 0 {
            MouseEvent::Press(MouseButton::WheelDown, cx, cy)
        } else {
            MouseEvent::Press(MouseButton::Middle, cx, cy)
        }
    } else if cb & 3 == 2 {
        MouseEvent::Press(MouseButton::Right, cx, cy)
    } else {
        MouseEvent::Release(cx, cy)
    };
    Some((InputEvent::Mouse(ev), 3))
}

/// Reads the SGR mouse encoding from `r[p..]` (what follows `ESC [ <`).
fn xterm_mouse(r: &[u8], p: usize) -> (res: Option<(InputEvent, usize)>)
    requires
        p <= r.len(),
    ensures
        res matches Some((e, k)) ==> stream_xterm(r@.skip(p as int)) == Some((e, k as int)),
        res is None ==> stream_xterm(r@.skip(p as int)) is None,
{
    let ghost t = r@.skip(p as int);
    let mut j = p;
    while j < r.len() && r[j] != 109u8 && r[j] != 77u8
        invariant
            p <= j <= r.len(),
            t == r@.skip(p as int),
            first_mouse_end(t, 0) == first_mouse_end(t, j - p),
        decreases r.len() - j,
    {
        assert(t[j - p] == r[j as int]);
        j += 1;
    }
    if j >= r.len() {
        assert(first_mouse_end(t, j - p) == t.len());
        return None;
    }
    assert(t[j - p] == r[j as int]);
    assert(first_mouse_end(t, 0) == j - p);
    let buf = copy_range(r, p, j);
    assert(buf@ =~= t.take(j - p));
    if !is_valid_utf8(buf.as_slice()) {
        return None;
    }
    let fields = fields_of(buf.as_slice());
    let ghost fs = field_views(fields@);
    if fields.len() < 3 {
        return None;
    }
    assert(fs[0] == fields@[0]@ && fs[1] == fields@[1]@ && fs[2] == fields@[2]@);
    let cb = match parse_i16(fields[0].as_slice()) {
        Some(v) => v,
        None => {
            return None;
        },
    };
    let cx = match parse_i16(fields[1].as_slice()) {
        Some(v) => v,
        None => {
            return None;
        },
    };
    let cy = match parse_i16(fields[2].as_slice()) {
        Some(v) => v,
        None => {
            return None;
        },
    };
    let c = r[j];
    let ev = if cb == 0 || cb == 1 || cb == 2 || cb == 64 || cb == 65 {
        let btn = if cb == 0 {
            MouseButton::Left
        } else if cb == 1 {
            MouseButton::Middle
        } else if cb == 2 {
            MouseButton::Right
        } else if cb == 64 {
            MouseButton::WheelUp
        } else {
            MouseButton::WheelDown
        };
        if c == 77u8 {
            InputEvent::Mouse(MouseEvent::Press(btn, cx, cy))
        } else {
            InputEvent::Mouse(MouseEvent::Release(cx, cy))
        }
    } else if cb == 32 {
        InputEvent::Mouse(MouseEvent::Hold(cx, cy))
    } else if cb == 3 {
        InputEvent::Mouse(MouseEvent::Release(cx, cy))
    } else {
        InputEvent::Unsupported
    };
    Some((ev, j - p + 1))
}

/// Reads the rxvt mouse encoding from its parameters.
fn rxvt_mouse(buf: &[u8]) -> (res: Option<InputEvent>)
    ensures
        res == stream_rxvt(buf@),
{
    let fields = fields_of(buf);
    let nums = match all_i16(&fields) {
        Some(v) => v,
        None => {
            return None;
        },
    };
    if nums.len() < 3 {
        return None;
    }
    let cb = nums[0];
    let cx = nums[1];
    let cy = nums[2];
    let ev = if cb == 32 {
        MouseEvent::Press(MouseButton::Left, cx, cy)
    } else if cb == 33 {
        MouseEvent::Press(MouseButton::Middle, cx, cy)
    } else if cb == 34 {
        MouseEvent::Press(MouseButton::Right, cx, cy)
    } else if cb == 35 {
        MouseEvent::Release(cx, cy)
    } else if cb == 64 {
        MouseEvent::Hold(cx, cy)
    } else if cb == 96 || cb == 97 {
        MouseEvent::Press(MouseButton::WheelUp, cx, cy)
    } else {
        MouseEvent::Unknown
    };
    Some(InputEvent::Mouse(ev))
}

/// Reads a control sequence from `r[p..]` (what follows `ESC [`): the event
/// and how many bytes it takes.
fn csi(r: &[u8], p: usize) -> (res: Option<(InputEvent, usize)>)
    requires
        p <= r.len(),
    ensures
        res matches Some((e, k)) ==> stream_csi(r@.skip(p as int)) == Some((e, k as int)),
        res is None ==> stream_csi(r@.skip(p as int)) is None,
{
    let ghost t = r@.skip(p as int);
    if p >= r.len() {
        return Some((InputEvent::Unsupported, 0));
    }
    let b = r[p];
    assert(t[0] == b);
    assert(t.drop_first() =~= r@.skip(p + 1));
    if b == 91u8 {
        if p + 1 < r.len() && 65 <= r[p + 1] && r[p + 1] <= 69 {
            assert(t[1] == r[p + 1]);
            Some((InputEvent::Keyboard(KeyEvent::F(1 + r[p + 1] - 65)), 2))
        } else {
            proof {
                if t.len() > 1 {
                    assert(t[1] == r[p + 1]);
                }
            }
            Some((InputEvent::Unsupported, if p + 1 < r.len() { 2 } else { 1 }))
        }
    } else if b == 68u8 {
        Some((InputEvent::Keyboard(KeyEvent::Left), 1))
    } else if b == 67u8 {
        Some((InputEvent::Keyboard(KeyEvent::Right), 1))
    } else if b == 65u8 {
        Some((InputEvent::Keyboard(KeyEvent::Up), 1))
    } else if b == 66u8 {
        Some((InputEvent::Keyboard(KeyEvent::Down), 1))
    } else if b == 72u8 {
        Some((InputEvent::Keyboard(KeyEvent::Home), 1))
    } else if b == 70u8 {
        Some((InputEvent::Keyboard(KeyEvent::End), 1))
    } else if b == 90u8 {
        Some((InputEvent::Keyboard(KeyEvent::BackTab), 1))
    } else if b == 77u8 {
        match x10_mouse(r, p + 1) {
            Some((e, k)) => Some((e, k + 1)),
            None => None,
        }
    } else if b == 60u8 {
        match xterm_mouse(r, p + 1) {
            Some((e, k)) => {
                assert(k <= r.len() - (p + 1));
                Some((e, k + 1))
            },
            None => None,
        }
    } else if 48 <= b && b <= 57 {
        let mut j = p + 1;
        while j < r.len() && !(64 <= r[j] && r[j] <= 126)
            invariant
                p + 1 <= j <= r.len(),
                t == r@.skip(p as int),
                first_final(t, 1) == first_final(t, j - p),
            decreases r.len() - j,
        {
            assert(t[j - p] == r[j as int]);
            j += 1;
        }
        if j >= r.len() {
            assert(first_final(t, j - p) == t.len());
            return None;
        }
        assert(t[j - p] == r[j as int]);
        assert(first_final(t, 1) == j - p);
        let buf = copy_range(r, p, j);
        assert(buf@ =~= t.take(j - p));
        let fin = r[j];
        let ev = if fin == 77u8 {
            rxvt_mouse(buf.as_slice())
        } else if fin == 126u8 {
            parse_csi_special_key_code(buf.as_slice())
        } else {
            Some(parse_csi_modified_arrow_keys(buf.as_slice(), fin))
        };
        match ev {
            Some(e) => Some((e, j - p + 1)),
            None => None,
        }
    } else {
        Some((InputEvent::Unsupported, 1))
    }
}

/// Reads one event from the byte `item` and the bytes `rest` after it, as
/// `stream_event` says, or `None` where it cannot be read at all.
pub fn try_parse_event(item: u8, rest: &[u8]) -> (res: Option<(Result<InputEvent, ParseError>, usize)>)
    ensures
        res matches Some((e, k)) ==> stream_event(item, rest@) == Some((e, k as int)),
        res is None ==> stream_event(item, rest@) is None,
{
    if item == 0x1Bu8 {
        if rest.len() == 0 {
            return Some((Ok(InputEvent::Keyboard(KeyEvent::Esc)), 0));
        }
        let a = rest[0];
        assert(rest@.drop_first() =~= rest@.skip(1));
        if a == 79u8 {
            if rest.len() > 1 && 80 <= rest[1] && rest[1] <= 83 {
                Some((Ok(InputEvent::Keyboard(KeyEvent::F(1 + rest[1] - 80))), 2))
            } else {
                Some((Err(ParseError::Sequence), if rest.len() > 1 { 2 } else { 1 }))
            }
        } else if a == 91u8 {
            match csi(rest, 1) {
                Some((e, k)) => Some((Ok(e), k + 1)),
                None => None,
            }
        } else if a == 0x1Bu8 {
            Some((Ok(InputEvent::Keyboard(KeyEvent::Esc)), 1))
        } else {
            let (ch, n) = parse_utf8_char(a, rest, 1);
            let taken = 1 + n;
            match ch {
                Some(ch) => Some((Ok(InputEvent::Keyboard(KeyEvent::Alt(ch))), taken)),
                None => Some((Err(ParseError::Utf8), taken)),
            }
        }
    } else if item == 13u8 || item == 10u8 {
        Some((Ok(InputEvent::Keyboard(KeyEvent::Char('\n'))), 0))
    } else if item == 9u8 {
        Some((Ok(InputEvent::Keyboard(KeyEvent::Char('\t'))), 0))
    } else if item == 0x7Fu8 {
        Some((Ok(InputEvent::Keyboard(KeyEvent::Backspace)), 0))
    } else if 1 <= item && item <= 0x1A {
        Some((Ok(InputEvent::Keyboard(KeyEvent::Ctrl((item - 1 + 97) as char))), 0))
    } else if 0x1C <= item && item <= 0x1F {
        Some((Ok(InputEvent::Keyboard(KeyEvent::Ctrl((item - 0x1C + 52) as char))), 0))
    } else if item == 0 {
        Some((Ok(InputEvent::Keyboard(KeyEvent::Null)), 0))
    } else {
        assert(rest@.skip(0) =~= rest@);
        let (ch, taken) = parse_utf8_char(item, rest, 0);
        match ch {
            Some(ch) => Some((Ok(InputEvent::Keyboard(KeyEvent::Char(ch))), taken)),
            None => Some((Err(ParseError::Utf8), taken)),
        }
    }
}

/// Reads one event from the byte `item` and the bytes `rest` after it: the
/// event or the error, and how many bytes of `rest` it took.
pub fn parse_event(item: u8, rest: &[u8]) -> (res: (Result<InputEvent, ParseError>, usize))
    requires
        stream_event(item, rest@) is Some,
    ensures
        stream_event(item, rest@) == Some((res.0, res.1 as int)),
{
    match try_parse_event(item, rest) {
        Some(r) => r,
        None => {
            proof {
                assert(false);
            }
            (Err(ParseError::Sequence), 0)
        },
    }
}

} // verus!
