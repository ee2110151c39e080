//! The parser of the bytes that a Unix terminal sends for key presses, mouse
//! events and cursor position reports.
//!
//! The parser reads one event: a first byte and the bytes that follow it.
//! `spec_parse_event` states what it gives for every input; `None` there
//! marks the inputs on which the event cannot be read at all (malformed
//! numeric reports and values out of range), which `parse_event` refuses
//! and `try_parse_event` answers with `None`.

use vstd::prelude::*;
use vstd::utf8::valid_utf8;
use crate::enums::{InputEvent, KeyEvent, MouseButton, MouseEvent, StoreEvent};
use crate::input::bytes::{
    all_digits, is_valid_utf8, lemma_split_fields_nonempty, parse_i16, parse_int, parse_u8,
    parse_utf8_char, split_fields, split_fields_exec, utf8_char,
};

verus! {

/// The index of the first `m` or `M` in `r` at or after `from`, or
/// `r.len()` when there is none.
pub open spec fn first_mouse_end(r: Seq<u8>, from: int) -> int
    decreases r.len() - from,
{
    if from >= r.len() || from < 0 {
        r.len() as int
    } else if r[from] == 109u8 || r[from] == 77u8 {
        from
    } else {
        first_mouse_end(r, from + 1)
    }
}

/// The index of the first final byte (`@` to `~`) of a control sequence in
/// `r` at or after `from`, or `r.len()` when there is none.
pub open spec fn first_final(r: Seq<u8>, from: int) -> int
    decreases r.len() - from,
{
    if from >= r.len() || from < 0 {
        r.len() as int
    } else if 64 <= r[from] <= 126 {
        from
    } else {
        first_final(r, from + 1)
    }
}

/// The value of field `k` parsed as an `i16`, or `dflt` when the field is
/// missing or is not a number.
pub open spec fn field_or(fields: Seq<Seq<u8>>, k: int, dflt: int) -> int {
    if k < fields.len() {
        match parse_int(fields[k], true, i16::MIN as int, i16::MAX as int) {
            Some(v) => v,
            None => dflt,
        }
    } else {
        dflt
    }
}

/// True when every field parses as an integer of `lo..=hi`.
pub open spec fn all_fields_parse(fields: Seq<Seq<u8>>, signed: bool, lo: int, hi: int) -> bool {
    forall|k: int| 0 <= k < fields.len() ==> #[trigger] parse_int(fields[k], signed, lo, hi) is Some
}

/// The value of field `k`, which parses.
pub open spec fn field_value(fields: Seq<Seq<u8>>, k: int, signed: bool, lo: int, hi: int) -> int {
    parse_int(fields[k], signed, lo, hi).unwrap()
}

/// `x.saturating_sub(32) - 1` for a coordinate byte of the X10 encoding.
pub open spec fn x10_coord(b: u8) -> int {
    (if b >= 32 { b - 32 } else { 0 }) - 1
}

/// The X10 mouse encoding `ESC [ M Cb Cx Cy`; `r` holds what follows `M`.
pub open spec fn spec_x10_mouse(r: Seq<u8>) -> Option<InputEvent> {
    if r.len() >= 1 && 128 <= r[0] < 160 {
        // `Cb as i8 - 32` overflows.
        None
    } else if r.len() < 3 {
        Some(InputEvent::Unsupported)
    } else {
        let cb = ((r[0] as int + 224) % 256) as u8;
        let cx = x10_coord(r[1]) as i16;
        let cy = x10_coord(r[2]) as i16;
        Some(
            InputEvent::Mouse(
                if cb & 3 == 0 {
                    if cb & 0x40 != 0 {
                        MouseEvent::Press(MouseButton::WheelUp, cx, cy)
                    } else {
                        MouseEvent::Press(MouseButton::Left, cx, cy)
                    }
                } else if cb & 3 == 1 {
                    if cb & 0x40 != 0 {
                        MouseEvent::Press(MouseButton::WheelDown, cx, cy)
                    } else {
                        MouseEvent::Press(MouseButton::Middle, cx, cy)
                    }
                } else if cb & 3 == 2 {
                    MouseEvent::Press(MouseButton::Right, cx, cy)
                } else {
                    MouseEvent::Release(cx, cy)
                },
            ),
        )
    }
}

/// The SGR (xterm) mouse encoding `ESC [ < Cb ; Cx ; Cy M` (press) or `m`
/// (release); `r` holds what follows `<`.
pub open spec fn spec_xterm_mouse(r: Seq<u8>) -> Option<InputEvent> {
    let j = first_mouse_end(r, 0);
    if j >= r.len() {
        Some(InputEvent::Unsupported)
    } else if !valid_utf8(r.take(j)) {
        Some(InputEvent::Unsupported)
    } else {
        let fields = split_fields(r.take(j));
        let cb = field_or(fields, 0, 4);
        let px = field_or(fields, 1, 1);
        let py = field_or(fields, 2, 1);
        if px == i16::MIN || py == i16::MIN {
            // `x - 1` overflows.
            None
        } else {
            let cx = (px - 1) as i16;
            let cy = (py - 1) as i16;
            if cb == 0 || cb == 1 || cb == 2 || cb == 64 || cb == 65 {
                let btn = if cb == 0 {
                    MouseButton::Left
                } else if cb == 1 {
                    MouseButton::Middle
                } else if cb == 2 {
                    MouseButton::Right
                } else if cb == 64 {
                    MouseButton::WheelUp
                } else {
                    MouseButton::WheelDown
                };
                if r[j] == 77u8 {
                    Some(InputEvent::Mouse(MouseEvent::Press(btn, cx, cy)))
                } else {
                    Some(InputEvent::Mouse(MouseEvent::Release(cx, cy)))
                }
            } else if cb == 32 {
                Some(InputEvent::Mouse(MouseEvent::Hold(cx, cy)))
            } else if cb == 3 {
                Some(InputEvent::Mouse(MouseEvent::Release(cx, cy)))
            } else {
                Some(InputEvent::Unsupported)
            }
        }
    }
}

/// The rxvt mouse encoding `ESC [ Cb ; Cx ; Cy M`; `buf` holds the
/// parameters.
pub open spec fn spec_rxvt_mouse(buf: Seq<u8>) -> Option<InputEvent> {
    let fields = split_fields(buf);
    if !all_fields_parse(fields, true, i16::MIN as int, i16::MAX as int) || fields.len() < 3 {
        None
    } else {
        let cb = field_value(fields, 0, true, i16::MIN as int, i16::MAX as int);
        let cx = field_value(fields, 1, true, i16::MIN as int, i16::MAX as int) as i16;
        let cy = field_value(fields, 2, true, i16::MIN as int, i16::MAX as int) as i16;
        if cb == 32 {
            Some(InputEvent::Mouse(MouseEvent::Press(MouseButton::Left, cx, cy)))
        } else if cb == 33 {
            Some(InputEvent::Mouse(MouseEvent::Press(MouseButton::Middle, cx, cy)))
        } else if cb == 34 {
            Some(InputEvent::Mouse(MouseEvent::Press(MouseButton::Right, cx, cy)))
        } else if cb == 35 {
            Some(InputEvent::Mouse(MouseEvent::Release(cx, cy)))
        } else if cb == 64 {
            Some(InputEvent::Mouse(MouseEvent::Hold(cx, cy)))
        } else if cb == 96 || cb == 97 {
            Some(InputEvent::Mouse(MouseEvent::Press(MouseButton::WheelUp, cx, cy)))
        } else {
            Some(InputEvent::Unsupported)
        }
    }
}

/// The key of a special key code `ESC [ n ~`.
pub open spec fn special_key(n: int) -> InputEvent {
    if n == 1 || n == 7 {
        InputEvent::Keyboard(KeyEvent::Home)
    } else if n == 2 {
        InputEvent::Keyboard(KeyEvent::Insert)
    } else if n == 3 {
        InputEvent::Keyboard(KeyEvent::Delete)
    } else if n == 4 || n == 8 {
        InputEvent::Keyboard(KeyEvent::End)
    } else if n == 5 {
        InputEvent::Keyboard(KeyEvent::PageUp)
    } else if n == 6 {
        InputEvent::Keyboard(KeyEvent::PageDown)
    } else if 11 <= n <= 15 {
        InputEvent::Keyboard(KeyEvent::F((n - 10) as u8))
    } else if 17 <= n <= 21 {
        InputEvent::Keyboard(KeyEvent::F((n - 11) as u8))
    } else if 23 <= n <= 24 {
        InputEvent::Keyboard(KeyEvent::F((n - 12) as u8))
    } else {
        InputEvent::Unsupported
    }
}

/// A special key code `ESC [ n ~`; `buf` holds the parameters.
pub open spec fn spec_special_key_code(buf: Seq<u8>) -> Option<InputEvent> {
    let fields = split_fields(buf);
    if !all_fields_parse(fields, false, 0, 255) {
        None
    } else if fields.len() > 1 {
        Some(InputEvent::Unsupported)
    } else {
        Some(special_key(field_value(fields, 0, false, 0, 255)))
    }
}

/// A cursor position report `ESC [ row ; col R` (1-based); `buf` holds the
/// parameters.
pub open spec fn spec_cursor_position(buf: Seq<u8>) -> Option<InputEvent> {
    let fields = split_fields(buf);
    if !all_fields_parse(fields, true, i16::MIN as int, i16::MAX as int) || fields.len() < 2 {
        None
    } else {
        let row = field_value(fields, 0, true, i16::MIN as int, i16::MAX as int);
        let col = field_value(fields, 1, true, i16::MIN as int, i16::MAX as int);
        if row == i16::MIN || col == i16::MIN {
            None
        } else {
            Some(InputEvent::Dispatch(StoreEvent::Pos((col - 1) as i16, (row - 1) as i16)))
        }
    }
}

/// Arrow keys with Ctrl (modifier `5`) or Shift (modifier `2`).
pub open spec fn spec_modified_arrow_keys(buf: Seq<u8>, key: u8) -> InputEvent {
    let m = buf.last();
    if m == 53u8 && key == 65u8 {
        InputEvent::Keyboard(KeyEvent::CtrlUp)
    } else if m == 53u8 && key == 66u8 {
        InputEvent::Keyboard(KeyEvent::CtrlDown)
    } else if m == 53u8 && key == 67u8 {
        InputEvent::Keyboard(KeyEvent::CtrlRight)
    } else if m == 53u8 && key == 68u8 {
        InputEvent::Keyboard(KeyEvent::CtrlLeft)
    } else if m == 50u8 && key == 65u8 {
        InputEvent::Keyboard(KeyEvent::ShiftUp)
    } else if m == 50u8 && key == 66u8 {
        InputEvent::Keyboard(KeyEvent::ShiftDown)
    } else if m == 50u8 && key == 67u8 {
        InputEvent::Keyboard(KeyEvent::ShiftRight)
    } else if m == 50u8 && key == 68u8 {
        InputEvent::Keyboard(KeyEvent::ShiftLeft)
    } else {
        InputEvent::Unsupported
    }
}

/// A control sequence `ESC [ ...`; `r` holds what follows `[`.
pub open spec fn spec_parse_csi(r: Seq<u8>) -> Option<InputEvent> {
    if r.len() == 0 {
        Some(InputEvent::Unsupported)
    } else {
        let b = r[0];
        if b == 91u8 {
            if r.len() > 1 && 65 <= r[1] <= 69 {
                Some(InputEvent::Keyboard(KeyEvent::F((1 + r[1] - 65) as u8)))
            } else {
                Some(InputEvent::Unsupported)
            }
        } else if b == 68u8 {
            Some(InputEvent::Keyboard(KeyEvent::Left))
        } else if b == 67u8 {
            Some(InputEvent::Keyboard(KeyEvent::Right))
        } else if b == 65u8 {
            Some(InputEvent::Keyboard(KeyEvent::Up))
        } else if b == 66u8 {
            Some(InputEvent::Keyboard(KeyEvent::Down))
        } else if b == 72u8 {
            Some(InputEvent::Keyboard(KeyEvent::Home))
        } else if b == 70u8 {
            Some(InputEvent::Keyboard(KeyEvent::End))
        } else if b == 90u8 {
            Some(InputEvent::Keyboard(KeyEvent::BackTab))
        } else if b == 77u8 {
            spec_x10_mouse(r.drop_first())
        } else if b == 60u8 {
            spec_xterm_mouse(r.drop_first())
        } else if 48 <= b <= 57 {
            let j = first_final(r, 1);
            if j >= r.len() {
                Some(InputEvent::Unsupported)
            } else {
                let buf = r.take(j);
                let fin = r[j];
                if fin == 77u8 {
                    spec_rxvt_mouse(buf)
                } else if fin == 126u8 {
                    spec_special_key_code(buf)
                } else if fin == 82u8 {
                    spec_cursor_position(buf)
                } else {
                    Some(spec_modified_arrow_keys(buf, fin))
                }
            }
        } else {
            Some(InputEvent::Unsupported)
        }
    }
}

/// How many bytes of `r` (what follows `ESC [`) reading a control
/// sequence takes: the final byte and all before it, or everything where
/// the sequence stops short; three bytes after `M` for the X10 mouse
/// encoding, fewer where there are fewer.
pub open spec fn csi_taken(r: Seq<u8>) -> int {
    if r.len() == 0 {
        0
    } else {
        let b = r[0];
        if b == 91u8 {
            if r.len() > 1 { 2 } else { 1 }
        } else if b == 77u8 {
            if r.len() - 1 < 3 { r.len() as int } else { 4 }
        } else if b == 60u8 {
            let j = first_mouse_end(r.drop_first(), 0);
            if j >= r.len() - 1 { r.len() as int } else { j + 2 }
        } else if 48 <= b <= 57 {
            let j = first_final(r, 1);
            if j >= r.len() { r.len() as int } else { j + 1 }
        } else {
            1
        }
    }
}

/// The event that the byte `item` followed by `rest` stands for, or `None`
/// when it cannot be read.
pub open spec fn spec_parse_event(item: u8, rest: Seq<u8>) -> Option<InputEvent> {
    if item == 0x1Bu8 {
        if rest.len() == 0 {
            Some(InputEvent::Keyboard(KeyEvent::Esc))
        } else {
            let a = rest[0];
            if a == 79u8 {
                if rest.len() > 1 && 80 <= rest[1] <= 83 {
                    Some(InputEvent::Keyboard(KeyEvent::F((1 + rest[1] - 80) as u8)))
                } else {
                    Some(InputEvent::Unsupported)
                }
            } else if a == 91u8 {
                spec_parse_csi(rest.drop_first())
            } else if a == 0x1Bu8 {
                Some(InputEvent::Keyboard(KeyEvent::Esc))
            } else {
                match utf8_char(a, rest.drop_first()) {
                    Some(ch) => Some(InputEvent::Keyboard(KeyEvent::Alt(ch))),
                    None => Some(InputEvent::Unsupported),
                }
            }
        }
    } else if item == 13u8 || item == 10u8 {
        Some(InputEvent::Keyboard(KeyEvent::Enter))
    } else if item == 9u8 {
        Some(InputEvent::Keyboard(KeyEvent::Tab))
    } else if item == 0x7Fu8 {
        Some(InputEvent::Keyboard(KeyEvent::Backspace))
    } else if 1 <= item <= 0x1A {
        Some(InputEvent::Keyboard(KeyEvent::Ctrl(((item - 1 + 97) as u8) as char)))
    } else if 0x1C <= item <= 0x1F {
        Some(InputEvent::Keyboard(KeyEvent::Ctrl(((item - 0x1C + 52) as u8) as char)))
    } else if item == 0 {
        Some(InputEvent::Keyboard(KeyEvent::Null))
    } else {
        match utf8_char(item, rest) {
            Some(ch) => Some(InputEvent::Keyboard(KeyEvent::Char(ch))),
            None => Some(InputEvent::Unsupported),
        }
    }
}


/// The contents of each field.
pub open spec fn field_views(fields: Seq<Vec<u8>>) -> Seq<Seq<u8>> {
    fields.map_values(|f: Vec<u8>| f@)
}

/// The pair `(Cx, Cy)` of X10 coordinates.
fn x10_coords(bx: u8, by: u8) -> (res: (i16, i16))
    ensures
        res.0 == x10_coord(bx) as i16,
        res.1 == x10_coord(by) as i16,
{
    let cx = bx.saturating_sub(32) as i16 - 1;
    let cy = by.saturating_sub(32) as i16 - 1;
    (cx, cy)
}

/// Reads the X10 mouse encoding from `r[p..]` (what follows `ESC [ M`).
pub fn x10_mouse(r: &[u8], p: usize) -> (res: Option<InputEvent>)
    requires
        p <= r.len(),
    ensures
        res == spec_x10_mouse(r@.skip(p as int)),
{
    let ghost t = r@.skip(p as int);
    if p < r.len() && 128 <= r[p] && r[p] < 160 {
        return None;
    }
    if r.len() - p < 3 {
        return Some(InputEvent::Unsupported);
    }
    assert(t[0] == r[p as int] && t[1] == r[p + 1] && t[2] == r[p + 2]);
    let b0 = r[p];
    let cb: u8 = if b0 >= 32 { b0 - 32 } else { b0 + 224 };
    assert(cb == ((b0 as int + 224) % 256) as u8);
    let (cx, cy) = x10_coords(r[p + 1], r[p + 2]);
    let ev = if cb & 3 == 0 {
        if cb & 0x40 != 0 {
            MouseEvent::Press(MouseButton::WheelUp, cx, cy)
        } else {
            MouseEvent::Press(MouseButton::Left, cx, cy)
        }
    } else if cb & 3 == 1 {
        if cb & 0x40 != 0 {
            MouseEvent::Press(MouseButton::WheelDown, cx, cy)
        } else {
            MouseEvent::Press(MouseButton::Middle, cx, cy)
        }
    } else if cb & 3 == 2 {
        MouseEvent::Press(MouseButton::Right, cx, cy)
    } else {
        MouseEvent::Release(cx, cy)
    };
    Some(InputEvent::Mouse(ev))
}

/// The value of field `k` as an `i16`, or `dflt` when it is missing or is
/// not a number.
pub(crate) fn field_or_exec(fields: &Vec<Vec<u8>>, k: usize, dflt: i16) -> (res: i16)
    ensures
        res as int == field_or(field_views(fields@), k as int, dflt as int),
{
    let ghost fs = field_views(fields@);
    if k < fields.len() {
        assert(fs[k as int] == fields@[k as int]@);
        match parse_i16(fields[k].as_slice()) {
            Some(v) => v,
            None => dflt,
        }
    } else {
        dflt
    }
}

/// The bytes of `r` from `p` up to (not including) `j`.
pub(crate) fn copy_range(r: &[u8], p: usize, j: usize) -> (res: Vec<u8>)
    requires
        p <= j <= r.len(),
    ensures
        res@ == r@.subrange(p as int, j as int),
{
    let mut out: Vec<u8> = Vec::new();
    let mut k = p;
    while k < j
        invariant
            p <= k <= j <= r.len(),
            out@ == r@.subrange(p as int, k as int),
        decreases j - k,
    {
        out.push(r[k]);
        k += 1;
        assert(out@ =~= r@.subrange(p as int, k as int));
    }
    out
}

/// Splits `buf` into fields, with the view of each field.
pub(crate) fn fields_of(buf: &[u8]) -> (res: Vec<Vec<u8>>)
    ensures
        field_views(res@) == split_fields(buf@),
{
    let res = split_fields_exec(buf);
    assert(field_views(res@) =~= split_fields(buf@));
    res
}

/// Reads the SGR mouse encoding from `r[p..]` (what follows `ESC [ <`).
pub fn xterm_mouse(r: &[u8], p: usize) -> (res: Option<InputEvent>)
    requires
        p <= r.len(),
    ensures
        res == spec_xterm_mouse(r@.skip(p as int)),
{
    let ghost t = r@.skip(p as int);
    let mut j = p;
    while j < r.len() && r[j] != 109u8 && r[j] != 77u8
        invariant
            p <= j <= r.len(),
            t == r@.skip(p as int),
            first_mouse_end(t, 0) == first_mouse_end(t, j - p),
        decreases r.len() - j,
    {
        assert(t[j - p] == r[j as int]);
        j += 1;
    }
    if j >= r.len() {
        assert(first_mouse_end(t, j - p) == t.len());
        return Some(InputEvent::Unsupported);
    }
    assert(t[j - p] == r[j as int]);
    assert(first_mouse_end(t, 0) == j - p);
    let buf = copy_range(r, p, j);
    assert(buf@ =~= t.take(j - p));
    if !is_valid_utf8(buf.as_slice()) {
        return Some(InputEvent::Unsupported);
    }
    let fields = fields_of(buf.as_slice());
    let cb = field_or_exec(&fields, 0, 4);
    let px = field_or_exec(&fields, 1, 1);
    let py = field_or_exec(&fields, 2, 1);
    if px == i16::MIN || py == i16::MIN {
        return None;
    }
    let cx = px - 1;
    let cy = py - 1;
    let c = r[j];
    if cb == 0 || cb == 1 || cb == 2 || cb == 64 || cb == 65 {
        let btn = if cb == 0 {
            MouseButton::Left
        } else if cb == 1 {
            MouseButton::Middle
        } else if cb == 2 {
            MouseButton::Right
        } else if cb == 64 {
            MouseButton::WheelUp
        } else {
            MouseButton::WheelDown
        };
        if c == 77u8 {
            Some(InputEvent::Mouse(MouseEvent::Press(btn, cx, cy)))
        } else {
            Some(InputEvent::Mouse(MouseEvent::Release(cx, cy)))
        }
    } else if cb == 32 {
        Some(InputEvent::Mouse(MouseEvent::Hold(cx, cy)))
    } else if cb == 3 {
        Some(InputEvent::Mouse(MouseEvent::Release(cx, cy)))
    } else {
        Some(InputEvent::Unsupported)
    }
}

/// Parses every field as an `i16`; `None` as soon as one does not parse.
pub(crate) fn all_i16(fields: &Vec<Vec<u8>>) -> (res: Option<Vec<i16>>)
    ensures
        res is Some <==> all_fields_parse(
            field_views(fields@),
            true,
            i16::MIN as int,
            i16::MAX as int,
        ),
        res matches Some(v) ==> v@.len() == fields@.len() && forall|k: int|
            0 <= k < v@.len() ==> v@[k] as int == #[trigger] field_value(
                field_views(fields@),
                k,
                true,
                i16::MIN as int,
                i16::MAX as int,
            ),
{
    let ghost fs = field_views(fields@);
    let mut out: Vec<i16> = Vec::new();
    let mut k: usize = 0;
    while k < fields.len()
        invariant
            k <= fields@.len(),
            fs == field_views(fields@),
            out@.len() == k,
            forall|i: int|
                0 <= i < k ==> #[trigger] parse_int(fs[i], true, i16::MIN as int, i16::MAX as int)
                    == Some(out@[i] as int),
        decreases fields.len() - k,
    {
        assert(fs[k as int] == fields@[k as int]@);
        match parse_i16(fields[k].as_slice()) {
            Some(v) => {
                out.push(v);
            },
            None => {
                assert(!all_fields_parse(fs, true, i16::MIN as int, i16::MAX as int));
                return None;
            },
        }
        k += 1;
    }
    assert forall|i: int| 0 <= i < out@.len() implies out@[i] as int == #[trigger] field_value(
        fs,
        i,
        true,
        i16::MIN as int,
        i16::MAX as int,
    ) by {
        assert(parse_int(fs[i], true, i16::MIN as int, i16::MAX as int) == Some(out@[i] as int));
    }
    assert(all_fields_parse(fs, true, i16::MIN as int, i16::MAX as int)) by {
        assert forall|i: int| 0 <= i < fs.len() implies #[trigger] parse_int(
            fs[i],
            true,
            i16::MIN as int,
            i16::MAX as int,
        ) is Some by {
            assert(parse_int(fs[i], true, i16::MIN as int, i16::MAX as int) == Some(out@[i] as int));
        }
    }
    Some(out)
}

/// Parses every field as a `u8`; `None` as soon as one does not parse.
pub(crate) fn all_u8(fields: &Vec<Vec<u8>>) -> (res: Option<Vec<u8>>)
    ensures
        res is Some <==> all_fields_parse(field_views(fields@), false, 0, 255),
        res matches Some(v) ==> v@.len() == fields@.len() && forall|k: int|
            0 <= k < v@.len() ==> v@[k] as int == #[trigger] field_value(
                field_views(fields@),
                k,
                false,
                0,
                255,
            ),
{
    let ghost fs = field_views(fields@);
    let mut out: Vec<u8> = Vec::new();
    let mut k: usize = 0;
    while k < fields.len()
        invariant
            k <= fields@.len(),
            fs == field_views(fields@),
            out@.len() == k,
            forall|i: int|
                0 <= i < k ==> #[trigger] parse_int(fs[i], false, 0, 255) == Some(out@[i] as int),
        decreases fields.len() - k,
    {
        assert(fs[k as int] == fields@[k as int]@);
        match parse_u8(fields[k].as_slice()) {
            Some(v) => {
                out.push(v);
            },
            None => {
                assert(!all_fields_parse(fs, false, 0, 255));
                return None;
            },
        }
        k += 1;
    }
    assert forall|i: int| 0 <= i < out@.len() implies out@[i] as int == #[trigger] field_value(
        fs,
        i,
        false,
        0,
        255,
    ) by {
        assert(parse_int(fs[i], false, 0, 255) == Some(out@[i] as int));
    }
    assert(all_fields_parse(fs, false, 0, 255)) by {
        assert forall|i: int| 0 <= i < fs.len() implies #[trigger] parse_int(
            fs[i],
            false,
            0,
            255,
        ) is Some by {
            assert(parse_int(fs[i], false, 0, 255) == Some(out@[i] as int));
        }
    }
    Some(out)
}

/// Reads the rxvt mouse encoding from its parameters.
pub fn parse_csi_rxvt_mouse(buf: &[u8]) -> (res: Option<InputEvent>)
    ensures
        res == spec_rxvt_mouse(buf@),
{
    let fields = fields_of(buf);
    let nums = match all_i16(&fields) {
        Some(v) => v,
        None => {
            return None;
        },
    };
    if nums.len() < 3 {
        return None;
    }
    let cb = nums[0];
    let cx = nums[1];
    let cy = nums[2];
    let ev = if cb == 32 {
        InputEvent::Mouse(MouseEvent::Press(MouseButton::Left, cx, cy))
    } else if cb == 33 {
        InputEvent::Mouse(MouseEvent::Press(MouseButton::Middle, cx, cy))
    } else if cb == 34 {
        InputEvent::Mouse(MouseEvent::Press(MouseButton::Right, cx, cy))
    } else if cb == 35 {
        InputEvent::Mouse(MouseEvent::Release(cx, cy))
    } else if cb == 64 {
        InputEvent::Mouse(MouseEvent::Hold(cx, cy))
    } else if cb == 96 || cb == 97 {
        InputEvent::Mouse(MouseEvent::Press(MouseButton::WheelUp, cx, cy))
    } else {
        InputEvent::Unsupported
    };
    Some(ev)
}

/// Reads a special key code from its parameters.
pub fn parse_csi_special_key_code(buf: &[u8]) -> (res: Option<InputEvent>)
    ensures
        res == spec_special_key_code(buf@),
{
    let fields = fields_of(buf);
    let nums = match all_u8(&fields) {
        Some(v) => v,
        None => {
            return None;
        },
    };
    proof {
        lemma_split_fields_nonempty(buf@);
    }
    if nums.len() > 1 {
        return Some(InputEvent::Unsupported);
    }
    let v = nums[0];
    let ev = if v == 1 || v == 7 {
        InputEvent::Keyboard(KeyEvent::Home)
    } else if v == 2 {
        InputEvent::Keyboard(KeyEvent::Insert)
    } else if v == 3 {
        InputEvent::Keyboard(KeyEvent::Delete)
    } else if v == 4 || v == 8 {
        InputEvent::Keyboard(KeyEvent::End)
    } else if v == 5 {
        InputEvent::Keyboard(KeyEvent::PageUp)
    } else if v == 6 {
        InputEvent::Keyboard(KeyEvent::PageDown)
    } else if 11 <= v && v <= 15 {
        InputEvent::Keyboard(KeyEvent::F(v - 10))
    } else if 17 <= v && v <= 21 {
        InputEvent::Keyboard(KeyEvent::F(v - 11))
    } else if 23 <= v && v <= 24 {
        InputEvent::Keyboard(KeyEvent::F(v - 12))
    } else {
        InputEvent::Unsupported
    };
    Some(ev)
}

/// Reads a cursor position report from its parameters.
pub fn parse_csi_cursor_position(buf: &[u8]) -> (res: Option<InputEvent>)
    ensures
        res == spec_cursor_position(buf@),
{
    let fields = fields_of(buf);
    let nums = match all_i16(&fields) {
        Some(v) => v,
        None => {
            return None;
        },
    };
    if nums.len() < 2 {
        return None;
    }
    if nums[0] == i16::MIN || nums[1] == i16::MIN {
        return None;
    }
    let row = nums[0] - 1;
    let col = nums[1] - 1;
    Some(InputEvent::Dispatch(StoreEvent::Pos(col, row)))
}

/// Reads an arrow key with Ctrl or Shift from its parameters and final byte.
pub fn parse_csi_modified_arrow_keys(buf: &[u8], key: u8) -> (res: InputEvent)
    requires
        buf@.len() > 0,
    ensures
        res == spec_modified_arrow_keys(buf@, key),
{
    let m = buf[buf.len() - 1];
    if m == 53u8 && key == 65u8 {
        InputEvent::Keyboard(KeyEvent::CtrlUp)
    } else if m == 53u8 && key == 66u8 {
        InputEvent::Keyboard(KeyEvent::CtrlDown)
    } else if m == 53u8 && key == 67u8 {
        InputEvent::Keyboard(KeyEvent::CtrlRight)
    } else if m == 53u8 && key == 68u8 {
        InputEvent::Keyboard(KeyEvent::CtrlLeft)
    } else if m == 50u8 && key == 65u8 {
        InputEvent::Keyboard(KeyEvent::ShiftUp)
    } else if m == 50u8 && key == 66u8 {
        InputEvent::Keyboard(KeyEvent::ShiftDown)
    } else if m == 50u8 && key == 67u8 {
        InputEvent::Keyboard(KeyEvent::ShiftRight)
    } else if m == 50u8 && key == 68u8 {
        InputEvent::Keyboard(KeyEvent::ShiftLeft)
    } else {
        InputEvent::Unsupported
    }
}

/// Reads a control sequence from `r[p..]` (what follows `ESC [`): the
/// event (see `spec_parse_csi`) and how many bytes of `r[p..]` reading it
/// takes (see `csi_taken`).
pub fn parse_csi(r: &[u8], p: usize) -> (res: (Option<InputEvent>, usize))
    requires
        p <= r.len(),
    ensures
        res.0 == spec_parse_csi(r@.skip(p as int)),
        res.1 as int == csi_taken(r@.skip(p as int)),
{
    (csi_event(r, p), csi_len(r, p))
}

/// How many bytes of `r[p..]` (what follows `ESC [`) reading the control
/// sequence takes (see `csi_taken`).
fn csi_len(r: &[u8], p: usize) -> (res: usize)
    requires
        p <= r.len(),
    ensures
        res as int == csi_taken(r@.skip(p as int)),
{
    let ghost t = r@.skip(p as int);
    if p >= r.len() {
        return 0;
    }
    let n = r.len() - p;
    let b = r[p];
    assert(t[0] == b);
    if b == 91u8 {
        if n > 1 { 2 } else { 1 }
    } else if b == 77u8 {
        if n - 1 < 3 { n } else { 4 }
    } else if b == 60u8 {
        let ghost u = t.drop_first();
        let mut j = p + 1;
        while j < r.len() && r[j] != 109u8 && r[j] != 77u8
            invariant
                p + 1 <= j <= r.len(),
                t == r@.skip(p as int),
                u == t.drop_first(),
                first_mouse_end(u, 0) == first_mouse_end(u, j - p - 1),
            decreases r.len() - j,
        {
            assert(u[j - p - 1] == r[j as int]);
            j += 1;
        }
        if j >= r.len() {
            assert(first_mouse_end(u, j - p - 1) == u.len());
            n
        } else {
            assert(u[j - p - 1] == r[j as int]);
            j - p + 1
        }
    } else if 48 <= b && b <= 57 {
        let mut j = p + 1;
        while j < r.len() && !(64 <= r[j] && r[j] <= 126)
            invariant
                p + 1 <= j <= r.len(),
                t == r@.skip(p as int),
                first_final(t, 1) == first_final(t, j - p),
            decreases r.len() - j,
        {
            assert(t[j - p] == r[j as int]);
            j += 1;
        }
        if j >= r.len() {
            assert(first_final(t, j - p) == t.len());
            n
        } else {
            assert(t[j - p] == r[j as int]);
            j - p + 1
        }
    } else {
        1
    }
}

/// Reads the event of a control sequence from `r[p..]` (what follows
/// `ESC [`).
fn csi_event(r: &[u8], p: usize) -> (res: Option<InputEvent>)
    requires
        p <= r.len(),
    ensures
        res == spec_parse_csi(r@.skip(p as int)),
{
    let ghost t = r@.skip(p as int);
    if p >= r.len() {
        return Some(InputEvent::Unsupported);
    }
    let b = r[p];
    assert(t[0] == b);
    assert(t.drop_first() =~= r@.skip(p + 1));
    if b == 91u8 {
        if p + 1 < r.len() && 65 <= r[p + 1] && r[p + 1] <= 69 {
            assert(t[1] == r[p + 1]);
            Some(InputEvent::Keyboard(KeyEvent::F(1 + r[p + 1] - 65)))
        } else {
            proof {
                if t.len() > 1 {
                    assert(t[1] == r[p + 1]);
                }
            }
            Some(InputEvent::Unsupported)
        }
    } else if b == 68u8 {
        Some(InputEvent::Keyboard(KeyEvent::Left))
    } else if b == 67u8 {
        Some(InputEvent::Keyboard(KeyEvent::Right))
    } else if b == 65u8 {
        Some(InputEvent::Keyboard(KeyEvent::Up))
    } else if b == 66u8 {
        Some(InputEvent::Keyboard(KeyEvent::Down))
    } else if b == 72u8 {
        Some(InputEvent::Keyboard(KeyEvent::Home))
    } else if b == 70u8 {
        Some(InputEvent::Keyboard(KeyEvent::End))
    } else if b == 90u8 {
        Some(InputEvent::Keyboard(KeyEvent::BackTab))
    } else if b == 77u8 {
        x10_mouse(r, p + 1)
    } else if b == 60u8 {
        xterm_mouse(r, p + 1)
    } else if 48 <= b && b <= 57 {
        let mut j = p + 1;
        while j < r.len() && !(64 <= r[j] && r[j] <= 126)
            invariant
                p + 1 <= j <= r.len(),
                t == r@.skip(p as int),
                first_final(t, 1) == first_final(t, j - p),
            decreases r.len() - j,
        {
            assert(t[j - p] == r[j as int]);
            j += 1;
        }
        if j >= r.len() {
            assert(first_final(t, j - p) == t.len());
            return Some(InputEvent::Unsupported);
        }
        assert(t[j - p] == r[j as int]);
        assert(first_final(t, 1) == j - p);
        let buf = copy_range(r, p, j);
        assert(buf@ =~= t.take(j - p));
        let fin = r[j];
        if fin == 77u8 {
            parse_csi_rxvt_mouse(buf.as_slice())
        } else if fin == 126u8 {
            parse_csi_special_key_code(buf.as_slice())
        } else if fin == 82u8 {
            parse_csi_cursor_position(buf.as_slice())
        } else {
            Some(parse_csi_modified_arrow_keys(buf.as_slice(), fin))
        }
    } else {
        Some(InputEvent::Unsupported)
    }
}

/// Reads the event that the byte `item` followed by `rest` stands for:
/// `None` exactly when it cannot be read (`spec_parse_event` gives `None`).
pub fn try_parse_event(item: u8, rest: &[u8]) -> (res: Option<InputEvent>)
    ensures
        res == spec_parse_event(item, rest@),
{
    if item == 0x1Bu8 {
        if rest.len() == 0 {
            return Some(InputEvent::Keyboard(KeyEvent::Esc));
        }
        let a = rest[0];
        assert(rest@.drop_first() =~= rest@.skip(1));
        if a == 79u8 {
            if rest.len() > 1 && 80 <= rest[1] && rest[1] <= 83 {
                Some(InputEvent::Keyboard(KeyEvent::F(1 + rest[1] - 80)))
            } else {
                Some(InputEvent::Unsupported)
            }
        } else if a == 91u8 {
            parse_csi(rest, 1).0
        } else if a == 0x1Bu8 {
            Some(InputEvent::Keyboard(KeyEvent::Esc))
        } else {
            match parse_utf8_char(a, rest, 1).0 {
                Some(ch) => Some(InputEvent::Keyboard(KeyEvent::Alt(ch))),
                None => Some(InputEvent::Unsupported),
            }
        }
    } else if item == 13u8 || item == 10u8 {
        Some(InputEvent::Keyboard(KeyEvent::Enter))
    } else if item == 9u8 {
        Some(InputEvent::Keyboard(KeyEvent::Tab))
    } else if item == 0x7Fu8 {
        Some(InputEvent::Keyboard(KeyEvent::Backspace))
    } else if 1 <= item && item <= 0x1A {
        Some(InputEvent::Keyboard(KeyEvent::Ctrl((item - 1 + 97) as char)))
    } else if 0x1C <= item && item <= 0x1F {
        Some(InputEvent::Keyboard(KeyEvent::Ctrl((item - 0x1C + 52) as char)))
    } else if item == 0 {
        Some(InputEvent::Keyboard(KeyEvent::Null))
    } else {
        assert(rest@.skip(0) =~= rest@);
        match parse_utf8_char(item, rest, 0).0 {
            Some(ch) => Some(InputEvent::Keyboard(KeyEvent::Char(ch))),
            None => Some(InputEvent::Unsupported),
        }
    }
}

/// The event that the byte `item` followed by `rest` stands for.
pub fn parse_event(item: u8, rest: &[u8]) -> (res: InputEvent)
    requires
        spec_parse_event(item, rest@) is Some,
    ensures
        spec_parse_event(item, rest@) == Some(res),
{
    match try_parse_event(item, rest) {
        Some(ev) => ev,
        None => {
            proof {
                assert(false);
            }
            InputEvent::Unsupported
        },
    }
}

} // verus!
