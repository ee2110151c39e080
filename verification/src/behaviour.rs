//! What single operations mean, stated in the terms of the protocols and
//! screens they serve rather than by their own definitions.

use vstd::prelude::*;
use crate::enums::KeyEvent;
use crate::input::windows::{EventFlags, KeyEventRecord, MouseEventRecord, button_state_of, key_event_of, mouse_event_of};
use crate::enums::{MouseButton, MouseEvent};
use crate::store::parse::{ParseEnv, ParseState, carriage_return, line_feed, new_line, tab_move, step, is_modifier};
use crate::text::decimal;
use crate::cache::{InfoView, RuneView, default_style, flush_upto, down_row, left_pos, right_pos, up_row};
use crate::store::screens::clamp;
use crate::cache::content::{CacheState, cluster_step, chars_run, is_compound};
use crate::unicode::display_width;
use crate::wincon::clear_plan_of;
use crate::ansi::style::style_seq;
use crate::enums::{Clear, Color, Style};
use crate::store::buffer::{CellView, clear_range, nil_range};

verus! {

/// Each named virtual key of the Windows console gives the key event of
/// the same name: Backspace (0x08), Enter (0x0D), Esc (0x1B), Page Up
/// (0x21), Page Down (0x22), End (0x23), Home (0x24), Insert (0x2D),
/// Delete (0x2E), F1 to F12 (0x70 to 0x7B), and the arrows Left (0x25),
/// Up (0x26), Right (0x27), Down (0x28), taken with Ctrl when a Ctrl key
/// (0x0004, 0x0008) is down, else with Shift when Shift (0x0010) is down.
#[verifier::spinoff_prover]
pub proof fn law_named_virtual_keys(k: KeyEventRecord)
    ensures
        k.virtual_key_code == 0x08 ==> key_event_of(k) == KeyEvent::Backspace,
        k.virtual_key_code == 0x0D ==> key_event_of(k) == KeyEvent::Enter,
        k.virtual_key_code == 0x1B ==> key_event_of(k) == KeyEvent::Esc,
        k.virtual_key_code == 0x21 ==> key_event_of(k) == KeyEvent::PageUp,
        k.virtual_key_code == 0x22 ==> key_event_of(k) == KeyEvent::PageDown,
        k.virtual_key_code == 0x23 ==> key_event_of(k) == KeyEvent::End,
        k.virtual_key_code == 0x24 ==> key_event_of(k) == KeyEvent::Home,
        k.virtual_key_code == 0x2D ==> key_event_of(k) == KeyEvent::Insert,
        k.virtual_key_code == 0x2E ==> key_event_of(k) == KeyEvent::Delete,
        0x70 <= k.virtual_key_code <= 0x7B ==> key_event_of(k) == KeyEvent::F(
            (k.virtual_key_code - 0x6F) as u8,
        ),
        ({
            let ctrl = k.control_key_state.0 & 0x000Cu32 != 0;
            let shift = k.control_key_state.0 & 0x0010u32 != 0;
            &&& k.virtual_key_code == 0x25 ==> key_event_of(k) == (if ctrl {
                KeyEvent::CtrlLeft
            } else if shift {
                KeyEvent::ShiftLeft
            } else {
                KeyEvent::Left
            })
            &&& k.virtual_key_code == 0x26 ==> key_event_of(k) == (if ctrl {
                KeyEvent::CtrlUp
            } else if shift {
                KeyEvent::ShiftUp
            } else {
                KeyEvent::Up
            })
            &&& k.virtual_key_code == 0x27 ==> key_event_of(k) == (if ctrl {
                KeyEvent::CtrlRight
            } else if shift {
                KeyEvent::ShiftRight
            } else {
                KeyEvent::Right
            })
            &&& k.virtual_key_code == 0x28 ==> key_event_of(k) == (if ctrl {
                KeyEvent::CtrlDown
            } else if shift {
                KeyEvent::ShiftDown
            } else {
                KeyEvent::Down
            })
        }),
{
    let s = k.control_key_state.0;
    assert((0x0004u32 | 0x0008u32) == 0x000Cu32) by (bit_vector);
    assert((0x0008u32 | 0x0004u32) == 0x000Cu32) by (bit_vector);
    assert(s & 0x000Cu32 == 0x000Cu32 & s) by (bit_vector);
    assert(s & 0x0010u32 == 0x0010u32 & s) by (bit_vector);
}

/// The virtual key codes that `key_event_of` reads by name (Backspace,
/// Enter, Shift, Ctrl, Alt, Esc, Page Up and Down, End, Home, the arrows,
/// Insert, Delete, F1 to F12).
pub open spec fn named_virtual_key(code: u16) -> bool {
    ||| code == 0x08 || code == 0x0D || code == 0x10 || code == 0x11 || code == 0x12 || code == 0x1B
    ||| 0x21 <= code <= 0x28
    ||| code == 0x2D || code == 0x2E
    ||| 0x70 <= code <= 0x7B
}

/// A console key record of any other key reads as its character (up to
/// U+00FE): plain with no modifier (a tab is Tab), Ctrl with the letter of
/// a control character when a Ctrl key is down and no Alt key (character 1
/// is `a`), and a back tab for a tab with Shift.
#[verifier::spinoff_prover]
pub proof fn law_console_characters(k: KeyEventRecord)
    requires
        !named_virtual_key(k.virtual_key_code),
        k.unicode_char < 255,
    ensures
        ({
            let s = k.control_key_state.0;
            let ch = (k.unicode_char as u8) as char;
            &&& s & 0x001Fu32 == 0 && ch != '\t' ==> key_event_of(k) == KeyEvent::Char(ch)
            &&& s & 0x001Fu32 == 0 && ch == '\t' ==> key_event_of(k) == KeyEvent::Tab
            &&& s == 0x0010u32 && ch == '\t' ==> key_event_of(k) == KeyEvent::BackTab
            &&& (s == 0x0004u32 || s == 0x0008u32) && 1 <= k.unicode_char <= 26 ==> key_event_of(k) == KeyEvent::Ctrl(
                ((k.unicode_char + 96) as u8) as char,
            )
        }),
{
    let s = k.control_key_state.0;
    assert(s & 0x001Fu32 == 0 ==> (0x0002u32 | 0x0001u32) & s == 0 && (0x0008u32 | 0x0004u32) & s == 0
        && 0x0010u32 & s == 0) by (bit_vector);
    assert(s == 0x0010u32 ==> (0x0002u32 | 0x0001u32) & s == 0 && (0x0008u32 | 0x0004u32) & s == 0
        && 0x0010u32 & s != 0) by (bit_vector);
    assert((s == 0x0004u32 || s == 0x0008u32) ==> (0x0002u32 | 0x0001u32) & s == 0
        && (0x0008u32 | 0x0004u32) & s != 0) by (bit_vector);
}

/// A console mouse record reads as the event its button word stands for
/// at its position: with no flag, 0 is a release, 1 (the leftmost button)
/// a left press, 2 (the rightmost) a right press, 4 (the second from the
/// left) a middle press; a wheel turn is up unless the word is negative as
/// an `i32` (turned toward the user); a move with a button down is a hold.
#[verifier::spinoff_prover]
pub proof fn law_console_mouse(m: MouseEventRecord, b: u32)
    requires
        m.button_state == button_state_of(b),
    ensures
        ({
            let (x, y) = m.mouse_position;
            let ev = mouse_event_of(m);
            &&& m.event_flags == EventFlags::PressOrRelease ==> {
                &&& b == 0 ==> ev == MouseEvent::Release(x, y)
                &&& b == 1 ==> ev == MouseEvent::Press(MouseButton::Left, x, y)
                &&& b == 2 ==> ev == MouseEvent::Press(MouseButton::Right, x, y)
                &&& b == 4 ==> ev == MouseEvent::Press(MouseButton::Middle, x, y)
            }
            &&& m.event_flags == EventFlags::MouseWheeled ==> {
                &&& b >= 0x8000_0000 ==> ev == MouseEvent::Press(MouseButton::WheelDown, x, y)
                &&& b < 0x8000_0000 ==> ev == MouseEvent::Press(MouseButton::WheelUp, x, y)
            }
            &&& m.event_flags == EventFlags::MouseMoved ==> {
                &&& b != 0 ==> ev == MouseEvent::Hold(x, y)
                &&& b == 0 ==> ev == MouseEvent::Unknown
            }
        }),
{
}

/// The cached cursor moves as the terminal's does: `n` rows up stops at
/// the top row, `n` rows down at the row past the last, `n` columns left
/// or right within the row keeps the row; moving left past the first
/// column goes up one row for each whole screen width of `n`, and right
/// past the last column down one row for each.
#[verifier::spinoff_prover]
pub proof fn law_cache_cursor_moves(pos: (i16, i16), n: i16, size: (i16, i16))
    requires
        size.0 > 0,
        size.1 > 0,
        0 <= pos.0 <= size.0,
        0 <= pos.1 <= size.1,
        0 <= n,
    ensures
        up_row(pos.1 as int, n as int) == (if pos.1 >= n { pos.1 - n } else { 0 }),
        down_row(pos.1 as int, n as int, size.1 as int) == (if pos.1 + n <= size.1 { pos.1 + n } else { size.1 as int }),
        n < pos.0 ==> left_pos(pos, n, size.0) == ((pos.0 - n) as i16, pos.1),
        pos.0 + n < size.0 ==> right_pos(pos, n, size) == ((pos.0 + n) as i16, pos.1),
        n >= pos.0 ==> left_pos(pos, n, size.0).1 == (if pos.1 >= n / size.0 { pos.1 - n / size.0 } else { 0 }),
        n >= pos.0 ==> left_pos(pos, n, size.0).0 <= pos.0,
        pos.0 + n >= size.0 ==> right_pos(pos, n, size).1 == (if pos.1 + n / size.0 <= size.1 {
            pos.1 + n / size.0
        } else {
            size.1 as int
        }),
        pos.0 + n >= size.0 ==> right_pos(pos, n, size).0 >= pos.0,
{
    vstd::arithmetic::div_mod::lemma_div_pos_is_pos(n as int, size.0 as int);
    vstd::arithmetic::div_mod::lemma_mod_bound(n as int, size.0 as int);
    vstd::arithmetic::div_mod::lemma_div_is_ordered_by_denominator(n as int, 1, size.0 as int);
    vstd::arithmetic::div_mod::lemma_div_basics(n as int);
}

/// An entry of the cache in the style `style`.
pub open spec fn info(rune: RuneView, width: usize, style: (Color, Color, u32)) -> Option<InfoView> {
    Some(InfoView { rune, width, style })
}

/// Recording text in the cache, one cluster at a time, from the cursor at
/// cell `st.index`: a printable ASCII character fills the cursor's cell in
/// the current style and moves one cell right, an escape is recorded as
/// `^`, a carriage return goes to the start of the row; at the end of the
/// screen the first row scrolls away, an empty row comes at the bottom,
/// and the character goes at its start. A lone wide character fills two
/// cells, the second an empty half, and moves two cells right. No other
/// cell changes.
#[verifier::spinoff_prover]
#[verifier::rlimit(40)]
pub proof fn law_cache_records_text(w: int, c: char, style: (Color, Color, u32), st: CacheState)
    requires
        w > 0,
        st.cells.len() >= w,
        0 <= st.index <= st.cells.len(),
    ensures
        ({
            let n = st.cells.len() as int;
            let s = cluster_step(w, seq![c], style, st);
            let shown = if c == '\x1B' { '^' } else { c };
            &&& (0x20 <= (c as u32) < 0x7F || c == '\x1B') && st.index < n ==> {
                &&& s is Some
                &&& s->0.cells.len() == n
                &&& s->0.cells[st.index] == info(RuneView::Single(shown), 1, style)
                &&& forall|k: int| 0 <= k < n && k != st.index ==> #[trigger] s->0.cells[k] == st.cells[k]
                &&& s->0.index == st.index + 1
            }
            &&& (0x20 <= (c as u32) < 0x7F) && st.index == n ==> {
                &&& s is Some
                &&& s->0.cells.len() == n
                &&& forall|k: int| 0 <= k < n - w ==> #[trigger] s->0.cells[k] == st.cells[k + w]
                &&& s->0.cells[n - w] == info(RuneView::Single(c), 1, style)
                &&& forall|k: int| n - w < k < n ==> #[trigger] s->0.cells[k] == None::<InfoView>
                &&& s->0.index == n - w + 1
            }
            &&& c == '\r' && st.index < n ==> s == Some(CacheState { cells: st.cells, index: (st.index / w) * w })
            &&& (c as u32) >= 0x80 && display_width(c) == Some(2usize) && st.index + 1 < n
                && !is_compound(st.cells[st.index]) ==> {
                &&& s is Some
                &&& s->0.cells.len() == n
                &&& s->0.cells[st.index] == info(RuneView::Double(c), 2, style)
                &&& s->0.cells[st.index + 1] == info(RuneView::Null, 0, style)
                &&& forall|k: int| 0 <= k < n && k != st.index && k != st.index + 1
                    ==> #[trigger] s->0.cells[k] == st.cells[k]
                &&& s->0.index == st.index + 2
            }
        }),
{
    let g = seq![c];
    assert(g[0] == c);
    if (c as u32) >= 0x80 {
        assert(!crate::cache::content::all_ascii(g));
        reveal_with_fuel(chars_run, 2);
    } else {
        assert(crate::cache::content::all_ascii(g));
    }
}

/// Clearing the console fills, from where it starts, the cells that the
/// way of clearing names, counted in the buffer's row-major order: the
/// whole buffer for `All`; the cursor's row for `CurrentLn`; the cursor's
/// cell to the end of its row for `NewLn`; every cell up to and with the
/// cursor's for `CursorUp`; and from the cursor's cell on for `CursorDn`
/// (to the end of the buffer and one row beyond, which the console cuts).
pub proof fn law_console_clear_fills(pos: (i16, i16), size: (i16, i16), attrs: u16)
    requires
        0 <= pos.0 <= size.0,
        0 <= pos.1 < size.1,
    ensures
        ({
            let (x, y) = (pos.0 as int, pos.1 as int);
            let (bw, bh) = (size.0 as int, size.1 as int);
            let all = clear_plan_of(Clear::All, pos, size, attrs);
            let line = clear_plan_of(Clear::CurrentLn, pos, size, attrs);
            let rest = clear_plan_of(Clear::NewLn, pos, size, attrs);
            let up = clear_plan_of(Clear::CursorUp, pos, size, attrs);
            let down = clear_plan_of(Clear::CursorDn, pos, size, attrs);
            &&& (all.start_col, all.start_row) == (0i16, 0i16) && all.cells as int == (bw * bh) as u32
            &&& (line.start_col, line.start_row) == (0i16, pos.1) && line.cells as int == bw
            &&& (rest.start_col, rest.start_row) == pos && rest.cells as int == bw - x
            &&& (up.start_col, up.start_row) == (0i16, 0i16) && up.cells as int == (y * bw + x + 1) as u32
            &&& (down.start_col, down.start_row) == pos && down.cells as int == ((bw * bh - (y * bw + x)) + bw) as u32
        }),
{
    let (x, y) = (pos.0 as int, pos.1 as int);
    let (bw, bh) = (size.0 as int, size.1 as int);
    assert(bw * y + x + 1 == y * bw + x + 1) by (nonlinear_arith);
    assert((bw - x) + bw * (bh - y) == (bw * bh - (y * bw + x)) + bw) by (nonlinear_arith);
}

/// Moving the cursor of a screen `n` wide to column `v` stops at its
/// edges: a column on the screen is kept, one before the first is the
/// first, one past the last is the last.
pub proof fn law_moves_stop_at_the_edges(v: int, n: int)
    requires
        n > 0,
    ensures
        0 <= v < n ==> clamp(v, n) == v,
        v < 0 ==> clamp(v, n) == 0,
        v >= n ==> clamp(v, n) == n - 1,
{
}

/// A carriage return takes the cursor to the first column of its own row
/// and tells the terminal to move left by exactly the columns it left
/// behind (`ESC [ n D`); the cells are untouched.
#[verifier::spinoff_prover]
pub proof fn law_carriage_return_goes_to_row_start(env: ParseEnv, st: ParseState)
    requires
        env.w > 0,
        st.index >= 0,
    ensures
        ({
            let s2 = carriage_return(env, st);
            &&& s2.index % env.w == 0
            &&& s2.index / env.w == st.index / env.w
            &&& 0 <= s2.index <= st.index
            &&& s2.out == st.out + seq!['\x1B', '['] + decimal(st.index - s2.index) + seq!['D']
            &&& s2.cells == st.cells
        }),
{
    let w = env.w;
    let row = st.index / w;
    vstd::arithmetic::div_mod::lemma_fundamental_div_mod(st.index, w);
    vstd::arithmetic::div_mod::lemma_mod_bound(st.index, w);
    vstd::arithmetic::div_mod::lemma_div_pos_is_pos(st.index, w);
    vstd::arithmetic::div_mod::lemma_mod_multiples_basic(row, w);
    vstd::arithmetic::div_mod::lemma_div_multiples_vanish(row, w);
    vstd::arithmetic::mul::lemma_mul_is_commutative(w, row);
    let s2 = carriage_return(env, st);
    assert(s2.index == row * w);
    assert(st.index - s2.index == st.index % w);
    assert(s2.out =~= st.out + seq!['\x1B', '['] + decimal(st.index - s2.index) + seq!['D']);
}

/// A line feed moves the cursor one row down in the same column (on the
/// last row it stays on the last row) and tells the terminal `ESC [ B`;
/// the cells are untouched.
#[verifier::spinoff_prover]
pub proof fn law_line_feed_goes_down(env: ParseEnv, st: ParseState)
    requires
        env.w > 0,
        env.h > 0,
        st.index >= 0,
    ensures
        ({
            let s3 = line_feed(env, st);
            let row = st.index / env.w;
            &&& s3.index % env.w == st.index % env.w
            &&& row + 1 < env.h ==> s3.index / env.w == row + 1
            &&& row + 1 >= env.h ==> s3.index / env.w == env.h - 1
            &&& s3.out == st.out + seq!['\x1B', '[', 'B']
            &&& s3.cells == st.cells
        }),
{
    let w = env.w;
    let row = st.index / w;
    let col = st.index % w;
    vstd::arithmetic::div_mod::lemma_mod_bound(st.index, w);
    vstd::arithmetic::div_mod::lemma_div_pos_is_pos(st.index, w);
    let r = if env.h > row + 1 { row + 1 } else { env.h - 1 };
    assert(r >= 0);
    lemma_row_col(w, r, col);
    let s3 = line_feed(env, st);
    assert(s3.out =~= st.out + seq!['\x1B', '[', 'B']);
}

/// The cell at (col, row) is in column `col` and row `row`.
proof fn lemma_row_col(w: int, r: int, col: int)
    requires
        w > 0,
        r >= 0,
        0 <= col < w,
    ensures
        (r * w + col) % w == col,
        (r * w + col) / w == r,
{
    vstd::arithmetic::div_mod::lemma_fundamental_div_mod(r * w + col, w);
    vstd::arithmetic::div_mod::lemma_mod_bound(r * w + col, w);
    let q = (r * w + col) / w;
    let m = (r * w + col) % w;
    assert(q == r && m == col) by (nonlinear_arith)
        requires
            r * w + col == w * q + m,
            0 <= m < w,
            0 <= col < w,
            w > 0,
    ;
}

/// A carriage return with a line feed moves the cursor to the first column
/// of the next row (on the last row, of the last row) and tells the
/// terminal so with `ESC [ 0 ; r H`, `r` the new row; the cells are
/// untouched.
#[verifier::spinoff_prover]
pub proof fn law_new_line_goes_to_next_row_start(env: ParseEnv, st: ParseState)
    requires
        env.w > 0,
        env.h > 0,
        st.index >= 0,
    ensures
        ({
            let s3 = new_line(env, st);
            let row = st.index / env.w;
            &&& s3.index % env.w == 0
            &&& row + 1 < env.h ==> s3.index / env.w == row + 1
            &&& row + 1 >= env.h ==> s3.index / env.w == env.h - 1
            &&& s3.out == st.out + seq!['\x1B', '[', '0', ';'] + decimal(s3.index / env.w) + seq!['H']
            &&& s3.cells == st.cells
        }),
{
    let w = env.w;
    let row = st.index / w;
    vstd::arithmetic::div_mod::lemma_div_pos_is_pos(st.index, w);
    let r = if env.h > row + 1 { row + 1 } else { env.h - 1 };
    lemma_row_col(w, r, 0);
    let s3 = new_line(env, st);
    assert(s3.out =~= st.out + seq!['\x1B', '[', '0', ';'] + decimal(s3.index / env.w) + seq!['H']);
}

/// A column where a tab of width `tab` stops.
pub open spec fn is_tab_stop(tab: int, col: int) -> bool {
    col % tab == 0
}

/// A tab moves the cursor right within its row to the next tab stop (a
/// column that is a multiple of the tab width), or to the last column when
/// no stop is left, passing no stop on the way, and tells the terminal to
/// move right by exactly that many columns (`ESC [ n C`); where the cursor
/// cannot move right nothing changes.
#[verifier::spinoff_prover]
pub proof fn law_tab_goes_to_next_stop(env: ParseEnv, st: ParseState)
    requires
        env.w > 0,
        env.tab >= 1,
        st.index >= 0,
    ensures
        ({
            let s3 = tab_move(env, st);
            let col = st.index % env.w;
            let col3 = s3.index % env.w;
            &&& s3.index / env.w == st.index / env.w
            &&& col <= col3 < env.w
            &&& is_tab_stop(env.tab, col3) || col3 == env.w - 1
            &&& forall|m: int| col < m < col3 ==> !#[trigger] is_tab_stop(env.tab, m)
            &&& col < env.w - 1 ==> col < col3
            &&& col3 > col ==> s3.out == st.out + seq!['\x1B', '['] + decimal(col3 - col) + seq!['C']
            &&& col3 == col ==> s3 == st
            &&& s3.cells == st.cells
        }),
{
    let w = env.w;
    let t = env.tab;
    let row = st.index / w;
    let col = st.index % w;
    vstd::arithmetic::div_mod::lemma_mod_bound(st.index, w);
    vstd::arithmetic::div_mod::lemma_div_pos_is_pos(st.index, w);
    vstd::arithmetic::div_mod::lemma_fundamental_div_mod(st.index, w);
    vstd::arithmetic::mul::lemma_mul_is_commutative(w, row);
    let prev = (col / t) * t;
    vstd::arithmetic::div_mod::lemma_fundamental_div_mod(col, t);
    vstd::arithmetic::div_mod::lemma_mod_bound(col, t);
    vstd::arithmetic::div_mod::lemma_div_pos_is_pos(col, t);
    vstd::arithmetic::mul::lemma_mul_is_commutative(t, col / t);
    let next = if prev + t > w - 1 { w - 1 } else { prev + t };
    assert(prev <= col < prev + t);
    assert(0 <= next < w);
    lemma_row_col(w, row, next);
    assert(st.index == row * w + col);
    let s3 = tab_move(env, st);
    if next > col {
        assert(s3.index == row * w + next);
        assert(s3.out =~= st.out + seq!['\x1B', '['] + decimal(next - col) + seq!['C']);
    } else {
        assert(s3 == st);
    }
    vstd::arithmetic::div_mod::lemma_mod_multiples_basic(col / t + 1, t);
    assert((col / t + 1) * t == prev + t) by (nonlinear_arith)
        requires
            prev == (col / t) * t,
    ;
    assert forall|m: int| col < m < next implies !#[trigger] is_tab_stop(t, m) by {
        vstd::arithmetic::div_mod::lemma_fundamental_div_mod(m, t);
        vstd::arithmetic::div_mod::lemma_mod_bound(m, t);
        if m % t == 0 {
            let q = m / t;
            assert(m == t * q);
            assert(false) by (nonlinear_arith)
                requires
                    m == t * q,
                    prev == (col / t) * t,
                    prev <= col < m < prev + t,
                    t >= 1,
            ;
        }
    }
}

/// Writing a lone wide character into the screen model fills two cells,
/// the character in the cursor's cell in the current style and its right
/// half in the next, and moves the cursor two cells right; besides the
/// cell before and the cell after those two (the other halves of wide
/// characters they cut), no cell changes.
#[verifier::spinoff_prover]
#[verifier::rlimit(40)]
pub proof fn law_wide_char_takes_two_cells(env: ParseEnv, gs: Seq<Seq<char>>, k: int, c: char, st: ParseState)
    requires
        0 <= k < gs.len(),
        gs[k] == seq![c],
        display_width(c) == Some(2usize),
        k + 1 == gs.len() || (gs[k + 1].len() > 0 && !is_modifier(gs[k + 1][0])),
        step(env, gs, k, st) is Some,
    ensures
        ({
            let (k2, s2) = step(env, gs, k, st)->0;
            let i = st.index;
            &&& k2 == k + 1
            &&& s2.index == i + 2
            &&& s2.cells.len() == st.cells.len()
            &&& s2.cells[i] == CellView::Double(c, env.style)
            &&& s2.cells[i + 1] == CellView::Link
            &&& forall|j: int| 0 <= j < st.cells.len() && (j < i - 1 || j > i + 2)
                ==> #[trigger] s2.cells[j] == st.cells[j]
        }),
{
    assert(gs[k][0] == c && gs[k].len() == 1);
    assert(!is_modifier('0'));
}

/// What drawing a rune shows: its characters, `tab` spaces for a tab.
pub open spec fn rune_shown(r: RuneView, tab: u8) -> Seq<char> {
    match r {
        RuneView::Single(ch) => if ch == '\t' { Seq::new(tab as nat, |i: int| ' ') } else { seq![ch] },
        RuneView::Double(ch) => seq![ch],
        RuneView::Null => Seq::empty(),
        RuneView::Compound(v) => v,
    }
}

/// Redrawing the cache draws each cell in its own style: after cell `n`
/// the terminal is in that cell's style; a cell in the style already set
/// adds only its text; a cell in the default style after another style
/// adds a reset and its text; and a cell in any other style whose
/// foreground, background or effects differ from the previous cell's sends
/// the sequence that sets each of them before its text.
#[verifier::spinoff_prover]
#[verifier::rlimit(40)]
pub proof fn law_cells_redraw_in_their_style(cells: Seq<Option<InfoView>>, n: int, tab: u8)
    requires
        0 <= n < cells.len(),
        cells[n] is Some,
    ensures
        ({
            let (before, prev) = flush_upto(cells, n, tab);
            let (after, next) = flush_upto(cells, n + 1, tab);
            let c = cells[n]->0;
            let shown = rune_shown(c.rune, tab);
            &&& next == c.style
            &&& c.style == prev ==> after == before + shown
            &&& (c.style != prev && c.style == default_style()) ==> after == before + "\x1B[0m"@ + shown
            &&& (c.style != default_style() && c.style.0 != prev.0) ==> exists|a: Seq<char>, b: Seq<char>|
                after == before + a + style_seq(Style::Fg(c.style.0)) + b + shown
            &&& (c.style != default_style() && c.style.1 != prev.1) ==> exists|a: Seq<char>, b: Seq<char>|
                after == before + a + style_seq(Style::Bg(c.style.1)) + b + shown
            &&& (c.style != default_style() && c.style.2 != prev.2) ==> exists|a: Seq<char>, b: Seq<char>|
                after == before + a + style_seq(Style::Fx(c.style.2)) + b + shown
        }),
{
    let (before, prev) = flush_upto(cells, n, tab);
    let (after, next) = flush_upto(cells, n + 1, tab);
    let c = cells[n]->0;
    let shown = rune_shown(c.rune, tab);
    let fg = if c.style.0 != prev.0 { style_seq(Style::Fg(c.style.0)) } else { Seq::empty() };
    let bg = if c.style.1 != prev.1 { style_seq(Style::Bg(c.style.1)) } else { Seq::empty() };
    let fx = if c.style.2 != prev.2 { style_seq(Style::Fx(c.style.2)) } else { Seq::empty() };
    if c.style == prev {
        assert(fg =~= Seq::<char>::empty());
        assert(bg =~= Seq::<char>::empty());
        assert(fx =~= Seq::<char>::empty());
        assert(after =~= before + shown);
    }
    if c.style != default_style() {
        assert(after =~= before + fg + bg + fx + shown);
        if c.style.0 != prev.0 {
            assert(after =~= before + Seq::<char>::empty() + style_seq(Style::Fg(c.style.0)) + (bg + fx) + shown);
        }
        if c.style.1 != prev.1 {
            assert(after =~= before + fg + style_seq(Style::Bg(c.style.1)) + fx + shown);
        }
        if c.style.2 != prev.2 {
            assert(after =~= before + (fg + bg) + style_seq(Style::Fx(c.style.2)) + Seq::<char>::empty() + shown);
        }
    }
}

/// Whether clearing with `c`, the cursor at cell `i` of a screen `w`
/// columns wide, empties cell `k`: every cell for `All`; the cursor's cell
/// and those after it in its row for `NewLn`; the cursor's whole row for
/// `CurrentLn`; every cell before the cursor for `CursorUp`; the cursor's
/// cell and every cell after it for `CursorDn`.
pub open spec fn clears(c: Clear, w: int, i: int, k: int) -> bool {
    match c {
        Clear::All => true,
        Clear::NewLn => i <= k && k / w == i / w,
        Clear::CurrentLn => k / w == i / w,
        Clear::CursorUp => k < i,
        Clear::CursorDn => i <= k,
    }
}

/// A cell lies in row `r` exactly when its index divided by the width is `r`.
proof fn lemma_in_row(w: int, r: int, k: int)
    requires
        w > 0,
        r >= 0,
        k >= 0,
    ensures
        (r * w <= k < (r + 1) * w) <==> k / w == r,
{
    vstd::arithmetic::div_mod::lemma_fundamental_div_mod(k, w);
    vstd::arithmetic::div_mod::lemma_mod_bound(k, w);
    let q = k / w;
    let m = k % w;
    assert(k == w * q + m);
    if r * w <= k < (r + 1) * w {
        assert(q == r) by (nonlinear_arith)
            requires
                k == w * q + m,
                0 <= m < w,
                r * w <= k < (r + 1) * w,
                w > 0,
        ;
    }
    if q == r {
        assert(r * w <= k < (r + 1) * w) by (nonlinear_arith)
            requires
                k == w * q + m,
                0 <= m < w,
                q == r,
        ;
    }
}

/// One cell of the screen lies in the range a clear empties exactly when
/// `clears` names it.
proof fn lemma_clear_one(c: Clear, w: int, h: int, i: int, k: int)
    requires
        w > 0,
        h > 0,
        0 <= i < w * h,
        0 <= k < w * h,
    ensures
        ({
            let (lo, hi) = clear_range(c, w, h, i % w, i / w);
            (lo <= k < hi) <==> clears(c, w, i, k)
        }),
{
    let col = i % w;
    let row = i / w;
    vstd::arithmetic::div_mod::lemma_fundamental_div_mod(i, w);
    vstd::arithmetic::div_mod::lemma_div_pos_is_pos(i, w);
    vstd::arithmetic::mul::lemma_mul_is_commutative(w, row);
    assert(i == row * w + col);
    assert((row + 1) * w == row * w + w) by (nonlinear_arith);
    match c {
        Clear::NewLn => {
            lemma_in_row(w, row, k);
        },
        Clear::CurrentLn => {
            lemma_in_row(w, row, k);
        },
        _ => {},
    }
}

/// The cells that a clear empties are those `clears` names, for every way
/// of clearing and every cursor cell of the screen; the other cells keep
/// what they held (as `Buffer::clear` and `CellInfoCache::_clear_buffer`
/// apply the range).
#[verifier::spinoff_prover]
pub proof fn law_clear_empties_what_it_names(c: Clear, w: int, h: int, i: int, cells: Seq<CellView>)
    requires
        w > 0,
        h > 0,
        0 <= i < w * h,
        cells.len() == w * h,
    ensures
        ({
            let (lo, hi) = clear_range(c, w, h, i % w, i / w);
            &&& forall|k: int| 0 <= k < w * h ==> ((lo <= k < hi) <==> #[trigger] clears(c, w, i, k))
            &&& forall|k: int| 0 <= k < w * h ==> #[trigger] nil_range(cells, lo, hi)[k] == (if clears(c, w, i, k) {
                CellView::Nil
            } else {
                cells[k]
            })
        }),
{
    let (lo, hi) = clear_range(c, w, h, i % w, i / w);
    assert forall|k: int| 0 <= k < w * h implies ((lo <= k < hi) <==> #[trigger] clears(c, w, i, k)) by {
        lemma_clear_one(c, w, h, i, k);
    }
    assert forall|k: int| 0 <= k < w * h implies #[trigger] nil_range(cells, lo, hi)[k] == (if clears(c, w, i, k) {
        CellView::Nil
    } else {
        cells[k]
    }) by {
        lemma_clear_one(c, w, h, i, k);
    }
}

} // verus!
