//! What holds across the operations of the library.

use vstd::prelude::*;
use crate::dispatch::{Cmd, Dispatch, Emitter, OutputView, find, handled, ids_unique, recipients, running};
use crate::store::buffer::{Buffer, CellView, cell_text, coord_of, cursor_fix, index_of, lemma_coord, lemma_cursor_fix, links_ok};
use crate::store::parse::{ZWJ, bump, seq_utf8_len, ParseEnv, ParseState, run, step, write_one, write_wide, patch, settle, tab_move, line_feed, carriage_return, new_line, multi_text, group_end, clip, width_sum, is_modifier};
use crate::unicode::display_width;
use crate::enums::{Color, InputEvent, KeyEvent, MouseButton, MouseEvent, StoreEvent};
use crate::cache::{InfoView, RuneView, default_style, flush_upto};
use crate::input::bytes::{all_digits, digits_value, parse_int, split_fields};
use crate::input::unix::{first_final, first_mouse_end, spec_parse_event};
use crate::text::{decimal_nat, digit_char};
use crate::wincon::{MOUSE_MODE, QUICK_EDIT, bg_attributes, fg_attributes};
use crate::wincon::{BG_BLUE, BG_GREEN, BG_INTENSE, BG_RED, FG_BLUE, FG_GREEN, FG_INTENSE, FG_RED};

verus! {

/// A cell index turned into its (column, row) and back is the same index.
pub proof fn law_index_of_coord(w: int, h: int, i: int)
    requires
        w > 0,
        h > 0,
        0 <= i < w * h,
    ensures
        index_of(w, coord_of(w, i).0, coord_of(w, i).1) == i,
        0 <= coord_of(w, i).0 < w,
        0 <= coord_of(w, i).1 < h,
{
    lemma_coord(w, h, i);
}

/// A (column, row) on the screen turned into a cell index and back is the
/// same (column, row).
pub proof fn law_coord_of_index(w: int, col: int, row: int)
    requires
        w > 0,
        0 <= col < w,
        0 <= row,
    ensures
        coord_of(w, index_of(w, col, row)) == (col, row),
{
    vstd::arithmetic::div_mod::lemma_fundamental_div_mod_converse(row * w + col, w, row, col);
}

/// Jumping to the saved position twice comes back: the cursor and the saved
/// position are where they were, when both rest on a cell that is not the
/// right half of a wide character.
pub proof fn law_jump_twice(cells: Seq<CellView>, cap: int, index: int, saved: int)
    requires
        cells.len() == cap,
        cap >= 1,
        links_ok(cells),
        0 <= index < cap,
        0 <= saved < cap,
        !(cells[index] is Link),
        !(cells[saved] is Link),
    ensures
        ({
            let (c1, i1) = cursor_fix(cells, cap, index);
            let (c2, i2) = cursor_fix(c1, cap, saved);
            let (c3, i3) = cursor_fix(c2, cap, i2);
            let (c4, i4) = cursor_fix(c3, cap, i1);
            &&& c4 == cells
            &&& i2 == saved
            &&& i1 == index
            &&& i4 == index
            &&& i3 == saved
        }),
{
}

/// While a handle holds the input lock, the input goes to it alone: after
/// `Lock(id)` with the lock free, every input event is routed to `id`, as
/// long as the handle is still running.
pub proof fn law_lock_routes_to_owner(d0: Dispatch, d1: Dispatch, id: usize, outs: Seq<OutputView>)
    requires
        d0.wf(),
        d0.lock_owner == 0,
        id != 0,
        find(running(d0.emitters@), id) is Some,
        handled(d0, d1, Cmd::Lock(id), outs),
    ensures
        d1.lock_owner == id,
        recipients(running(d1.emitters@), d1.lock_owner) == seq![id],
{
}

/// Bits within the low four stay there when combined.
proof fn lemma_or_low(a: u16, b: u16)
    requires
        a <= 0x000f,
        b <= 0x000f,
    ensures
        (a | b) <= 0x000f,
{
    assert((a | b) <= 0x000f) by (bit_vector)
        requires
            a <= 0x000f,
            b <= 0x000f,
    ;
}

/// Bits within the background nibble stay there when combined.
proof fn lemma_or_bg(a: u16, b: u16)
    requires
        a & 0xff0f == 0,
        b & 0xff0f == 0,
    ensures
        (a | b) & 0xff0f == 0,
{
    assert((a | b) & 0xff0f == 0) by (bit_vector)
        requires
            a & 0xff0f == 0,
            b & 0xff0f == 0,
    ;
}

/// A foreground color's bits are within the low four, or a marker.
proof fn lemma_fg_bits_small(c: crate::enums::Color)
    ensures
        crate::wincon::fg_bits(c) <= 0x000f || crate::wincon::fg_bits(c) == crate::wincon::RESET
            || crate::wincon::fg_bits(c) == crate::wincon::IGNORE,
{
    lemma_or_low(FG_RED, FG_INTENSE);
    lemma_or_low(FG_GREEN, FG_INTENSE);
    lemma_or_low(FG_RED, FG_GREEN);
    lemma_or_low(FG_RED | FG_GREEN, FG_INTENSE);
    lemma_or_low(FG_BLUE, FG_INTENSE);
    lemma_or_low(FG_RED, FG_BLUE);
    lemma_or_low(FG_RED | FG_BLUE, FG_INTENSE);
    lemma_or_low(FG_GREEN, FG_BLUE);
    lemma_or_low(FG_GREEN | FG_BLUE, FG_INTENSE);
    lemma_or_low(FG_RED | FG_GREEN, FG_BLUE);
    lemma_or_low(FG_RED | FG_GREEN | FG_BLUE, FG_INTENSE);
}

/// A background color's bits are within the background nibble, or a
/// marker.
proof fn lemma_bg_bits_clear(c: crate::enums::Color)
    ensures
        crate::wincon::bg_bits(c) & 0xff0f == 0 || crate::wincon::bg_bits(c) == crate::wincon::RESET
            || crate::wincon::bg_bits(c) == crate::wincon::IGNORE,
{
    assert(BG_BLUE & 0xff0f == 0 && BG_GREEN & 0xff0f == 0 && BG_RED & 0xff0f == 0 && BG_INTENSE & 0xff0f == 0
        && 0u16 & 0xff0f == 0) by (bit_vector);
    lemma_or_bg(BG_RED, BG_INTENSE);
    lemma_or_bg(BG_GREEN, BG_INTENSE);
    lemma_or_bg(BG_RED, BG_GREEN);
    lemma_or_bg(BG_RED | BG_GREEN, BG_INTENSE);
    lemma_or_bg(BG_BLUE, BG_INTENSE);
    lemma_or_bg(BG_RED, BG_BLUE);
    lemma_or_bg(BG_RED | BG_BLUE, BG_INTENSE);
    lemma_or_bg(BG_GREEN, BG_BLUE);
    lemma_or_bg(BG_GREEN | BG_BLUE, BG_INTENSE);
    lemma_or_bg(BG_RED | BG_GREEN, BG_BLUE);
    lemma_or_bg(BG_RED | BG_GREEN | BG_BLUE, BG_INTENSE);
}

/// Setting the foreground color of a console keeps the background and the
/// effects: colors do not mix.
pub proof fn law_fg_keeps_the_rest(c: crate::enums::Color, current: u16, reset: u16)
    ensures
        fg_attributes(c, current, reset) & 0xfff0 == current & 0xfff0,
        fg_attributes(c, current, reset) & 0x000f == (if crate::wincon::fg_bits(c) == crate::wincon::RESET {
            reset & 0x000f
        } else if crate::wincon::fg_bits(c) == crate::wincon::IGNORE {
            current & 0x000f
        } else {
            crate::wincon::fg_bits(c)
        }),
{
    let a = crate::wincon::fg_bits(c);
    let b = if a == crate::wincon::RESET { reset & 0x000f } else if a == crate::wincon::IGNORE {
        current & 0x000f
    } else {
        a
    };
    assert(b <= 0x000f) by {
        lemma_fg_bits_small(c);
        assert((reset & 0x000f) <= 0x000f) by (bit_vector);
        assert((current & 0x000f) <= 0x000f) by (bit_vector);
    }
    assert((b | (current & !0x000fu16)) & 0xfff0 == current & 0xfff0) by (bit_vector)
        requires
            b <= 0x000f,
    ;
    assert((b | (current & !0x000fu16)) & 0x000f == b) by (bit_vector)
        requires
            b <= 0x000f,
    ;
}

/// Setting the background color of a console keeps the foreground and the
/// effects.
pub proof fn law_bg_keeps_the_rest(c: crate::enums::Color, current: u16, reset: u16)
    ensures
        bg_attributes(c, current, reset) & 0xff0f == current & 0xff0f,
{
    let a = crate::wincon::bg_bits(c);
    let b = if a == crate::wincon::RESET { reset & 0x00f0 } else if a == crate::wincon::IGNORE {
        current & 0x00f0
    } else {
        a
    };
    assert(b & 0xff0f == 0) by {
        lemma_bg_bits_clear(c);
        assert((reset & 0x00f0) & 0xff0f == 0) by (bit_vector);
        assert((current & 0x00f0) & 0xff0f == 0) by (bit_vector);
    }
    assert((b | (current & !0x00f0u16)) & 0xff0f == current & 0xff0f) by (bit_vector)
        requires
            b & 0xff0f == 0,
    ;
}

/// Turning mouse reporting on and then off gives the mode with the mouse
/// modes cleared and quick edit set, whatever the mode was.
pub proof fn law_mouse_mode_round_trip(mode: u32)
    ensures
        (((mode | MOUSE_MODE) & !QUICK_EDIT) & !MOUSE_MODE) | QUICK_EDIT == (mode & !MOUSE_MODE) | QUICK_EDIT,
        ((mode | MOUSE_MODE) & !QUICK_EDIT) & MOUSE_MODE == MOUSE_MODE,
{
    assert((((mode | MOUSE_MODE) & !QUICK_EDIT) & !MOUSE_MODE) | QUICK_EDIT == (mode & !MOUSE_MODE) | QUICK_EDIT)
        by (bit_vector);
    assert(((mode | MOUSE_MODE) & !QUICK_EDIT) & MOUSE_MODE == MOUSE_MODE) by (bit_vector);
}

/// With the input lock free, the dispatcher sends each input event to
/// every listening handle: every running handle that is not suspended is
/// among the recipients, and no other handle is.
pub proof fn law_input_reaches_every_listener(es: Seq<crate::dispatch::Emitter>, id: usize)
    ensures
        recipients(es, 0).contains(id) <==> exists|i: int|
            0 <= i < es.len() && es[i].id == id && !es[i].is_suspend,
{
    let kept = es.filter(|e: crate::dispatch::Emitter| !e.is_suspend);
    let ids = kept.map_values(|e: crate::dispatch::Emitter| e.id);
    broadcast use vstd::seq_lib::group_filter_ensures;
    if exists|i: int| 0 <= i < es.len() && es[i].id == id && !es[i].is_suspend {
        let i = choose|i: int| 0 <= i < es.len() && es[i].id == id && !es[i].is_suspend;
        assert(kept.contains(es[i]));
        let j = choose|j: int| 0 <= j < kept.len() && kept[j] == es[i];
        assert(ids[j] == id);
    }
    if recipients(es, 0).contains(id) {
        let j = choose|j: int| 0 <= j < ids.len() && ids[j] == id;
        assert(!kept[j].is_suspend);
        lemma_kept_from(es, j);
    }
}

/// Each handle that is not suspended comes from the handles.
proof fn lemma_kept_from(es: Seq<crate::dispatch::Emitter>, k: int)
    requires
        0 <= k < es.filter(|e: crate::dispatch::Emitter| !e.is_suspend).len(),
    ensures
        exists|m: int| 0 <= m < es.len() && es[m] == es.filter(|e: crate::dispatch::Emitter| !e.is_suspend)[k],
    decreases es.len(),
{
    reveal(Seq::filter);
    let rest = es.drop_last();
    let fr = rest.filter(|e: crate::dispatch::Emitter| !e.is_suspend);
    if !es.last().is_suspend && k == fr.len() {
        assert(es[es.len() - 1] == es.last());
    } else {
        lemma_kept_from(rest, k);
        let m = choose|m: int| 0 <= m < rest.len() && rest[m] == fr[k];
        assert(es[m] == rest[m]);
    }
}

/// The text, each character a cluster of its own.
pub open spec fn clusters(t: Seq<char>) -> Seq<Seq<char>> {
    t.map_values(|c: char| seq![c])
}

/// Every character of the text is one column wide.
pub open spec fn narrow_text(t: Seq<char>) -> bool {
    forall|j: int| 0 <= j < t.len() ==> #[trigger] display_width(t[j]) == Some(1usize)
}

/// The cell that a one-column character is written as.
pub open spec fn narrow_cell(c: char, style: (Color, Color, u32)) -> CellView {
    if c == ' ' { CellView::Nil } else { CellView::Single(c, style) }
}

/// A cell that holds a character two or more columns wide.
pub open spec fn is_wide(c: CellView) -> bool {
    c is Double || c is Multi
}

/// The cell at `p` as a write of narrow text that starts at `i0` finds it:
/// writing over a wide cell empties the cell to its right.
pub open spec fn met(cells: Seq<CellView>, i0: int, p: int) -> CellView
    decreases p - i0,
{
    if p <= i0 {
        cells[p]
    } else if is_wide(met(cells, i0, p - 1)) {
        CellView::Nil
    } else {
        cells[p]
    }
}

/// Writing narrow text from `i0` on stays within the cells: it fits, a wide
/// cell it meets has a cell to its right, and where it meets the right half
/// of a wide character whose left half it has just written, that was a
/// space (an empty cell, which emptying keeps).
pub open spec fn read_back_ok(cells: Seq<CellView>, i0: int, t: Seq<char>) -> bool {
    &&& i0 + t.len() <= cells.len()
    &&& forall|p: int| i0 <= p < i0 + t.len() ==> {
        &&& (is_wide(#[trigger] met(cells, i0, p)) ==> p + 1 < cells.len())
        &&& (met(cells, i0, p) is Link && p > i0 ==> t[p - 1 - i0] == ' ')
    }
}

/// One narrow character after another, from cluster `k` on.
proof fn lemma_run_narrow(env: ParseEnv, t: Seq<char>, k: int, st: ParseState, cells0: Seq<CellView>, i0: int)
    requires
        0 <= k <= t.len(),
        i0 >= 0,
        st.index == i0 + k,
        st.freeze >= 0,
        st.cells.len() == cells0.len(),
        links_ok(st.cells),
        narrow_text(t),
        read_back_ok(cells0, i0, t),
        forall|q: int| i0 <= q < st.index ==> #[trigger] st.cells[q] == narrow_cell(t[q - i0], env.style),
        st.index < i0 + t.len() ==> st.cells[st.index] == met(cells0, i0, st.index),
        forall|q: int| st.index < q < i0 + t.len() ==> #[trigger] st.cells[q] == cells0[q],
    ensures
        run(env, clusters(t), k, st) matches Some(s2) && {
            &&& s2.cells.len() == cells0.len()
            &&& links_ok(s2.cells)
            &&& s2.freeze >= 0
            &&& s2.index >= 0
            &&& forall|q: int| i0 <= q < i0 + t.len() ==> #[trigger] s2.cells[q] == narrow_cell(t[q - i0], env.style)
        },
    decreases t.len() - k,
{
    let gs = clusters(t);
    if k >= t.len() {
        return;
    }
    let p = st.index;
    let car = t[k];
    assert(gs[k] == seq![car]);
    assert(display_width(t[k]) == Some(1usize));
    let cell = narrow_cell(car, env.style);
    let cur = st.cells[p];
    assert(met(cells0, i0, p) == cur);
    assert(is_wide(met(cells0, i0, p)) ==> p + 1 < cells0.len());
    assert(met(cells0, i0, p) is Link && p > i0 ==> t[p - 1 - i0] == ' ');
    let out1 = st.out.push(car);
    let cut1 = crate::store::parse::bump(st.cut, crate::unicode::utf8_len(car) as int);
    let pend1 = st.pending + 1;
    let pr = patch(st.cells, out1, pend1, cut1, env.w, p, cell);
    assert(pr is Some) by {
        if cur is Link {
            assert(p != 0);
        }
    }
    let (c1, o1, r1) = pr->0;
    let s1 = settle(c1, o1, r1, p + 1, cut1, pend1, st.freeze);
    assert(write_one(env, st, car, cell) == Some(s1));
    assert(step(env, gs, k, st) == Some((k + 1, s1)));
    assert(c1.len() == st.cells.len());
    assert(c1[p] == cell);
    assert forall|q: int| i0 <= q < s1.index implies #[trigger] s1.cells[q] == narrow_cell(t[q - i0], env.style) by {
        if q < p {
            if cur is Link && q == p - 1 && cur != cell {
                assert(t[p - 1 - i0] == ' ');
            }
        }
    }
    if p + 1 < i0 + t.len() {
        assert(met(cells0, i0, p + 1) == (if is_wide(cur) { CellView::Nil } else { cells0[p + 1] }));
        assert(s1.cells[s1.index] == met(cells0, i0, s1.index));
    }
    assert forall|q: int| s1.index < q < i0 + t.len() implies #[trigger] s1.cells[q] == cells0[q] by {
        assert(st.cells[q] == cells0[q]);
    }
    assert(links_ok(s1.cells)) by {
        if c1.len() > 0 && p != 0 {
            assert(c1[0] == st.cells[0] || c1[0] == CellView::Nil);
        }
    }
    lemma_run_narrow(env, t, k + 1, s1, cells0, i0);
    if k + 1 >= t.len() {
        assert(run(env, gs, k, st) == Some(s1));
    } else {
        assert(run(env, gs, k, st) == run(env, gs, k + 1, s1));
    }
}

/// What is written can be read back: writing text of one-column characters
/// (each a cluster of its own) where the cursor settles, then settling the
/// cursor on any of the cells written and reading it (`goto_index`,
/// `getch`), gives that character — wherever the text stays within the
/// cells and keeps what it wrote (`read_back_ok`).
pub proof fn law_read_back(b: Buffer, t: Seq<char>)
    requires
        b.wf(),
        narrow_text(t),
        read_back_ok(b.cells_view(), cursor_fix(b.cells_view(), b.width * b.height, b.index as int).1, t),
    ensures
        ({
            let cap = b.width * b.height;
            let i0 = cursor_fix(b.cells_view(), cap, b.index as int).1;
            b.parsed(clusters(t)) matches Some((c2, _, _)) && forall|k: int| 0 <= k < t.len() ==> {
                &&& cursor_fix(c2, cap, i0 + k) == (c2, i0 + k)
                &&& cell_text(#[trigger] c2[i0 + k]) == seq![t[k]]
                &&& c2[i0 + k] == narrow_cell(t[k], b.style)
            }
        }),
{
    let env = b.env();
    let cells = b.cells_view();
    let cap = b.width * b.height;
    assert(cap >= 1) by (nonlinear_arith)
        requires
            b.width >= 1,
            b.height >= 1,
            cap == b.width * b.height,
    ;
    lemma_cursor_fix(cells, cap, b.index as int);
    let i0 = cursor_fix(cells, cap, b.index as int).1;
    let st0 = ParseState { cells, out: b.strbuf@, index: i0, cut: 0, pending: 0, freeze: i0 };
    if t.len() > 0 {
        assert(met(cells, i0, i0) == cells[i0]);
    }
    lemma_run_narrow(env, t, 0, st0, cells, i0);
    let st = run(env, clusters(t), 0, st0)->0;
    let i = if st.cut > 0 { st.freeze } else { st.index };
    lemma_cursor_fix(st.cells, cap, i);
    assert forall|k: int| 0 <= k < t.len() implies {
        &&& cursor_fix(st.cells, cap, i0 + k) == (st.cells, i0 + k)
        &&& cell_text(#[trigger] st.cells[i0 + k]) == seq![t[k]]
        &&& st.cells[i0 + k] == narrow_cell(t[k], env.style)
    } by {
        assert(st.cells[i0 + k] == narrow_cell(t[k], env.style));
    }
}

/// Suspending a handle and then letting it receive again gives back the
/// handles as they were, where it was receiving; the screens and the lock
/// are untouched throughout.
pub proof fn law_suspend_then_transmit(
    d0: Dispatch,
    d1: Dispatch,
    d2: Dispatch,
    id: usize,
    outs1: Seq<OutputView>,
    outs2: Seq<OutputView>,
)
    requires
        d0.wf(),
        handled(d0, d1, Cmd::Suspend(id), outs1),
        handled(d1, d2, Cmd::Transmit(id), outs2),
        find(d0.emitters@, id) matches Some(i) ==> !d0.emitters@[i].is_suspend,
    ensures
        d2.emitters@ == d0.emitters@,
        d2.store == d0.store,
        d2.lock_owner == d0.lock_owner,
        outs1.len() == 0 && outs2.len() == 0,
{
    let es = d0.emitters@;
    match find(es, id) {
        Some(i) => {
            let es1 = d1.emitters@;
            assert(es1[i].id == id);
            assert(find(es1, id) is Some);
            let j = find(es1, id)->0;
            assert(es1[j].id == id);
            assert(es1.len() == es.len());
            assert(j == i) by {
                if j != i {
                    assert(es[j].id == es1[j].id);
                }
            }
            assert(d2.emitters@ =~= es);
        },
        None => {
            assert(d1.emitters@ == es);
        },
    }
}

/// Narrow characters written over cells that already hold them, from
/// cluster `k` on: nothing changes, the characters stay pending.
proof fn lemma_run_unchanged(env: ParseEnv, t: Seq<char>, k: int, st: ParseState, out0: Seq<char>, i0: int)
    requires
        0 <= k <= t.len(),
        i0 >= 0,
        st.index == i0 + k,
        i0 + t.len() <= st.cells.len(),
        narrow_text(t),
        forall|q: int| 0 <= q < t.len() ==> #[trigger] st.cells[i0 + q] == narrow_cell(t[q], env.style),
        st.out == out0 + t.take(k),
        st.pending == k,
        st.cut >= 0,
        k > 0 ==> st.cut > 0,
        st.freeze >= 0,
    ensures
        run(env, clusters(t), k, st) matches Some(s2) && {
            &&& s2.cells == st.cells
            &&& s2.out == out0 + t
            &&& s2.pending == t.len()
            &&& (t.len() > 0 ==> s2.cut > 0)
            &&& s2.freeze == st.freeze
            &&& s2.index == i0 + t.len()
        },
    decreases t.len() - k,
{
    let gs = clusters(t);
    if k >= t.len() {
        assert(t.take(k) =~= t);
        return;
    }
    let p = st.index;
    let car = t[k];
    assert(gs[k] == seq![car]);
    assert(display_width(t[k]) == Some(1usize));
    let cell = narrow_cell(car, env.style);
    assert(st.cells[i0 + k] == cell);
    let out1 = st.out.push(car);
    let cut1 = crate::store::parse::bump(st.cut, crate::unicode::utf8_len(car) as int);
    let pend1 = st.pending + 1;
    assert(patch(st.cells, out1, pend1, cut1, env.w, p, cell) == Some((st.cells, out1, false)));
    let s1 = settle(st.cells, out1, false, p + 1, cut1, pend1, st.freeze);
    assert(write_one(env, st, car, cell) == Some(s1));
    assert(step(env, gs, k, st) == Some((k + 1, s1)));
    assert(out1 =~= out0 + t.take(k + 1));
    lemma_run_unchanged(env, t, k + 1, s1, out0, i0);
    if k + 1 >= t.len() {
        assert(run(env, gs, k, st) == Some(s1));
    } else {
        assert(run(env, gs, k, st) == run(env, gs, k + 1, s1));
    }
}

/// Text that the screen already shows is not sent again: writing
/// one-column characters (each a cluster of its own) over cells that
/// already hold them changes no cell, adds nothing to the output and
/// leaves the cursor on the cell where the write started.
pub proof fn law_rewrite_sends_nothing(b: Buffer, t: Seq<char>)
    requires
        b.wf(),
        narrow_text(t),
        ({
            let i0 = cursor_fix(b.cells_view(), b.width * b.height, b.index as int).1;
            &&& i0 + t.len() <= b.cells_view().len()
            &&& forall|k: int| 0 <= k < t.len() ==> #[trigger] b.cells_view()[i0 + k] == narrow_cell(t[k], b.style)
        }),
    ensures
        b.parsed(clusters(t)) matches Some((c2, o, i)) && c2 == b.cells_view() && o == b.strbuf@
            && (t.len() > 0 ==> i == cursor_fix(b.cells_view(), b.width * b.height, b.index as int).1),
{
    let env = b.env();
    let cells = b.cells_view();
    let cap = b.width * b.height;
    assert(cap >= 1) by (nonlinear_arith)
        requires
            b.width >= 1,
            b.height >= 1,
            cap == b.width * b.height,
    ;
    lemma_cursor_fix(cells, cap, b.index as int);
    let i0 = cursor_fix(cells, cap, b.index as int).1;
    let out0 = b.strbuf@;
    let st0 = ParseState { cells, out: out0, index: i0, cut: 0, pending: 0, freeze: i0 };
    assert(out0 + t.take(0) =~= out0);
    lemma_run_unchanged(env, t, 0, st0, out0, i0);
    let st = run(env, clusters(t), 0, st0)->0;
    let i = if st.cut > 0 { st.freeze } else { st.index };
    lemma_cursor_fix(st.cells, cap, i);
    if st.cut > 0 {
        assert(st.out.take(st.out.len() - st.pending) =~= out0);
        assert(cells[i0 + 0] == narrow_cell(t[0], b.style));
        assert(!(st.cells[i0] is Link));
    } else {
        assert(t.len() == 0);
        assert(st.out =~= out0);
    }
}

/// The bytes of the decimal numeral of `n`.
pub open spec fn numeral_bytes(n: nat) -> Seq<u8> {
    decimal_nat(n).map_values(|c: char| c as u8)
}

/// The numeral of `n` is a nonempty run of digits worth `n`.
proof fn lemma_numeral(n: nat)
    ensures
        numeral_bytes(n).len() >= 1,
        all_digits(numeral_bytes(n)),
        digits_value(numeral_bytes(n)) == n,
    decreases n,
{
    if n >= 10 {
        lemma_numeral(n / 10);
        let prev = numeral_bytes(n / 10);
        let d = digit_char(n % 10);
        assert(d as u8 == n % 10 + 48);
        assert(numeral_bytes(n) =~= prev.push(d as u8));
        assert(numeral_bytes(n).drop_last() =~= prev);
        assert(numeral_bytes(n).last() == n % 10 + 48);
        assert(all_digits(numeral_bytes(n))) by {
            assert forall|i: int| 0 <= i < numeral_bytes(n).len() implies 48 <= #[trigger] numeral_bytes(n)[i] <= 57 by {
                if i < prev.len() {
                    assert(numeral_bytes(n)[i] == prev[i]);
                }
            }
        }
        assert(n == (n / 10) * 10 + n % 10);
        assert(digits_value(numeral_bytes(n)) == digits_value(prev) * 10 + (n % 10) as nat);
    } else {
        let d = digit_char(n);
        assert(d as u8 == n + 48);
        assert(numeral_bytes(n) =~= seq![d as u8]);
        assert(numeral_bytes(n).drop_last() =~= Seq::<u8>::empty());
        assert(numeral_bytes(n).last() == n + 48);
        assert(digits_value(Seq::<u8>::empty()) == 0);
        assert(digits_value(numeral_bytes(n)) == 0 * 10 + n);
    }
}

/// A numeral the library writes reads back as its number: `str::parse`
/// of the digits of `n` gives `n`, for any integer type that holds it.
pub proof fn law_numeral_reads_back(n: nat, signed: bool, lo: int, hi: int)
    requires
        lo <= n <= hi,
    ensures
        parse_int(numeral_bytes(n), signed, lo, hi) == Some(n as int),
{
    lemma_numeral(n);
    let s = numeral_bytes(n);
    assert(48 <= s[0] <= 57);
}

/// Text without `;` is one field.
proof fn lemma_one_field(a: Seq<u8>)
    requires
        forall|i: int| 0 <= i < a.len() ==> a[i] != 59u8,
    ensures
        split_fields(a) == seq![a],
    decreases a.len(),
{
    if a.len() > 0 {
        assert forall|i: int| 0 <= i < a.drop_last().len() implies a.drop_last()[i] != 59u8 by {
            assert(a.drop_last()[i] == a[i]);
        }
        lemma_one_field(a.drop_last());
        assert(a[a.len() - 1] != 59u8);
        assert(a.drop_last().push(a.last()) =~= a);
        assert(split_fields(a) =~= seq![a]);
    } else {
        assert(a =~= Seq::<u8>::empty());
    }
}

/// Text without `;` added at the end goes into the last field.
proof fn lemma_fields_append(x: Seq<u8>, b: Seq<u8>)
    requires
        forall|i: int| 0 <= i < b.len() ==> b[i] != 59u8,
    ensures
        split_fields(x + b) == split_fields(x).update(
            split_fields(x).len() - 1,
            split_fields(x).last() + b,
        ),
    decreases b.len(),
{
    crate::input::bytes::lemma_split_fields_nonempty(x);
    if b.len() == 0 {
        assert(x + b =~= x);
        assert(split_fields(x).last() + b =~= split_fields(x).last());
        assert(split_fields(x).update(split_fields(x).len() - 1, split_fields(x).last())
            =~= split_fields(x));
    } else {
        let b0 = b.drop_last();
        lemma_fields_append(x, b0);
        assert((x + b).drop_last() =~= x + b0);
        assert((x + b).last() == b.last());
        crate::input::bytes::lemma_split_fields_nonempty(x + b0);
        assert(split_fields(x).last() + b0 + seq![b.last()] =~= split_fields(x).last() + b);
        assert((split_fields(x).last() + b0).push(b.last()) =~= split_fields(x).last() + b);
        assert(split_fields(x + b) =~= split_fields(x).update(
            split_fields(x).len() - 1,
            split_fields(x).last() + b,
        ));
    }
}

/// The first final byte from `i` on is at `j` when none comes before it.
proof fn lemma_first_final_at(r: Seq<u8>, i: int, j: int)
    requires
        0 <= i <= j < r.len(),
        64 <= r[j] <= 126,
        forall|k: int| i <= k < j ==> !(64 <= #[trigger] r[k] <= 126),
    ensures
        first_final(r, i) == j,
    decreases j - i,
{
    if i < j {
        lemma_first_final_at(r, i + 1, j);
    }
}

/// The report `ESC [ row ; col R` that a terminal sends for the cursor at
/// the 0-based (col, row): the numbers are counted from 1.
pub open spec fn position_report(col: nat, row: nat) -> Seq<u8> {
    seq![0x1Bu8, 91u8] + numeral_bytes(row + 1) + seq![59u8] + numeral_bytes(col + 1) + seq![82u8]
}

/// A cursor report reads back as the position it reports: the input
/// parser turns the report of (col, row) into that position.
pub proof fn law_report_reads_back(col: nat, row: nat)
    requires
        col < i16::MAX,
        row < i16::MAX,
    ensures
        spec_parse_event(0x1Bu8, position_report(col, row).drop_first())
            == Some(InputEvent::Dispatch(StoreEvent::Pos(col as i16, row as i16))),
{
    let a = numeral_bytes(row + 1);
    let b = numeral_bytes(col + 1);
    lemma_numeral(row + 1);
    lemma_numeral(col + 1);
    let rest = position_report(col, row).drop_first();
    let r = rest.drop_first();
    assert(r =~= a + seq![59u8] + b + seq![82u8]);
    let j: int = a.len() as int + 1 + b.len() as int;
    assert(r[0] == a[0]);
    assert(48 <= a[0] <= 57);
    assert forall|k: int| 1 <= k < j implies !(64 <= #[trigger] r[k] <= 126) by {
        if k < a.len() {
            assert(r[k] == a[k]);
        } else if k == a.len() {
            assert(r[k] == 59u8);
        } else {
            assert(r[k] == b[k - a.len() - 1]);
        }
    }
    lemma_first_final_at(r, 1, j);
    let buf = r.take(j);
    assert(buf =~= (a + seq![59u8]) + b);
    assert forall|i: int| 0 <= i < a.len() implies a[i] != 59u8 by {}
    assert forall|i: int| 0 <= i < b.len() implies b[i] != 59u8 by {}
    lemma_one_field(a);
    assert(split_fields(a + seq![59u8]) == split_fields(a).push(Seq::<u8>::empty())) by {
        assert((a + seq![59u8]).drop_last() =~= a);
    }
    lemma_fields_append(a + seq![59u8], b);
    assert(Seq::<u8>::empty() + b =~= b);
    let fields = split_fields(buf);
    assert(fields =~= seq![a, b]);
    law_numeral_reads_back(row + 1, true, i16::MIN as int, i16::MAX as int);
    law_numeral_reads_back(col + 1, true, i16::MIN as int, i16::MAX as int);
    assert(crate::input::unix::all_fields_parse(fields, true, i16::MIN as int, i16::MAX as int));
}

/// The button number of the SGR mouse encoding (xterm): 0, 1 and 2 for
/// the left, middle and right buttons, 64 and 65 for the wheel turned up
/// and down.
pub open spec fn sgr_button_code(b: MouseButton) -> nat {
    match b {
        MouseButton::Left => 0,
        MouseButton::Middle => 1,
        MouseButton::Right => 2,
        MouseButton::WheelUp => 64,
        MouseButton::WheelDown => 65,
    }
}

/// The SGR mouse report `ESC [ < code ; col ; row M` (a press) or `m` (a
/// release) that a terminal sends for the 0-based (col, row): the
/// coordinates are counted from 1.
pub open spec fn sgr_report(code: nat, col: nat, row: nat, press: bool) -> Seq<u8> {
    seq![0x1Bu8, 91u8, 60u8] + numeral_bytes(code) + seq![59u8] + numeral_bytes(col + 1) + seq![59u8]
        + numeral_bytes(row + 1) + seq![if press { 77u8 } else { 109u8 }]
}

/// Bytes below 0x80 are valid UTF-8.
proof fn lemma_ascii_valid_utf8(s: Seq<u8>)
    requires
        forall|i: int| 0 <= i < s.len() ==> s[i] < 128,
    ensures
        vstd::utf8::valid_utf8(s),
    decreases s.len(),
{
    if s.len() > 0 {
        let t = s.subrange(1, s.len() as int);
        assert forall|i: int| 0 <= i < t.len() implies t[i] < 128 by {
            assert(t[i] == s[i + 1]);
        }
        lemma_ascii_valid_utf8(t);
        assert(vstd::utf8::valid_first_scalar(s));
        assert(vstd::utf8::pop_first_scalar(s) =~= t);
    }
}

/// The first `m` or `M` from `i` on is at `j` when none comes before it.
proof fn lemma_first_mouse_end_at(r: Seq<u8>, i: int, j: int)
    requires
        0 <= i <= j < r.len(),
        r[j] == 77u8 || r[j] == 109u8,
        forall|k: int| i <= k < j ==> #[trigger] r[k] != 77u8 && r[k] != 109u8,
    ensures
        first_mouse_end(r, i) == j,
    decreases j - i,
{
    if i < j {
        lemma_first_mouse_end_at(r, i + 1, j);
    }
}

/// Three numerals joined by `;` are three fields.
proof fn lemma_three_fields(a: Seq<u8>, b: Seq<u8>, c: Seq<u8>)
    requires
        all_digits(a),
        all_digits(b),
        all_digits(c),
    ensures
        split_fields(a + seq![59u8] + b + seq![59u8] + c) == seq![a, b, c],
{
    assert forall|i: int| 0 <= i < a.len() implies a[i] != 59u8 by {}
    assert forall|i: int| 0 <= i < b.len() implies b[i] != 59u8 by {}
    assert forall|i: int| 0 <= i < c.len() implies c[i] != 59u8 by {}
    lemma_one_field(a);
    assert(split_fields(a + seq![59u8]) == split_fields(a).push(Seq::<u8>::empty())) by {
        assert((a + seq![59u8]).drop_last() =~= a);
    }
    lemma_fields_append(a + seq![59u8], b);
    assert(Seq::<u8>::empty() + b =~= b);
    let ab = a + seq![59u8] + b;
    assert(split_fields(ab) =~= seq![a, b]);
    assert(split_fields(ab + seq![59u8]) == split_fields(ab).push(Seq::<u8>::empty())) by {
        assert((ab + seq![59u8]).drop_last() =~= ab);
    }
    lemma_fields_append(ab + seq![59u8], c);
    assert(Seq::<u8>::empty() + c =~= c);
    assert(ab + seq![59u8] + c =~= a + seq![59u8] + b + seq![59u8] + c);
    assert(split_fields(a + seq![59u8] + b + seq![59u8] + c) =~= seq![a, b, c]);
}

/// An SGR mouse report reads back as the mouse event it reports: a press
/// of the button whose xterm number it carries (64 is the wheel turned up,
/// 65 turned down), or a release, at the reported position.
#[verifier::spinoff_prover]
#[verifier::rlimit(40)]
pub proof fn law_sgr_mouse_reads_back(b: MouseButton, col: nat, row: nat, press: bool)
    requires
        col < i16::MAX,
        row < i16::MAX,
    ensures
        spec_parse_event(0x1Bu8, sgr_report(sgr_button_code(b), col, row, press).drop_first())
            == Some(InputEvent::Mouse(if press {
                MouseEvent::Press(b, col as i16, row as i16)
            } else {
                MouseEvent::Release(col as i16, row as i16)
            })),
{
    let code = sgr_button_code(b);
    let a = numeral_bytes(code);
    let x = numeral_bytes(col + 1);
    let y = numeral_bytes(row + 1);
    lemma_numeral(code);
    lemma_numeral(col + 1);
    lemma_numeral(row + 1);
    let fin: u8 = if press { 77u8 } else { 109u8 };
    let rest = sgr_report(code, col, row, press).drop_first();
    let body = a + seq![59u8] + x + seq![59u8] + y;
    let q = body + seq![fin];
    assert(rest =~= seq![91u8, 60u8] + q);
    assert(rest.drop_first().drop_first() =~= q);
    let j = body.len() as int;
    assert forall|k: int| 0 <= k < j implies #[trigger] q[k] != 77u8 && q[k] != 109u8 && q[k] < 128 by {
        assert(q[k] == body[k]);
        if k < a.len() {
            assert(body[k] == a[k]);
        } else if k == a.len() {
        } else if k < a.len() + 1 + x.len() {
            assert(body[k] == x[k - a.len() - 1]);
        } else if k == a.len() + 1 + x.len() {
        } else {
            assert(body[k] == y[k - a.len() - 2 - x.len()]);
        }
    }
    lemma_first_mouse_end_at(q, 0, j);
    assert(q.take(j) =~= body);
    lemma_ascii_valid_utf8(body);
    lemma_three_fields(a, x, y);
    law_numeral_reads_back(code, true, i16::MIN as int, i16::MAX as int);
    law_numeral_reads_back(col + 1, true, i16::MIN as int, i16::MAX as int);
    law_numeral_reads_back(row + 1, true, i16::MIN as int, i16::MAX as int);
    let fields = split_fields(q.take(j));
    assert(fields == seq![a, x, y]);
    assert(crate::input::unix::field_or(fields, 0, 4) == code as int);
    assert(crate::input::unix::field_or(fields, 1, 1) == col + 1);
    assert(crate::input::unix::field_or(fields, 2, 1) == row + 1);
    assert(q[j] == fin);
}

/// A key event as the parser gives it.
pub open spec fn key(k: KeyEvent) -> Option<InputEvent> {
    Some(InputEvent::Keyboard(k))
}

/// What follows `ESC [` is read as a control sequence.
proof fn lemma_esc_csi(q: Seq<u8>)
    ensures
        spec_parse_event(0x1Bu8, seq![91u8] + q) == crate::input::unix::spec_parse_csi(q),
{
    assert((seq![91u8] + q).drop_first() =~= q);
}

/// One key of `ESC [` and a letter.
proof fn lemma_csi_letter(b: u8, r: Seq<u8>)
    ensures
        spec_parse_event(0x1Bu8, seq![91u8, b] + r) == crate::input::unix::spec_parse_csi(seq![b] + r),
{
    assert(seq![91u8, b] + r =~= seq![91u8] + (seq![b] + r));
    lemma_esc_csi(seq![b] + r);
}

/// One key of `ESC [ [` and a letter.
proof fn lemma_csi_bracket(b: u8, r: Seq<u8>)
    requires
        65 <= b <= 69,
    ensures
        spec_parse_event(0x1Bu8, seq![91u8, 91u8, b] + r) == key(KeyEvent::F((b - 64) as u8)),
{
    assert(seq![91u8, 91u8, b] + r =~= seq![91u8] + (seq![91u8, b] + r));
    lemma_esc_csi(seq![91u8, b] + r);
}

/// One key of `ESC O` and a letter.
proof fn lemma_ss3(b: u8, r: Seq<u8>)
    requires
        80 <= b <= 83,
    ensures
        spec_parse_event(0x1Bu8, seq![79u8, b] + r) == key(KeyEvent::F((b - 79) as u8)),
{
}

/// The keys that terminals send as `ESC [` and one letter, `ESC [ [` and a
/// letter (F1 to F5 of the Linux console), and `ESC O` and a letter (F1 to
/// F4) read as those keys, whatever follows them.
#[verifier::spinoff_prover]
#[verifier::rlimit(40)]
pub proof fn law_letter_keys(r: Seq<u8>)
    ensures
        spec_parse_event(0x1Bu8, seq![91u8, 65u8] + r) == key(KeyEvent::Up),
        spec_parse_event(0x1Bu8, seq![91u8, 66u8] + r) == key(KeyEvent::Down),
        spec_parse_event(0x1Bu8, seq![91u8, 67u8] + r) == key(KeyEvent::Right),
        spec_parse_event(0x1Bu8, seq![91u8, 68u8] + r) == key(KeyEvent::Left),
        spec_parse_event(0x1Bu8, seq![91u8, 72u8] + r) == key(KeyEvent::Home),
        spec_parse_event(0x1Bu8, seq![91u8, 70u8] + r) == key(KeyEvent::End),
        spec_parse_event(0x1Bu8, seq![91u8, 90u8] + r) == key(KeyEvent::BackTab),
        spec_parse_event(0x1Bu8, seq![91u8, 91u8, 65u8] + r) == key(KeyEvent::F(1)),
        spec_parse_event(0x1Bu8, seq![91u8, 91u8, 66u8] + r) == key(KeyEvent::F(2)),
        spec_parse_event(0x1Bu8, seq![91u8, 91u8, 67u8] + r) == key(KeyEvent::F(3)),
        spec_parse_event(0x1Bu8, seq![91u8, 91u8, 68u8] + r) == key(KeyEvent::F(4)),
        spec_parse_event(0x1Bu8, seq![91u8, 91u8, 69u8] + r) == key(KeyEvent::F(5)),
        spec_parse_event(0x1Bu8, seq![79u8, 80u8] + r) == key(KeyEvent::F(1)),
        spec_parse_event(0x1Bu8, seq![79u8, 81u8] + r) == key(KeyEvent::F(2)),
        spec_parse_event(0x1Bu8, seq![79u8, 82u8] + r) == key(KeyEvent::F(3)),
        spec_parse_event(0x1Bu8, seq![79u8, 83u8] + r) == key(KeyEvent::F(4)),
{
    lemma_csi_letter(65u8, r);
    lemma_csi_letter(66u8, r);
    lemma_csi_letter(67u8, r);
    lemma_csi_letter(68u8, r);
    lemma_csi_letter(72u8, r);
    lemma_csi_letter(70u8, r);
    lemma_csi_letter(90u8, r);
    lemma_csi_bracket(65u8, r);
    lemma_csi_bracket(66u8, r);
    lemma_csi_bracket(67u8, r);
    lemma_csi_bracket(68u8, r);
    lemma_csi_bracket(69u8, r);
    lemma_ss3(80u8, r);
    lemma_ss3(81u8, r);
    lemma_ss3(82u8, r);
    lemma_ss3(83u8, r);
}

/// One modified arrow key `ESC [ 1 ; m c` reads as the arrow of `c` with
/// the modifier of `m`.
#[verifier::spinoff_prover]
#[verifier::rlimit(40)]
proof fn lemma_modified_arrow(m: u8, c: u8, r: Seq<u8>)
    requires
        m == 50u8 || m == 53u8,
        65 <= c <= 68,
    ensures
        spec_parse_event(0x1Bu8, seq![91u8, 49u8, 59u8, m, c] + r) == Some(
            crate::input::unix::spec_modified_arrow_keys(seq![49u8, 59u8, m], c),
        ),
{
    let q = seq![49u8, 59u8, m, c] + r;
    assert((seq![91u8, 49u8, 59u8, m, c] + r).drop_first() =~= q);
    lemma_first_final_at(q, 1, 3);
    assert(q.take(3) =~= seq![49u8, 59u8, m]);
}

/// The arrow keys with Ctrl (`ESC [ 1 ; 5` and the arrow letter) and with
/// Shift (`ESC [ 1 ; 2` and the letter) read as those keys, whatever
/// follows them.
#[verifier::spinoff_prover]
#[verifier::rlimit(40)]
pub proof fn law_modified_arrow_keys(r: Seq<u8>)
    ensures
        spec_parse_event(0x1Bu8, seq![91u8, 49u8, 59u8, 53u8, 65u8] + r) == key(KeyEvent::CtrlUp),
        spec_parse_event(0x1Bu8, seq![91u8, 49u8, 59u8, 53u8, 66u8] + r) == key(KeyEvent::CtrlDown),
        spec_parse_event(0x1Bu8, seq![91u8, 49u8, 59u8, 53u8, 67u8] + r) == key(KeyEvent::CtrlRight),
        spec_parse_event(0x1Bu8, seq![91u8, 49u8, 59u8, 53u8, 68u8] + r) == key(KeyEvent::CtrlLeft),
        spec_parse_event(0x1Bu8, seq![91u8, 49u8, 59u8, 50u8, 65u8] + r) == key(KeyEvent::ShiftUp),
        spec_parse_event(0x1Bu8, seq![91u8, 49u8, 59u8, 50u8, 66u8] + r) == key(KeyEvent::ShiftDown),
        spec_parse_event(0x1Bu8, seq![91u8, 49u8, 59u8, 50u8, 67u8] + r) == key(KeyEvent::ShiftRight),
        spec_parse_event(0x1Bu8, seq![91u8, 49u8, 59u8, 50u8, 68u8] + r) == key(KeyEvent::ShiftLeft),
{
    lemma_modified_arrow(53u8, 65u8, r);
    lemma_modified_arrow(53u8, 66u8, r);
    lemma_modified_arrow(53u8, 67u8, r);
    lemma_modified_arrow(53u8, 68u8, r);
    lemma_modified_arrow(50u8, 65u8, r);
    lemma_modified_arrow(50u8, 66u8, r);
    lemma_modified_arrow(50u8, 67u8, r);
    lemma_modified_arrow(50u8, 68u8, r);
}

/// The bytes that terminals send for keys without an escape: Enter (CR or
/// LF), Tab, Backspace (DEL), Ctrl with a letter (bytes 1 to 26 for `a` to
/// `z`), Ctrl with `4` to `7` (bytes 28 to 31) and Null; a lone escape is
/// the Esc key.
#[verifier::spinoff_prover]
#[verifier::rlimit(40)]
pub proof fn law_control_keys(b: u8, r: Seq<u8>)
    ensures
        spec_parse_event(13u8, r) == key(KeyEvent::Enter),
        spec_parse_event(10u8, r) == key(KeyEvent::Enter),
        spec_parse_event(9u8, r) == key(KeyEvent::Tab),
        spec_parse_event(127u8, r) == key(KeyEvent::Backspace),
        spec_parse_event(0u8, r) == key(KeyEvent::Null),
        spec_parse_event(0x1Bu8, Seq::empty()) == key(KeyEvent::Esc),
        1 <= b <= 26 && b != 9 && b != 10 && b != 13 ==> spec_parse_event(b, r) == key(
            KeyEvent::Ctrl(((b + 96) as u8) as char),
        ),
        28 <= b <= 31 ==> spec_parse_event(b, r) == key(KeyEvent::Ctrl(((b + 24) as u8) as char)),
{
}

/// A printable ASCII byte reads as its character, and after an escape
/// as that character with Alt (but for `O` and `[`, which start key
/// sequences).
#[verifier::spinoff_prover]
pub proof fn law_plain_and_alt_characters(c: u8, r: Seq<u8>)
    requires
        0x20 <= c < 0x7F,
    ensures
        spec_parse_event(c, r) == key(KeyEvent::Char(c as char)),
        c != 79u8 && c != 91u8 ==> spec_parse_event(0x1Bu8, seq![c] + r) == key(KeyEvent::Alt(c as char)),
{
    assert((seq![c] + r).drop_first() =~= r);
}

/// A VT special key `ESC [ n ~` reads as the key its number stands for:
/// 1 and 7 Home, 2 Insert, 3 Delete, 4 and 8 End, 5 Page Up, 6 Page Down,
/// 11 to 15 F1 to F5, 17 to 21 F6 to F10, 23 and 24 F11 and F12.
#[verifier::spinoff_prover]
#[verifier::rlimit(40)]
pub proof fn law_special_keys(n: nat, r: Seq<u8>)
    requires
        1 <= n <= 255,
    ensures
        ({
            let ev = spec_parse_event(0x1Bu8, seq![91u8] + numeral_bytes(n) + seq![126u8] + r);
            &&& (n == 1 || n == 7) ==> ev == key(KeyEvent::Home)
            &&& n == 2 ==> ev == key(KeyEvent::Insert)
            &&& n == 3 ==> ev == key(KeyEvent::Delete)
            &&& (n == 4 || n == 8) ==> ev == key(KeyEvent::End)
            &&& n == 5 ==> ev == key(KeyEvent::PageUp)
            &&& n == 6 ==> ev == key(KeyEvent::PageDown)
            &&& 11 <= n <= 15 ==> ev == key(KeyEvent::F((n - 10) as u8))
            &&& 17 <= n <= 21 ==> ev == key(KeyEvent::F((n - 11) as u8))
            &&& (n == 23 || n == 24) ==> ev == key(KeyEvent::F((n - 12) as u8))
        }),
{
    let a = numeral_bytes(n);
    lemma_numeral(n);
    let q = a + seq![126u8] + r;
    assert((seq![91u8] + a + seq![126u8] + r).drop_first() =~= q);
    let j = a.len() as int;
    assert(q[0] == a[0]);
    assert(48 <= a[0] <= 57);
    assert forall|k: int| 1 <= k < j implies !(64 <= #[trigger] q[k] <= 126) by {
        assert(q[k] == a[k]);
    }
    assert(q[j] == 126u8);
    lemma_first_final_at(q, 1, j);
    assert(q.take(j) =~= a);
    assert forall|i: int| 0 <= i < a.len() implies a[i] != 59u8 by {}
    lemma_one_field(a);
    law_numeral_reads_back(n, false, 0, 255);
    let fields = split_fields(a);
    assert(crate::input::unix::all_fields_parse(fields, false, 0, 255));
}

/// The coordinate that an X10 mouse report byte stands for: the byte less
/// 33 (the encoding adds 32 to a position counted from 1).
pub open spec fn x10_position(b: u8) -> i16 {
    (b - 33) as i16
}

/// An X10 mouse report `ESC [ M b x y` reads as the event its button byte
/// stands for (32 left, 33 middle, 34 right pressed, 35 released, 96 the
/// wheel turned up, 97 turned down) at the position its two bytes give.
#[verifier::spinoff_prover]
#[verifier::rlimit(40)]
pub proof fn law_x10_mouse(cb: u8, x: u8, y: u8, r: Seq<u8>)
    requires
        33 <= x,
        33 <= y,
    ensures
        ({
            let ev = spec_parse_event(0x1Bu8, seq![91u8, 77u8, cb, x, y] + r);
            let (cx, cy) = (x10_position(x), x10_position(y));
            &&& cb == 32 ==> ev == Some(InputEvent::Mouse(MouseEvent::Press(MouseButton::Left, cx, cy)))
            &&& cb == 33 ==> ev == Some(InputEvent::Mouse(MouseEvent::Press(MouseButton::Middle, cx, cy)))
            &&& cb == 34 ==> ev == Some(InputEvent::Mouse(MouseEvent::Press(MouseButton::Right, cx, cy)))
            &&& cb == 35 ==> ev == Some(InputEvent::Mouse(MouseEvent::Release(cx, cy)))
            &&& cb == 96 ==> ev == Some(InputEvent::Mouse(MouseEvent::Press(MouseButton::WheelUp, cx, cy)))
            &&& cb == 97 ==> ev == Some(InputEvent::Mouse(MouseEvent::Press(MouseButton::WheelDown, cx, cy)))
        }),
{
    let q = (seq![91u8, 77u8, cb, x, y] + r).drop_first().drop_first();
    assert((seq![91u8, 77u8, cb, x, y] + r).drop_first() =~= seq![77u8, cb, x, y] + r);
    assert(q =~= seq![cb, x, y] + r);
    assert(0u8 & 3u8 == 0u8 && 0u8 & 0x40u8 == 0u8) by (bit_vector);
    assert(1u8 & 3u8 == 1u8 && 1u8 & 0x40u8 == 0u8) by (bit_vector);
    assert(2u8 & 3u8 == 2u8) by (bit_vector);
    assert(3u8 & 3u8 == 3u8) by (bit_vector);
    assert(64u8 & 3u8 == 0u8 && 64u8 & 0x40u8 != 0u8) by (bit_vector);
    assert(65u8 & 3u8 == 1u8 && 65u8 & 0x40u8 != 0u8) by (bit_vector);
}

/// A cached cell that holds plain text: nothing, or one character other
/// than a tab in the default style.
pub open spec fn plain_cell(c: Option<InfoView>) -> bool {
    match c {
        None => true,
        Some(i) => i.style == default_style() && (i.rune matches RuneView::Single(ch) && ch != '\t'),
    }
}

/// The character a plain cell shows: a space for an empty cell.
pub open spec fn plain_char(c: Option<InfoView>) -> char {
    match c {
        Some(i) => match i.rune {
            RuneView::Single(ch) => ch,
            _ => ' ',
        },
        None => ' ',
    }
}

/// A cache that holds plain text redraws as that text: after a reset, the
/// character of each cell in turn (a space for an empty one), with no
/// style change between them.
pub proof fn law_plain_cache_redraws_text(cells: Seq<Option<InfoView>>, tab: u8, n: int)
    requires
        0 <= n <= cells.len(),
        forall|i: int| 0 <= i < cells.len() ==> plain_cell(#[trigger] cells[i]),
    ensures
        flush_upto(cells, n, tab) == (
            "\x1B[0m"@ + Seq::new(n as nat, |i: int| plain_char(cells[i])),
            default_style(),
        ),
    decreases n,
{
    if n > 0 {
        law_plain_cache_redraws_text(cells, tab, n - 1);
        assert(plain_cell(cells[n - 1]));
        assert("\x1B[0m"@ + Seq::new(n as nat, |i: int| plain_char(cells[i])) =~= ("\x1B[0m"@
            + Seq::new((n - 1) as nat, |i: int| plain_char(cells[i]))) + seq![plain_char(cells[n - 1])]);
    } else {
        assert("\x1B[0m"@ + Seq::new(0 as nat, |i: int| plain_char(cells[i])) =~= "\x1B[0m"@);
    }
}

/// The console's attribute bits (blue 1, green 2, red 4, intensity 8) of
/// the color at index `n` (0 to 15) of the terminal palette (red 1, green
/// 2, blue 4, bright 8).
pub open spec fn console_bits_of_palette(n: int) -> int {
    (n % 2) * 4 + ((n / 2) % 2) * 2 + (n / 4) % 2 + ((n / 8) % 2) * 8
}

/// One of the sixteen colors that have a name.
pub open spec fn named_color(c: Color) -> bool {
    !(c is Reset || c is Rgb || c is AnsiValue)
}

/// A named color shows as the same color on a console as through escape
/// sequences: its console foreground bits are those of its palette index,
/// and its background bits the same shifted into the background nibble. So
/// no two named colors share console bits.
pub proof fn law_console_colors_match_palette(c: Color)
    requires
        named_color(c),
    ensures
        crate::wincon::fg_bits(c) as int == console_bits_of_palette(crate::ansi::style::palette_index(c)),
        crate::wincon::bg_bits(c) as int == 16 * console_bits_of_palette(crate::ansi::style::palette_index(c)),
{
    assert(
        FG_RED | FG_INTENSE == 0xC && FG_GREEN | FG_INTENSE == 0xA && FG_RED | FG_GREEN | FG_INTENSE == 0xE
        && FG_RED | FG_GREEN == 0x6 && FG_BLUE | FG_INTENSE == 0x9 && FG_RED | FG_BLUE | FG_INTENSE == 0xD
        && FG_RED | FG_BLUE == 0x5 && FG_GREEN | FG_BLUE | FG_INTENSE == 0xB && FG_GREEN | FG_BLUE == 0x3
        && FG_RED | FG_GREEN | FG_BLUE | FG_INTENSE == 0xF && FG_RED | FG_GREEN | FG_BLUE == 0x7
        && BG_RED | BG_INTENSE == 0xC0 && BG_GREEN | BG_INTENSE == 0xA0 && BG_RED | BG_GREEN | BG_INTENSE == 0xE0
        && BG_RED | BG_GREEN == 0x60 && BG_BLUE | BG_INTENSE == 0x90 && BG_RED | BG_BLUE | BG_INTENSE == 0xD0
        && BG_RED | BG_BLUE == 0x50 && BG_GREEN | BG_BLUE | BG_INTENSE == 0xB0 && BG_GREEN | BG_BLUE == 0x30
        && BG_RED | BG_GREEN | BG_BLUE | BG_INTENSE == 0xF0 && BG_RED | BG_GREEN | BG_BLUE == 0x70
    ) by (bit_vector);
}

/// The handles after one of them had a flag set: the handle `id`, where it
/// is registered, has `v` as the flag that `set` names (`true`: suspended,
/// `false`: running); every other handle, and the order, stay.
pub open spec fn flag_set(es: Seq<Emitter>, id: usize, suspend: bool, v: bool) -> Seq<Emitter> {
    Seq::new(es.len(), |i: int| if es[i].id == id {
        if suspend { Emitter { is_suspend: v, ..es[i] } } else { Emitter { is_running: v, ..es[i] } }
    } else {
        es[i]
    })
}

/// A flag set on the handle `id` reaches it alone, and registers no one.
proof fn lemma_flag_set(es: Seq<Emitter>, id: usize, suspend: bool, v: bool)
    requires
        ids_unique(es),
    ensures
        (if suspend { crate::dispatch::with_suspend(es, id, v) } else if !v {
            crate::dispatch::with_stopped(es, id)
        } else {
            es
        }) == (if suspend || !v { flag_set(es, id, suspend, v) } else { es }),
{
    if suspend || !v {
        match find(es, id) {
            Some(k) => {
                assert(es[k].id == id);
                let lhs = if suspend { crate::dispatch::with_suspend(es, id, v) } else {
                    crate::dispatch::with_stopped(es, id)
                };
                assert forall|i: int| 0 <= i < es.len() implies #[trigger] lhs[i] == flag_set(es, id, suspend, v)[i] by {
                    if i != k && es[i].id == id {
                        assert(es[i].id != es[k].id);
                    }
                }
                assert(lhs =~= flag_set(es, id, suspend, v));
            },
            None => {
                assert(flag_set(es, id, suspend, v) =~= es);
            },
        }
    }
}

/// What one command does to the lock and the handles: `Lock(id)` takes the
/// lock where it is free, `Unlock` frees it; `Suspend`, `Transmit` and
/// `Stop` set the flag of the handle named, where it is registered, and of
/// no other, registering no one; every other command leaves the lock and
/// the handles as they were.
pub proof fn law_commands_on_lock_and_handles(d0: Dispatch, d1: Dispatch, cmd: Cmd, outs: Seq<OutputView>)
    requires
        d0.wf(),
        handled(d0, d1, cmd, outs),
    ensures
        match cmd {
            Cmd::Lock(id) => d1.lock_owner == (if d0.lock_owner == 0 { id } else { d0.lock_owner })
                && d1.emitters@ == d0.emitters@,
            Cmd::Unlock => d1.lock_owner == 0 && d1.emitters@ == d0.emitters@,
            Cmd::Suspend(id) => d1.lock_owner == d0.lock_owner
                && d1.emitters@ == flag_set(d0.emitters@, id, true, true),
            Cmd::Transmit(id) => d1.lock_owner == d0.lock_owner
                && d1.emitters@ == flag_set(d0.emitters@, id, true, false),
            Cmd::Stop(id) => d1.lock_owner == d0.lock_owner
                && d1.emitters@ == flag_set(d0.emitters@, id, false, false),
            _ => d1.lock_owner == d0.lock_owner && d1.emitters@ == d0.emitters@,
        },
{
    match cmd {
        Cmd::Suspend(id) => lemma_flag_set(d0.emitters@, id, true, true),
        Cmd::Transmit(id) => lemma_flag_set(d0.emitters@, id, true, false),
        Cmd::Stop(id) => lemma_flag_set(d0.emitters@, id, false, false),
        _ => {},
    }
}

/// Where a handle holds the input lock, an input event goes to it alone,
/// suspended or not, while it runs; once it has stopped, to no one.
pub proof fn law_input_under_lock(es: Seq<Emitter>, owner: usize)
    requires
        owner != 0,
    ensures
        find(running(es), owner) is Some ==> recipients(running(es), owner) == seq![owner],
        find(running(es), owner) is None ==> recipients(running(es), owner) == Seq::<usize>::empty(),
{
}

/// Handles that are not suspended keep distinct ids.
proof fn lemma_listeners_unique(es: Seq<Emitter>)
    requires
        ids_unique(es),
    ensures
        ids_unique(es.filter(|e: Emitter| !e.is_suspend)),
    decreases es.len(),
{
    reveal(Seq::filter);
    if es.len() > 0 {
        let rest = es.drop_last();
        assert(ids_unique(rest)) by {
            assert forall|i: int, j: int| 0 <= i < rest.len() && 0 <= j < rest.len() && i != j
                implies rest[i].id != rest[j].id by {
                assert(es[i] == rest[i] && es[j] == rest[j]);
            }
        }
        lemma_listeners_unique(rest);
        let fr = rest.filter(|e: Emitter| !e.is_suspend);
        if !es.last().is_suspend {
            assert(es.filter(|e: Emitter| !e.is_suspend) == fr.push(es.last()));
            assert forall|k: int| 0 <= k < fr.len() implies #[trigger] fr[k].id != es.last().id by {
                lemma_kept_from(rest, k);
                let m = choose|m: int| 0 <= m < rest.len() && rest[m] == fr[k];
                assert(es[m] == rest[m]);
                assert(es[es.len() - 1] == es.last());
                assert(es[m].id != es[es.len() - 1].id);
            }
        } else {
            assert(es.filter(|e: Emitter| !e.is_suspend) == fr);
        }
    }
}

/// With the input lock free, no handle gets an input event twice: the
/// recipients are distinct.
pub proof fn law_each_listener_once(es: Seq<Emitter>)
    requires
        ids_unique(es),
    ensures
        recipients(es, 0).no_duplicates(),
{
    lemma_listeners_unique(es);
    let kept = es.filter(|e: Emitter| !e.is_suspend);
    let ids = kept.map_values(|e: Emitter| e.id);
    assert forall|i: int, j: int| 0 <= i < ids.len() && 0 <= j < ids.len() && i != j
        implies ids[i] != ids[j] by {
        assert(kept[i].id != kept[j].id);
    }
}

/// Every wide cell has the right half of its character (a `Link`) next to
/// it, and every `Link` has a wide cell just before it.
pub open spec fn paired(cells: Seq<CellView>) -> bool {
    forall|k: int| 0 <= k < cells.len() ==> {
        &&& (#[trigger] cells[k] is Link ==> k >= 1 && is_wide(cells[k - 1]))
        &&& (is_wide(cells[k]) ==> k + 1 < cells.len() && cells[k + 1] is Link)
    }
}

/// Writing a one-cell value keeps the cells paired.
proof fn lemma_patch_narrow(
    cells: Seq<CellView>,
    out: Seq<char>,
    pending: int,
    cut: int,
    w: int,
    p: int,
    cell: CellView,
)
    requires
        paired(cells),
        !(cell is Link),
        !is_wide(cell),
        patch(cells, out, pending, cut, w, p, cell) is Some,
    ensures
        ({
            let c = (patch(cells, out, pending, cut, w, p, cell)->0).0;
            &&& c.len() == cells.len() && paired(c) && c[p] == cell
            &&& !(cells[p] is Link) ==> forall|q: int| 0 <= q < p ==> #[trigger] c[q] == cells[q]
        }),
{
    let c = (patch(cells, out, pending, cut, w, p, cell)->0).0;
    assert(0 <= p < cells.len());
    let old = cells[p];
    assert forall|k: int| 0 <= k < c.len() implies {
        &&& (#[trigger] c[k] is Link ==> k >= 1 && is_wide(c[k - 1]))
        &&& (is_wide(c[k]) ==> k + 1 < c.len() && c[k + 1] is Link)
    } by {
        if k >= 1 {
            assert(cells[k] is Link ==> is_wide(cells[k - 1]));
        }
        if k + 1 < cells.len() {
            assert(is_wide(cells[k]) ==> cells[k + 1] is Link);
            assert(cells[k + 1] is Link ==> is_wide(cells[k]));
        }
        if k >= 2 {
            assert(cells[k - 1] is Link ==> is_wide(cells[k - 2]));
        }
        assert(old is Link ==> p >= 1 && is_wide(cells[p - 1]));
        assert(is_wide(old) ==> p + 1 < cells.len() && cells[p + 1] is Link);
        if p >= 1 {
            assert(is_wide(cells[p - 1]) ==> cells[p] is Link);
        }
        if p + 1 < cells.len() {
            assert(cells[p + 1] is Link ==> is_wide(cells[p]));
        }
        if p + 2 < cells.len() {
            assert(cells[p + 2] is Link ==> is_wide(cells[p + 1]));
        }
        if p >= 2 {
            assert(is_wide(cells[p - 2]) ==> cells[p - 1] is Link);
        }
    }
}

/// Writing a wide value and then its right half keeps the cells paired.
proof fn lemma_patch_wide(
    cells: Seq<CellView>,
    out: Seq<char>,
    pending: int,
    cut: int,
    w: int,
    p: int,
    cell: CellView,
)
    requires
        paired(cells),
        is_wide(cell),
        patch(cells, out, pending, cut, w, p, cell) is Some,
        ({
            let (c, o, _) = patch(cells, out, pending, cut, w, p, cell)->0;
            patch(c, o, 0, 0, w, p + 1, CellView::Link) is Some
        }),
    ensures
        ({
            let (c, o, _) = patch(cells, out, pending, cut, w, p, cell)->0;
            let c2 = (patch(c, o, 0, 0, w, p + 1, CellView::Link)->0).0;
            &&& c2.len() == cells.len() && paired(c2) && c2[p] == cell && c2[p + 1] is Link
            &&& !(cells[p] is Link) ==> forall|q: int| 0 <= q < p ==> #[trigger] c2[q] == cells[q]
        }),
{
    let (c, o, _) = patch(cells, out, pending, cut, w, p, cell)->0;
    let c2 = (patch(c, o, 0, 0, w, p + 1, CellView::Link)->0).0;
    assert(0 <= p < cells.len());
    assert(0 <= p + 1 < c.len());
    assert(c[p] == cell);
    // the right neighbour is a `Link` after the first write only where it
    // already was one and nothing changed
    if p + 1 < cells.len() {
        assert(cells[p + 1] is Link ==> is_wide(cells[p]));
        assert(is_wide(cells[p]) ==> cells[p + 1] is Link);
    }
    assert(c[p + 1] is Link ==> c == cells);
    assert(c2[p] == cell);
    assert(c2[p + 1] is Link);
    assert forall|k: int| 0 <= k < c2.len() implies {
        &&& (#[trigger] c2[k] is Link ==> k >= 1 && is_wide(c2[k - 1]))
        &&& (is_wide(c2[k]) ==> k + 1 < c2.len() && c2[k + 1] is Link)
    } by {
        if k >= 1 {
            assert(cells[k] is Link ==> is_wide(cells[k - 1]));
        }
        if k + 1 < cells.len() {
            assert(is_wide(cells[k]) ==> cells[k + 1] is Link);
            assert(cells[k + 1] is Link ==> is_wide(cells[k]));
        }
        if k >= 2 {
            assert(cells[k - 1] is Link ==> is_wide(cells[k - 2]));
        }
        assert(cells[p] is Link ==> p >= 1 && is_wide(cells[p - 1]));
        if p >= 1 {
            assert(is_wide(cells[p - 1]) ==> cells[p] is Link);
        }
        if p + 2 < cells.len() {
            assert(cells[p + 2] is Link ==> is_wide(cells[p + 1]));
            assert(is_wide(cells[p + 1]) ==> cells[p + 2] is Link);
        }
        if p + 3 < cells.len() {
            assert(cells[p + 3] is Link ==> is_wide(cells[p + 2]));
        }
        if p >= 2 {
            assert(is_wide(cells[p - 2]) ==> cells[p - 1] is Link);
        }
    }
}

/// A parse state that keeps `len` cells, paired, with the cursor and the
/// last change at cell indices.
pub open spec fn paired_state(st: ParseState, len: int) -> bool {
    &&& st.cells.len() == len
    &&& paired(st.cells)
    &&& st.index >= 0
    &&& st.freeze >= 0
}

proof fn lemma_write_one_paired(env: ParseEnv, st: ParseState, ch: char, cell: CellView, len: int)
    requires
        paired_state(st, len),
        !(cell is Link),
        !is_wide(cell),
        write_one(env, st, ch, cell) is Some,
    ensures
        paired_state(write_one(env, st, ch, cell)->0, len),
{
    let out1 = st.out.push(ch);
    let cut1 = crate::store::parse::bump(st.cut, crate::unicode::utf8_len(ch) as int);
    let pend1 = st.pending + 1;
    lemma_patch_narrow(st.cells, out1, pend1, cut1, env.w, st.index, cell);
}

proof fn lemma_write_wide_paired(env: ParseEnv, st: ParseState, text: Seq<char>, cell: CellView, len: int)
    requires
        paired_state(st, len),
        is_wide(cell),
        write_wide(env, st, text, cell) is Some,
    ensures
        paired_state(write_wide(env, st, text, cell)->0, len),
{
    let out1 = st.out + text;
    let cut1 = crate::store::parse::bump(st.cut, crate::store::parse::seq_utf8_len(text));
    let pend1 = st.pending + text.len();
    lemma_patch_wide(st.cells, out1, pend1, cut1, env.w, st.index, cell);
}

/// Cursor moves keep the cursor at a cell index.
proof fn lemma_moves_paired(env: ParseEnv, st: ParseState, len: int)
    requires
        paired_state(st, len),
        env.w > 0,
        env.h > 0,
        env.tab >= 1,
    ensures
        paired_state(tab_move(env, st), len),
        paired_state(line_feed(env, st), len),
        paired_state(carriage_return(env, st), len),
        paired_state(new_line(env, st), len),
{
    let (col, row) = (st.index % env.w, st.index / env.w);
    assert(row >= 0 && col >= 0);
    let r = if env.h > row + 1 { row + 1 } else { env.h - 1 };
    assert(r * env.w >= 0 && row * env.w >= 0) by (nonlinear_arith)
        requires
            r >= 0,
            row >= 0,
            env.w > 0,
    ;
}

/// A step keeps the cells paired.
proof fn lemma_step_paired(env: ParseEnv, gs: Seq<Seq<char>>, k: int, st: ParseState, len: int)
    requires
        paired_state(st, len),
        env.w > 0,
        env.h > 0,
        env.tab >= 1,
        0 <= k < gs.len(),
    ensures
        step(env, gs, k, st) matches Some((_, s2)) ==> paired_state(s2, len),
{
    lemma_moves_paired(env, st, len);
    let g = gs[k];
    if g.len() == 1 {
        let car = g[0];
        match display_width(car) {
            Some(wd) => {
                if wd == 1 {
                    let cell = if car == ' ' { CellView::Nil } else { CellView::Single(car, env.style) };
                    if write_one(env, st, car, cell) is Some {
                        lemma_write_one_paired(env, st, car, cell, len);
                    }
                } else if wd == 2 {
                    let nextc = if k + 1 < gs.len() && gs[k + 1].len() > 0 { gs[k + 1][0] } else { '0' };
                    if is_modifier(nextc) {
                        let end = group_end(gs, k + 2);
                        let v = gs.subrange(k, end).flatten();
                        let wv = clip(width_sum(v));
                        let cell = CellView::Multi(v, wv, env.style);
                        let text = multi_text(v, wv as int, env.can_modify);
                        if write_wide(env, st, text, cell) is Some {
                            lemma_write_wide_paired(env, st, text, cell, len);
                        }
                    } else {
                        let cell = CellView::Double(car, env.style);
                        if write_wide(env, st, seq![car], cell) is Some {
                            lemma_write_wide_paired(env, st, seq![car], cell, len);
                        }
                    }
                }
            },
            None => {
                if car == '\x1B' {
                    let cell = CellView::Single('^', env.style);
                    if write_one(env, st, '^', cell) is Some {
                        lemma_write_one_paired(env, st, '^', cell, len);
                    }
                }
            },
        }
    } else if g.len() > 1 && !(g[0] == '\r' && g[1] == '\n') {
        let end = group_end(gs, k + 1);
        let v = gs.subrange(k, end).flatten();
        let wv = clip(width_sum(v));
        let cell = CellView::Multi(v, wv, env.style);
        let text = multi_text(v, wv as int, env.can_modify);
        if write_wide(env, st, text, cell) is Some {
            lemma_write_wide_paired(env, st, text, cell, len);
        }
    }
}

/// The steps from cluster `k` on keep the cells paired.
proof fn lemma_run_paired(env: ParseEnv, gs: Seq<Seq<char>>, k: int, st: ParseState, len: int)
    requires
        paired_state(st, len),
        env.w > 0,
        env.h > 0,
        env.tab >= 1,
    ensures
        run(env, gs, k, st) matches Some(s2) ==> paired_state(s2, len),
    decreases gs.len() - k,
{
    if 0 <= k < gs.len() {
        lemma_step_paired(env, gs, k, st, len);
        match step(env, gs, k, st) {
            Some((k2, s2)) => {
                if k < k2 < gs.len() {
                    lemma_run_paired(env, gs, k2, s2, len);
                }
            },
            None => {},
        }
    }
}

/// Writing text keeps every wide character whole: where each wide cell of
/// the screen has its right half next to it (and each right half its wide
/// cell), a parse of any text leaves the cells so, as many as before, with
/// the cursor on a cell that is not the right half of a wide character.
pub proof fn law_parse_keeps_pairs(b: Buffer, gs: Seq<Seq<char>>)
    requires
        b.wf(),
        paired(b.cells_view()),
    ensures
        b.parsed(gs) matches Some((c, _, i)) ==> {
            &&& c.len() == b.cells_view().len()
            &&& paired(c)
            &&& 0 <= i < c.len()
            &&& !(c[i] is Link)
        },
{
    let env = b.env();
    let cells = b.cells_view();
    let cap = b.width * b.height;
    let len = cells.len() as int;
    assert(cap >= 1) by (nonlinear_arith)
        requires
            b.width >= 1,
            b.height >= 1,
            cap == b.width * b.height,
    ;
    lemma_cursor_fix(cells, cap, b.index as int);
    let (c0, i0) = cursor_fix(cells, cap, b.index as int);
    let st0 = ParseState { cells: c0, out: b.strbuf@, index: i0, cut: 0, pending: 0, freeze: i0 };
    lemma_run_paired(env, gs, 0, st0, len);
    match run(env, gs, 0, st0) {
        Some(st) => {
            let i = if st.cut > 0 { st.freeze } else { st.index };
            lemma_cursor_fix(st.cells, cap, i);
            let (c2, i2) = cursor_fix(st.cells, cap, i);
            if i < len {
                if st.cells[i] is Link {
                    assert(is_wide(st.cells[i - 1]));
                }
            } else {
                assert(st.cells.take(cap) =~= st.cells);
                if st.cells[cap - 1] is Link {
                    assert(is_wide(st.cells[cap - 2]));
                }
            }
        },
        None => {},
    }
}

/// A cluster that moves the cursor instead of writing: a tab, a line feed,
/// a carriage return, or a carriage return and line feed.
pub open spec fn moves_cursor(g: Seq<char>) -> bool {
    ||| (g.len() == 1 && (g[0] == '\t' || g[0] == '\n' || g[0] == '\r'))
    ||| (g.len() > 1 && g[0] == '\r' && g[1] == '\n')
}

/// A paired parse state whose cursor is not on the right half of a wide
/// character.
pub open spec fn forward_state(st: ParseState, len: int) -> bool {
    &&& paired_state(st, len)
    &&& (st.index < len ==> !(st.cells[st.index] is Link))
}

/// A step of a cluster that does not move the cursor only writes at and
/// after the cursor, and leaves it on a cell that is not a right half.
proof fn lemma_step_forward(env: ParseEnv, gs: Seq<Seq<char>>, k: int, st: ParseState, len: int)
    requires
        forward_state(st, len),
        env.w > 0,
        env.h > 0,
        env.tab >= 1,
        0 <= k < gs.len(),
        !moves_cursor(gs[k]),
    ensures
        step(env, gs, k, st) matches Some((_, s2)) ==> {
            &&& forward_state(s2, len)
            &&& s2.index >= st.index
            &&& forall|q: int| 0 <= q < st.index ==> #[trigger] s2.cells[q] == st.cells[q]
            &&& (s2.index > st.index ==> !(s2.cells[st.index] is Link))
        },
{
    lemma_step_paired(env, gs, k, st, len);
    let g = gs[k];
    let p = st.index;
    if g.len() == 1 {
        let car = g[0];
        match display_width(car) {
            Some(wd) => {
                if wd == 1 {
                    let cell = if car == ' ' { CellView::Nil } else { CellView::Single(car, env.style) };
                    if write_one(env, st, car, cell) is Some {
                        let out1 = st.out.push(car);
                        let cut1 = crate::store::parse::bump(st.cut, crate::unicode::utf8_len(car) as int);
                        lemma_patch_narrow(st.cells, out1, st.pending + 1, cut1, env.w, p, cell);
                        let c = (write_one(env, st, car, cell)->0).cells;
                        if p + 1 < len {
                            assert(c[p + 1] is Link ==> is_wide(c[p]));
                        }
                    }
                } else if wd == 2 {
                    let nextc = if k + 1 < gs.len() && gs[k + 1].len() > 0 { gs[k + 1][0] } else { '0' };
                    let (text, cell) = if is_modifier(nextc) {
                        let end = group_end(gs, k + 2);
                        let v = gs.subrange(k, end).flatten();
                        let wv = clip(width_sum(v));
                        (multi_text(v, wv as int, env.can_modify), CellView::Multi(v, wv, env.style))
                    } else {
                        (seq![car], CellView::Double(car, env.style))
                    };
                    if write_wide(env, st, text, cell) is Some {
                        let out1 = st.out + text;
                        let cut1 = crate::store::parse::bump(st.cut, crate::store::parse::seq_utf8_len(text));
                        lemma_patch_wide(st.cells, out1, st.pending + text.len(), cut1, env.w, p, cell);
                        let c = (write_wide(env, st, text, cell)->0).cells;
                        if p + 2 < len {
                            assert(c[p + 2] is Link ==> is_wide(c[p + 1]));
                        }
                    }
                }
            },
            None => {
                if car == '\x1B' {
                    let cell = CellView::Single('^', env.style);
                    if write_one(env, st, '^', cell) is Some {
                        let out1 = st.out.push('^');
                        let cut1 = crate::store::parse::bump(st.cut, crate::unicode::utf8_len('^') as int);
                        lemma_patch_narrow(st.cells, out1, st.pending + 1, cut1, env.w, p, cell);
                        let c = (write_one(env, st, '^', cell)->0).cells;
                        if p + 1 < len {
                            assert(c[p + 1] is Link ==> is_wide(c[p]));
                        }
                    }
                }
            },
        }
    } else if g.len() > 1 {
        let end = group_end(gs, k + 1);
        let v = gs.subrange(k, end).flatten();
        let wv = clip(width_sum(v));
        let cell = CellView::Multi(v, wv, env.style);
        let text = multi_text(v, wv as int, env.can_modify);
        if write_wide(env, st, text, cell) is Some {
            let out1 = st.out + text;
            let cut1 = crate::store::parse::bump(st.cut, crate::store::parse::seq_utf8_len(text));
            lemma_patch_wide(st.cells, out1, st.pending + text.len(), cut1, env.w, p, cell);
            let c = (write_wide(env, st, text, cell)->0).cells;
            if p + 2 < len {
                assert(c[p + 2] is Link ==> is_wide(c[p + 1]));
            }
        }
    }
}

/// The steps from cluster `k` on, none of which moves the cursor, only
/// write at and after the cursor.
proof fn lemma_run_forward(env: ParseEnv, gs: Seq<Seq<char>>, k: int, st: ParseState, len: int)
    requires
        forward_state(st, len),
        env.w > 0,
        env.h > 0,
        env.tab >= 1,
        forall|j: int| 0 <= j < gs.len() ==> !moves_cursor(#[trigger] gs[j]),
    ensures
        run(env, gs, k, st) matches Some(sf) ==> {
            &&& forward_state(sf, len)
            &&& sf.index >= st.index
            &&& forall|q: int| 0 <= q < st.index ==> #[trigger] sf.cells[q] == st.cells[q]
            &&& (st.index < len ==> !(sf.cells[st.index] is Link))
        },
    decreases gs.len() - k,
{
    if 0 <= k < gs.len() {
        lemma_step_forward(env, gs, k, st, len);
        match step(env, gs, k, st) {
            Some((k2, s2)) => {
                if k < k2 < gs.len() {
                    lemma_run_forward(env, gs, k2, s2, len);
                }
            },
            None => {},
        }
    }
}

/// Characters take at least a byte each.
proof fn lemma_utf8_len_at_least(t: Seq<char>)
    ensures
        seq_utf8_len(t) >= t.len(),
    decreases t.len(),
{
    if t.len() > 0 {
        lemma_utf8_len_at_least(t.drop_last());
    }
}

/// An emoji sequence ends no earlier than where it starts, and within the
/// clusters.
proof fn lemma_group_end(gs: Seq<Seq<char>>, j: int)
    ensures
        group_end(gs, j) >= j,
        j <= gs.len() ==> group_end(gs, j) <= gs.len(),
    decreases gs.len() - j,
{
    if 0 < j < gs.len() && gs[j - 1].len() > 0 && gs[j - 1].last() == ZWJ {
        lemma_group_end(gs, j + 1);
    }
}

/// The first joiner at or after `i` is no earlier than `i`.
proof fn lemma_first_zwj(v: Seq<char>, i: int)
    requires
        0 <= i <= v.len(),
    ensures
        i <= crate::store::parse::first_zwj(v, i) <= v.len(),
    decreases v.len() - i,
{
    if i < v.len() && v[i] != ZWJ {
        lemma_first_zwj(v, i + 1);
    }
}

/// An emoji sequence that does not start with a joiner writes some text.
proof fn lemma_multi_text_nonempty(gs: Seq<Seq<char>>, k: int, end: int, w: int, can_modify: bool)
    requires
        0 <= k < end <= gs.len(),
        gs[k].len() > 0,
        gs[k][0] != ZWJ,
    ensures
        multi_text(gs.subrange(k, end).flatten(), w, can_modify).len() > 0,
{
    let sub = gs.subrange(k, end);
    let v = sub.flatten();
    assert(sub.len() > 0);
    assert(v == sub.first() + sub.drop_first().flatten());
    assert(sub.first() == gs[k]);
    assert(v[0] == gs[k][0]);
    lemma_first_zwj(v, 1);
    assert(crate::store::parse::first_zwj(v, 0) == crate::store::parse::first_zwj(v, 1));
}

/// The replay state after a write that changed nothing: the cells, the
/// last change and the output before the pending text stay; `cut` grows.
pub open spec fn replayed(a: ParseState, b: ParseState) -> bool {
    &&& b.cells == a.cells
    &&& b.freeze == a.freeze
    &&& b.out.len() - b.pending == a.out.len() - a.pending
    &&& b.out.len() >= a.out.len()
    &&& b.out.take(a.out.len() as int) == a.out
    &&& b.pending >= a.pending
    &&& a.cut <= b.cut <= 9
    &&& (b.pending > a.pending ==> b.cut > 0)
}

/// Writing a one-cell value over a cell that holds it changes nothing.
proof fn lemma_replay_one(env: ParseEnv, s2: ParseState, ch: char, cell: CellView)
    requires
        0 <= s2.index < s2.cells.len(),
        s2.cells[s2.index] == cell,
        0 <= s2.cut <= 9,
        s2.pending >= 0,
        s2.out.len() >= s2.pending,
    ensures
        write_one(env, s2, ch, cell) matches Some(t) && t.index == s2.index + 1 && replayed(s2, t)
            && t.pending > s2.pending,
{
    assert(s2.out.push(ch).take(s2.out.len() as int) =~= s2.out);
}

/// Writing a wide value and its right half over cells that hold them
/// changes nothing.
proof fn lemma_replay_wide(env: ParseEnv, s2: ParseState, text: Seq<char>, cell: CellView)
    requires
        0 <= s2.index,
        s2.index + 1 < s2.cells.len(),
        s2.cells[s2.index] == cell,
        s2.cells[s2.index + 1] == CellView::Link,
        0 <= s2.cut <= 9,
        s2.pending >= 0,
        s2.out.len() >= s2.pending,
    ensures
        write_wide(env, s2, text, cell) matches Some(t) && t.index == s2.index + 2 && replayed(s2, t)
            && (text.len() > 0 ==> t.pending > s2.pending),
{
    lemma_utf8_len_at_least(text);
    assert((s2.out + text).take(s2.out.len() as int) =~= s2.out);
}

/// Replaying a step over the cells it left: where the cells already hold
/// what the step writes, it writes the same text, changes nothing and ends
/// at the same cursor.
#[verifier::rlimit(40)]
proof fn lemma_step_replay(env: ParseEnv, gs: Seq<Seq<char>>, k: int, s1: ParseState, s2: ParseState, len: int)
    requires
        forward_state(s1, len),
        env.w > 0,
        env.h > 0,
        env.tab >= 1,
        0 <= k < gs.len(),
        !moves_cursor(gs[k]),
        step(env, gs, k, s1) is Some,
        s2.cells.len() == len,
        s2.index == s1.index,
        0 <= s2.cut <= 9,
        s2.pending >= 0,
        s2.out.len() >= s2.pending,
        ({
            let s1n = (step(env, gs, k, s1)->0).1;
            forall|q: int| s1.index <= q < s1n.index ==> #[trigger] s2.cells[q] == s1n.cells[q]
        }),
    ensures
        ({
            let (k2, s1n) = step(env, gs, k, s1)->0;
            step(env, gs, k, s2) matches Some((k3, t)) && {
                &&& k3 == k2
                &&& t.index == s1n.index
                &&& replayed(s2, t)
                &&& (!(gs[k].len() > 0 && gs[k][0] == ZWJ) && t.index != s2.index ==> t.pending > s2.pending)
            }
        }),
{
    let g = gs[k];
    let p = s1.index;
    let (k2, s1n) = step(env, gs, k, s1)->0;
    assert(s2.out.take(s2.out.len() as int) =~= s2.out);
    if g.len() == 1 {
        let car = g[0];
        match display_width(car) {
            Some(wd) => {
                if wd == 1 {
                    let cell = if car == ' ' { CellView::Nil } else { CellView::Single(car, env.style) };
                    let out1 = s1.out.push(car);
                    let cut1 = bump(s1.cut, crate::unicode::utf8_len(car) as int);
                    lemma_patch_narrow(s1.cells, out1, s1.pending + 1, cut1, env.w, p, cell);
                    assert(s1n == write_one(env, s1, car, cell)->0);
                    assert(s2.cells[p] == s1n.cells[p]);
                    lemma_replay_one(env, s2, car, cell);
                    assert(step(env, gs, k, s2) == Some((k + 1, write_one(env, s2, car, cell)->0)));
                } else if wd == 2 {
                    let nextc = if k + 1 < gs.len() && gs[k + 1].len() > 0 { gs[k + 1][0] } else { '0' };
                    if is_modifier(nextc) {
                        let end = group_end(gs, k + 2);
                        lemma_group_end(gs, k + 2);
                        let v = gs.subrange(k, end).flatten();
                        let wv = clip(width_sum(v));
                        let text = multi_text(v, wv as int, env.can_modify);
                        let cell = CellView::Multi(v, wv, env.style);
                        if !(g[0] == ZWJ) {
                            lemma_multi_text_nonempty(gs, k, end, wv as int, env.can_modify);
                        }
                        let out1 = s1.out + text;
                        let cut1 = bump(s1.cut, seq_utf8_len(text));
                        lemma_patch_wide(s1.cells, out1, s1.pending + text.len(), cut1, env.w, p, cell);
                        assert(s1n == write_wide(env, s1, text, cell)->0);
                        assert(s2.cells[p] == s1n.cells[p] && s2.cells[p + 1] == s1n.cells[p + 1]);
                        lemma_replay_wide(env, s2, text, cell);
                        assert(step(env, gs, k, s2) == Some((end, write_wide(env, s2, text, cell)->0)));
                    } else {
                        let text = seq![car];
                        let cell = CellView::Double(car, env.style);
                        let out1 = s1.out + text;
                        let cut1 = bump(s1.cut, seq_utf8_len(text));
                        lemma_patch_wide(s1.cells, out1, s1.pending + text.len(), cut1, env.w, p, cell);
                        assert(s1n == write_wide(env, s1, text, cell)->0);
                        assert(s2.cells[p] == s1n.cells[p] && s2.cells[p + 1] == s1n.cells[p + 1]);
                        lemma_replay_wide(env, s2, text, cell);
                        assert(step(env, gs, k, s2) == Some((k + 1, write_wide(env, s2, text, cell)->0)));
                    }
                }
            },
            None => {
                if car == '\x1B' {
                    let cell = CellView::Single('^', env.style);
                    let out1 = s1.out.push('^');
                    let cut1 = bump(s1.cut, crate::unicode::utf8_len('^') as int);
                    lemma_patch_narrow(s1.cells, out1, s1.pending + 1, cut1, env.w, p, cell);
                    assert(s1n == write_one(env, s1, '^', cell)->0);
                    assert(s2.cells[p] == s1n.cells[p]);
                    lemma_replay_one(env, s2, '^', cell);
                    assert(step(env, gs, k, s2) == Some((k + 1, write_one(env, s2, '^', cell)->0)));
                }
            },
        }
    } else if g.len() > 1 {
        let end = group_end(gs, k + 1);
        lemma_group_end(gs, k + 1);
        let v = gs.subrange(k, end).flatten();
        let wv = clip(width_sum(v));
        let cell = CellView::Multi(v, wv, env.style);
        let text = multi_text(v, wv as int, env.can_modify);
        if !(g[0] == ZWJ) {
            lemma_multi_text_nonempty(gs, k, end, wv as int, env.can_modify);
        }
        let out1 = s1.out + text;
        let cut1 = bump(s1.cut, seq_utf8_len(text));
        lemma_patch_wide(s1.cells, out1, s1.pending + text.len(), cut1, env.w, p, cell);
        assert(s1n == write_wide(env, s1, text, cell)->0);
        assert(s2.cells[p] == s1n.cells[p] && s2.cells[p + 1] == s1n.cells[p + 1]);
        lemma_replay_wide(env, s2, text, cell);
        assert(step(env, gs, k, s2) == Some((end, write_wide(env, s2, text, cell)->0)));
    }
}

/// Replaying the steps from cluster `k` on over the cells the first pass
/// left: nothing changes, the output before the pending text stays, and the
/// cursor ends where the first pass ended.
proof fn lemma_run_replay(
    env: ParseEnv,
    gs: Seq<Seq<char>>,
    k: int,
    s1: ParseState,
    s2: ParseState,
    out0: Seq<char>,
    i0: int,
    len: int,
    nz: bool,
)
    requires
        forward_state(s1, len),
        env.w > 0,
        env.h > 0,
        env.tab >= 1,
        forall|j: int| 0 <= j < gs.len() ==> !moves_cursor(#[trigger] gs[j]),
        nz ==> forall|j: int| 0 <= j < gs.len() ==> !(#[trigger] gs[j].len() > 0 && gs[j][0] == ZWJ),
        run(env, gs, k, s1) is Some,
        s2.cells == (run(env, gs, k, s1)->0).cells,
        s2.cells.len() == len,
        s2.index == s1.index,
        0 <= s2.cut <= 9,
        s2.pending >= 0,
        s2.out.len() >= s2.pending,
        s2.out.len() - s2.pending == out0.len(),
        s2.out.take(out0.len() as int) == out0,
        s2.freeze == i0,
        s2.pending > 0 ==> s2.cut > 0,
        nz && s2.pending == 0 ==> s2.index == i0,
    ensures
        run(env, gs, k, s2) matches Some(t) && {
            &&& t.cells == s2.cells
            &&& t.index == (run(env, gs, k, s1)->0).index
            &&& 0 <= t.cut <= 9
            &&& t.pending >= 0
            &&& t.out.len() >= t.pending
            &&& t.out.len() - t.pending == out0.len()
            &&& t.out.take(out0.len() as int) == out0
            &&& t.freeze == i0
            &&& (t.pending > 0 ==> t.cut > 0)
            &&& (nz && t.pending == 0 ==> t.index == i0)
        },
    decreases gs.len() - k,
{
    if 0 <= k < gs.len() {
        let sf = run(env, gs, k, s1)->0;
        let (k2, s1n) = step(env, gs, k, s1)->0;
        lemma_step_forward(env, gs, k, s1, len);
        if k2 < gs.len() {
            lemma_run_forward(env, gs, k2, s1n, len);
        }
        lemma_step_replay(env, gs, k, s1, s2, len);
        let (k3, t1) = step(env, gs, k, s2)->0;
        assert(t1.out.take(out0.len() as int) =~= s2.out.take(out0.len() as int));
        if k2 < gs.len() {
            lemma_run_replay(env, gs, k2, s1n, t1, out0, i0, len, nz);
        }
    }
}

/// Text that the screen already shows is not sent again: where a text
/// (with no tab, line feed or carriage return) was written from the
/// cursor, writing it again from the same cell over the cells it left
/// changes no cell and adds nothing to the output; and unless an emoji
/// sequence of it starts with a joiner (which writes no text), the cursor
/// stays on that cell, as the terminal's does, having received nothing.
pub proof fn law_rewrite_after_write_sends_nothing(b: Buffer, b2: Buffer, gs: Seq<Seq<char>>)
    requires
        b.wf(),
        paired(b.cells_view()),
        forall|j: int| 0 <= j < gs.len() ==> !moves_cursor(#[trigger] gs[j]),
        b.parsed(gs) is Some,
        b2.wf(),
        b2.env() == b.env(),
        b2.cells_view() == (b.parsed(gs)->0).0,
        b2.index == cursor_fix(b.cells_view(), b.width * b.height, b.index as int).1,
    ensures
        b2.parsed(gs) matches Some((c2, o2, i2)) && {
            &&& c2 == b2.cells_view()
            &&& o2 == b2.strbuf@
            &&& ((forall|j: int| 0 <= j < gs.len() ==> !(#[trigger] gs[j].len() > 0 && gs[j][0] == ZWJ))
                ==> i2 == b2.index)
        },
{
    let env = b.env();
    let cells = b.cells_view();
    let cap = b.width * b.height;
    let len = cells.len() as int;
    assert(cap >= 1) by (nonlinear_arith)
        requires
            b.width >= 1,
            b.height >= 1,
            cap == b.width * b.height,
    ;
    lemma_cursor_fix(cells, cap, b.index as int);
    let i0 = cursor_fix(cells, cap, b.index as int).1;
    assert(!(cells[i0] is Link)) by {
        if cells[i0] is Link {
            assert(is_wide(cells[i0 - 1]));
            if (b.index as int) < len {
                assert(cells[b.index as int] is Link ==> is_wide(cells[b.index - 1]));
            } else {
                assert(cells.take(cap) =~= cells);
                assert(cells[cap - 1] is Link ==> is_wide(cells[cap - 2]));
            }
        }
    }
    let st0 = ParseState { cells, out: b.strbuf@, index: i0, cut: 0, pending: 0, freeze: i0 };
    lemma_run_forward(env, gs, 0, st0, len);
    let sf = run(env, gs, 0, st0)->0;
    let i = if sf.cut > 0 { sf.freeze } else { sf.index };
    lemma_cursor_fix(sf.cells, cap, i);
    let cf = sf.cells;
    assert(b2.cells_view() == cf);
    let nz = forall|j: int| 0 <= j < gs.len() ==> !(#[trigger] gs[j].len() > 0 && gs[j][0] == ZWJ);
    lemma_cursor_fix(cf, cap, i0);
    assert(cursor_fix(cf, cap, i0) == (cf, i0));
    let out0 = b2.strbuf@;
    let st2 = ParseState { cells: cf, out: out0, index: i0, cut: 0, pending: 0, freeze: i0 };
    assert(out0.take(out0.len() as int) =~= out0);
    lemma_run_replay(env, gs, 0, st0, st2, out0, i0, len, nz);
    let t = run(env, gs, 0, st2)->0;
    let i2 = if t.cut > 0 { t.freeze } else { t.index };
    lemma_cursor_fix(t.cells, cap, i2);
    if t.cut > 0 {
        assert(t.out.take(t.out.len() - t.pending) =~= out0);
    } else {
        assert(t.out =~= out0) by {
            assert(t.out.take(out0.len() as int) == out0);
        }
    }
}

} // verus!
