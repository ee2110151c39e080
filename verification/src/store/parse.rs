//! Writing text into the screen model.
//!
//! `Buffer::parse` walks the grapheme clusters of a text. Printable ones are
//! written into the cells at the cursor and to the output; tab, line feed
//! and carriage return move the cursor. Text that the screen already shows
//! is not sent again: once more than 8 bytes of unchanged text have been
//! written since the last change (the length of a cursor move), the next
//! change replaces them with a cursor move, and unchanged text at the end is
//! dropped.

use vstd::prelude::*;
use crate::enums::Color;
use crate::ansi::cursor::csi_num;
use crate::store::buffer::{Buffer, Cell, CellView, cursor_fix, tabstop_of, cell_text, cell_views, lemma_coord, copy_chars};
use crate::text::{decimal, decimal_nat, push_nat_chars, push_chars};
use crate::unicode::{display_width, utf8_len, len_utf8, char_width, cluster_views, extended_graphemes, graphemes};

verus! {

/// The zero-width joiner, which glues emoji into one sequence.
pub const ZWJ: char = '\u{200d}';

/// What a parse reads from the buffer besides its cells and output: the
/// size, the tab width, the style of new cells and whether emoji modifiers
/// are written out.
pub ghost struct ParseEnv {
    pub w: int,
    pub h: int,
    pub tab: int,
    pub style: (Color, Color, u32),
    pub can_modify: bool,
}

/// The state of a parse between two grapheme clusters.
pub ghost struct ParseState {
    pub cells: Seq<CellView>,
    pub out: Seq<char>,
    /// The cursor, as a cell index.
    pub index: int,
    /// The bytes of unchanged text written since the last change, counted
    /// up to 9 (one more than a cursor move takes).
    pub cut: int,
    /// The characters of unchanged text written since the last change.
    pub pending: int,
    /// The cursor just after the last change.
    pub freeze: int,
}

/// The emoji modifiers: skin tones, gender signs and hair styles.
pub open spec fn is_modifier(c: char) -> bool {
    ||| (0x1F3FB <= (c as u32) && (c as u32) <= 0x1F3FF)
    ||| c == '\u{2640}'
    ||| c == '\u{2642}'
    ||| (0x1F9B0 <= (c as u32) && (c as u32) <= 0x1F9B3)
}

/// `cut` after `n` more bytes, counted up to 9.
pub open spec fn bump(cut: int, n: int) -> int {
    if cut + n > 9 { 9 } else { cut + n }
}

/// The number of bytes of the UTF-8 encoding of a character sequence.
pub open spec fn seq_utf8_len(s: Seq<char>) -> int
    decreases s.len(),
{
    if s.len() == 0 { 0 } else { seq_utf8_len(s.drop_last()) + utf8_len(s.last()) }
}

/// The sum of the widths of the characters (a control character counts 0).
pub open spec fn width_sum(s: Seq<char>) -> int
    decreases s.len(),
{
    if s.len() == 0 {
        0
    } else {
        width_sum(s.drop_last()) + match display_width(s.last()) {
            Some(w) => w as int,
            None => 0,
        }
    }
}

/// `n` as a `usize`, saturating at `usize::MAX`.
pub open spec fn clip(n: int) -> usize {
    if n > usize::MAX { usize::MAX } else { n as usize }
}

/// The position of the first zero-width joiner at or after `i`, or the
/// length when there is none.
pub open spec fn first_zwj(v: Seq<char>, i: int) -> int
    decreases v.len() - i,
{
    if i < 0 || i >= v.len() {
        v.len() as int
    } else if v[i] == ZWJ {
        i
    } else {
        first_zwj(v, i + 1)
    }
}

/// What is written out for an emoji sequence `v` of width `w`: for a wide
/// one, the part before the first joiner (only its first character when
/// modifiers are not written out); else all of it.
pub open spec fn multi_text(v: Seq<char>, w: int, can_modify: bool) -> Seq<char> {
    if w >= 2 {
        let p = v.take(first_zwj(v, 0));
        if can_modify || p.len() == 0 { p } else { p.take(1) }
    } else {
        v
    }
}

/// The end of an emoji sequence that holds the clusters before `j`: it
/// goes on while the last cluster taken ends with a joiner.
pub open spec fn group_end(gs: Seq<Seq<char>>, j: int) -> int
    decreases gs.len() - j,
{
    if 0 < j < gs.len() && gs[j - 1].len() > 0 && gs[j - 1].last() == ZWJ {
        group_end(gs, j + 1)
    } else {
        j
    }
}

/// The cursor move to cell `index` that replaces unchanged text:
/// `ESC [ row ; col H`, with the 0-based row and column.
pub open spec fn goto_text(w: int, index: int) -> Seq<char> {
    seq!['\x1B', '['] + decimal(index / w) + seq![';'] + decimal(index % w) + seq!['H']
}

/// Writing `cell` at `index`, with `out` the output so far and `pending`
/// characters (`cut` bytes) of unchanged text at its end. Gives the new
/// cells and output and whether the cell changed; `None` where the index is
/// out of range, or where the old cell is the left half of a wide character
/// in the last cell or its right half in the first.
pub open spec fn patch(
    cells: Seq<CellView>,
    out: Seq<char>,
    pending: int,
    cut: int,
    w: int,
    index: int,
    cell: CellView,
) -> Option<(Seq<CellView>, Seq<char>, bool)> {
    if !(0 <= index < cells.len()) {
        None
    } else if cells[index] == cell {
        Some((cells, out, false))
    } else {
        let out2 = if cut > 8 && !(cell is Multi) {
            out.take(out.len() - pending) + goto_text(w, index) + cell_text(cell)
        } else {
            out
        };
        match cells[index] {
            CellView::Link => if index >= 1 {
                Some((cells.update(index - 1, CellView::Nil).update(index, cell), out2, true))
            } else {
                None
            },
            CellView::Double(..) => if index + 1 < cells.len() {
                Some((cells.update(index + 1, CellView::Nil).update(index, cell), out2, true))
            } else {
                None
            },
            CellView::Multi(..) => if index + 1 < cells.len() {
                Some((cells.update(index + 1, CellView::Nil).update(index, cell), out2, true))
            } else {
                None
            },
            _ => Some((cells.update(index, cell), out2, true)),
        }
    }
}

/// The state after a write that ends with the cursor at `index`: a change
/// starts a new run of unchanged text.
pub open spec fn settle(
    cells: Seq<CellView>,
    out: Seq<char>,
    changed: bool,
    index: int,
    cut: int,
    pending: int,
    freeze: int,
) -> ParseState {
    if changed {
        ParseState { cells, out, index, cut: 0, pending: 0, freeze: index }
    } else {
        ParseState { cells, out, index, cut, pending, freeze }
    }
}

/// Writes the character `ch` and the one-cell `cell` at the cursor.
pub open spec fn write_one(env: ParseEnv, st: ParseState, ch: char, cell: CellView) -> Option<ParseState> {
    let out1 = st.out.push(ch);
    let cut1 = bump(st.cut, utf8_len(ch) as int);
    let pend1 = st.pending + 1;
    match patch(st.cells, out1, pend1, cut1, env.w, st.index, cell) {
        None => None,
        Some((c, o, r)) => Some(settle(c, o, r, st.index + 1, cut1, pend1, st.freeze)),
    }
}

/// Writes `text` and the two-cell `cell` (with a `Link` to its right) at
/// the cursor.
pub open spec fn write_wide(env: ParseEnv, st: ParseState, text: Seq<char>, cell: CellView) -> Option<ParseState> {
    let out1 = st.out + text;
    let cut1 = bump(st.cut, seq_utf8_len(text));
    let pend1 = st.pending + text.len();
    match patch(st.cells, out1, pend1, cut1, env.w, st.index, cell) {
        None => None,
        Some((c, o, r)) => match patch(c, o, 0, 0, env.w, st.index + 1, CellView::Link) {
            None => None,
            Some((c2, o2, r2)) => Some(settle(c2, o2, r, st.index + 2, cut1, pend1, st.freeze)),
        },
    }
}

/// Moves the cursor to `index`, writing the escape sequence `text`.
pub open spec fn move_to(st: ParseState, text: Seq<char>, index: int) -> ParseState {
    ParseState { cells: st.cells, out: st.out + text, index, cut: 0, pending: 0, freeze: index }
}

/// A tab: to the next tab stop of the row, when that is to the right.
pub open spec fn tab_move(env: ParseEnv, st: ParseState) -> ParseState {
    let (col, row) = (st.index % env.w, st.index / env.w);
    let t = tabstop_of(env.w, env.tab, col, row);
    if t - st.index > 0 { move_to(st, csi_num(t - st.index, 'C'), t) } else { st }
}

/// A line feed: one row down in the same column, or the last row.
pub open spec fn line_feed(env: ParseEnv, st: ParseState) -> ParseState {
    let (col, row) = (st.index % env.w, st.index / env.w);
    let r = if env.h > row + 1 { row + 1 } else { env.h - 1 };
    move_to(st, seq!['\x1B', '[', 'B'], r * env.w + col)
}

/// A carriage return: to the start of the row.
pub open spec fn carriage_return(env: ParseEnv, st: ParseState) -> ParseState {
    let (col, row) = (st.index % env.w, st.index / env.w);
    move_to(st, csi_num(col, 'D'), row * env.w)
}

/// A carriage return and line feed: to the start of the next row, or of
/// the last row.
pub open spec fn new_line(env: ParseEnv, st: ParseState) -> ParseState {
    let row = st.index / env.w;
    let r = if env.h > row + 1 { row + 1 } else { env.h - 1 };
    move_to(st, seq!['\x1B', '[', '0', ';'] + decimal(r) + seq!['H'], r * env.w)
}

/// The emoji sequence made of the clusters `k..end`.
pub open spec fn multi_step(
    env: ParseEnv,
    gs: Seq<Seq<char>>,
    k: int,
    end: int,
    st: ParseState,
) -> Option<(int, ParseState)> {
    let v = gs.subrange(k, end).flatten();
    let w = clip(width_sum(v));
    match write_wide(env, st, multi_text(v, w as int, env.can_modify), CellView::Multi(v, w, env.style)) {
        None => None,
        Some(s) => Some((end, s)),
    }
}

/// What the cluster `gs[k]` (with those after it that it takes) does: the
/// index of the next cluster and the new state, or `None` where writing
/// would go past the cells.
pub open spec fn step(env: ParseEnv, gs: Seq<Seq<char>>, k: int, st: ParseState) -> Option<(int, ParseState)> {
    let g = gs[k];
    if g.len() == 0 {
        Some((k + 1, st))
    } else if g.len() == 1 {
        let car = g[0];
        match display_width(car) {
            Some(wd) => if wd == 1 {
                let cell = if car == ' ' { CellView::Nil } else { CellView::Single(car, env.style) };
                match write_one(env, st, car, cell) {
                    None => None,
                    Some(s) => Some((k + 1, s)),
                }
            } else if wd == 2 {
                let nextc = if k + 1 < gs.len() && gs[k + 1].len() > 0 { gs[k + 1][0] } else { '0' };
                if is_modifier(nextc) {
                    multi_step(env, gs, k, group_end(gs, k + 2), st)
                } else {
                    match write_wide(env, st, seq![car], CellView::Double(car, env.style)) {
                        None => None,
                        Some(s) => Some((k + 1, s)),
                    }
                }
            } else {
                Some((k + 1, st))
            },
            None => if car == '\t' {
                Some((k + 1, tab_move(env, st)))
            } else if car == '\n' {
                Some((k + 1, line_feed(env, st)))
            } else if car == '\r' {
                Some((k + 1, carriage_return(env, st)))
            } else if car == '\x1B' {
                match write_one(env, st, '^', CellView::Single('^', env.style)) {
                    None => None,
                    Some(s) => Some((k + 1, s)),
                }
            } else {
                Some((k + 1, st))
            },
        }
    } else if g[0] == '\r' && g[1] == '\n' {
        Some((k + 1, new_line(env, st)))
    } else {
        multi_step(env, gs, k, group_end(gs, k + 1), st)
    }
}

/// The clusters from `k` on, one step after another.
pub open spec fn run(env: ParseEnv, gs: Seq<Seq<char>>, k: int, st: ParseState) -> Option<ParseState>
    decreases gs.len() - k,
{
    if k < 0 || k >= gs.len() {
        Some(st)
    } else {
        match step(env, gs, k, st) {
            None => None,
            Some((k2, s2)) => if k2 <= k {
                None
            } else if k2 >= gs.len() {
                Some(s2)
            } else {
                run(env, gs, k2, s2)
            },
        }
    }
}

/// The cells, the output and the cursor after a parse of `gs`: trailing
/// unchanged text is dropped (the cursor then goes back to just after the
/// last change, or to where it started when nothing changed, which is where
/// the terminal's cursor stays), and the cursor settles as `Buffer::cursor` does. `None`
/// where writing would go past the cells.
pub open spec fn parse_result(
    env: ParseEnv,
    cells: Seq<CellView>,
    out: Seq<char>,
    index: int,
    gs: Seq<Seq<char>>,
) -> Option<(Seq<CellView>, Seq<char>, int)> {
    let (c0, i0) = cursor_fix(cells, env.w * env.h, index);
    let st0 = ParseState { cells: c0, out, index: i0, cut: 0, pending: 0, freeze: i0 };
    match run(env, gs, 0, st0) {
        None => None,
        Some(st) => {
            let (o, i) = if st.cut > 0 {
                (st.out.take(st.out.len() - st.pending), st.freeze)
            } else {
                (st.out, st.index)
            };
            let (c2, i2) = cursor_fix(st.cells, env.w * env.h, i);
            Some((c2, o, i2))
        },
    }
}

impl Buffer {
    /// What a parse reads from the buffer besides its cells and output.
    pub open spec fn env(&self) -> ParseEnv {
        ParseEnv {
            w: self.width as int,
            h: self.height as int,
            tab: self.tabwidth as int,
            style: self.style,
            can_modify: self.can_modify,
        }
    }

    /// The cells, the output and the cursor after a parse of `gs`.
    pub open spec fn parsed(&self, gs: Seq<Seq<char>>) -> Option<(Seq<CellView>, Seq<char>, int)> {
        parse_result(self.env(), self.cells_view(), self.strbuf@, self.index as int, gs)
    }
}

/// The cursor and the run of unchanged text during a parse.
#[derive(Clone, Copy)]
pub struct Progress {
    pub index: usize,
    pub cut: usize,
    pub pending: usize,
    pub freeze: usize,
}

/// The parse state that a buffer and a progress stand for.
pub open spec fn state_of(b: &Buffer, p: Progress) -> ParseState {
    ParseState {
        cells: b.cells_view(),
        out: b.strbuf@,
        index: p.index as int,
        cut: p.cut as int,
        pending: p.pending as int,
        freeze: p.freeze as int,
    }
}

/// What stays fixed during a parse.
pub open spec fn keeps(a: &Buffer, b: &Buffer) -> bool {
    &&& a.width == b.width
    &&& a.height == b.height
    &&& a.style == b.style
    &&& a.savedpos == b.savedpos
    &&& a.tabwidth == b.tabwidth
    &&& a.use_winapi == b.use_winapi
    &&& a.can_modify == b.can_modify
    &&& a.index == b.index
}

/// A progress that fits the buffer: the cursor stays within the row past
/// the last one, and the pending text is at the end of the output.
pub open spec fn fits(b: &Buffer, p: Progress) -> bool {
    &&& b.wf()
    &&& p.index < b.width * (b.height + 1)
    &&& p.freeze < b.width * (b.height + 1)
    &&& p.cut <= 9
    &&& p.pending <= b.strbuf@.len()
}

/// The cell index of the next tab stop from (col, row) (see `tabstop_of`).
fn tab_target(w: usize, tab: usize, col: usize, row: usize) -> (res: usize)
    requires
        1 <= tab <= 32767,
        col < w,
        row * w + w <= 2 * 32767,
    ensures
        res == tabstop_of(w as int, tab as int, col as int, row as int),
        res <= row * w + w - 1,
{
    proof {
        vstd::arithmetic::div_mod::lemma_fundamental_div_mod(col as int, tab as int);
        vstd::arithmetic::mul::lemma_mul_is_commutative(tab as int, col as int / tab as int);
        vstd::arithmetic::div_mod::lemma_div_pos_is_pos(col as int, tab as int);
        vstd::arithmetic::div_mod::lemma_mod_bound(col as int, tab as int);
    }
    let prev = col - col % tab;
    assert(prev == (col as int / tab as int) * tab as int);
    let last = w - 1;
    let next = if prev + tab > last {
        last
    } else {
        prev + tab
    };
    row * w + next
}

impl Buffer {
    /// Appends the cursor move to cell `index` that replaces unchanged text.
    fn push_goto(&mut self, index: usize)
        requires
            old(self).wf(),
        ensures
            final(self).strbuf@ == old(self).strbuf@ + goto_text(old(self).width as int, index as int),
            final(self).cells == old(self).cells,
            keeps(final(self), old(self)),
    {
        let w = self.width as usize;
        let row = index / w;
        let col = index % w;
        self.strbuf.push('\x1B');
        self.strbuf.push('[');
        push_nat_chars(&mut self.strbuf, row as u64);
        self.strbuf.push(';');
        push_nat_chars(&mut self.strbuf, col as u64);
        self.strbuf.push('H');
        assert(self.strbuf@ =~= old(self).strbuf@ + goto_text(old(self).width as int, index as int));
    }

    /// Appends what a changed cell shows (nothing for a `Link`).
    fn push_cell_text(&mut self, cell: &Cell)
        requires
            !(cell@ is Multi),
        ensures
            final(self).strbuf@ == old(self).strbuf@ + cell_text(cell@),
            final(self).cells == old(self).cells,
            keeps(final(self), old(self)),
    {
        match cell {
            Cell::Single(ch, ..) => self.strbuf.push(*ch),
            Cell::Double(ch, ..) => self.strbuf.push(*ch),
            Cell::NIL => self.strbuf.push(' '),
            _ => {},
        }
        assert(self.strbuf@ =~= old(self).strbuf@ + cell_text(cell@));
    }

    /// Writes `cell` at `index` (see `patch`); `pending` characters and
    /// `cut` bytes of unchanged text end the output. Returns whether the
    /// cell changed, or `None`, with nothing changed, where `patch` gives
    /// `None`.
    fn patch_cell(&mut self, cell: Cell, index: usize, cut: usize, pending: usize) -> (res: Option<bool>)
        requires
            old(self).wf(),
            pending <= old(self).strbuf@.len(),
            cell@ is Link ==> index >= 1,
        ensures
            final(self).wf(),
            keeps(final(self), old(self)),
            match patch(
                old(self).cells_view(),
                old(self).strbuf@,
                pending as int,
                cut as int,
                old(self).width as int,
                index as int,
                cell@,
            ) {
                None => res is None && final(self).cells == old(self).cells && final(self).strbuf
                    == old(self).strbuf,
                Some((c, o, r)) => res == Some(r) && final(self).cells_view() == c
                    && final(self).strbuf@ == o,
            },
    {
        if index >= self.cells.len() {
            return None;
        }
        assert(cell_views(self.cells@)[index as int] == self.cells@[index as int]@);
        if self.cells[index].same(&cell) {
            return Some(false);
        }
        let len = self.cells.len();
        let side: Option<usize> = match &self.cells[index] {
            Cell::Link => Some(index - 1),
            Cell::Double(..) => if index + 1 < len { Some(index + 1) } else { return None },
            Cell::Multi(..) => if index + 1 < len { Some(index + 1) } else { return None },
            _ => None,
        };
        if cut > 8 {
            match &cell {
                Cell::Multi(..) => {},
                _ => {
                    let keep = self.strbuf.len() - pending;
                    self.strbuf.truncate(keep);
                    self.push_goto(index);
                    self.push_cell_text(&cell);
                },
            }
        }
        let ghost before = self.cells@;
        match side {
            Some(j) => {
                self.cells.set(j, Cell::NIL);
            },
            None => {},
        }
        let ghost mid = self.cells@;
        self.cells.set(index, cell);
        proof {
            let v = old(self).cells_view();
            assert(cell_views(mid) =~= (match side {
                Some(j) => v.update(j as int, CellView::Nil),
                None => v,
            }));
            assert(cell_views(self.cells@) =~= cell_views(mid).update(index as int, cell@));
        }
        Some(true)
    }
}

/// `bump(cut, n)`, for `cut` up to 9.
fn bump_by(cut: usize, n: usize) -> (res: usize)
    requires
        cut <= 9,
    ensures
        res == bump(cut as int, n as int),
{
    if n > 9 - cut { 9 } else { cut + n }
}

/// `bump(cut, seq_utf8_len(text))`: the bytes of `text` added to `cut`,
/// counted up to 9.
fn bump_by_text(cut: usize, text: &Vec<char>) -> (res: usize)
    requires
        cut <= 9,
    ensures
        res == bump(cut as int, seq_utf8_len(text@)),
{
    let mut c = cut;
    let mut i: usize = 0;
    while i < text.len()
        invariant
            i <= text@.len(),
            cut <= 9,
            c == bump(cut as int, seq_utf8_len(text@.take(i as int))),
        decreases text.len() - i,
    {
        let n = len_utf8(text[i]);
        proof {
            let t = text@.take(i as int + 1);
            assert(t.drop_last() =~= text@.take(i as int));
            assert(t.last() == text@[i as int]);
        }
        c = bump_by(c, n);
        i += 1;
    }
    assert(text@.take(text@.len() as int) =~= text@);
    c
}

impl Buffer {
    /// Appends `ESC [ n fin`.
    fn push_csi(&mut self, n: usize, fin: char)
        ensures
            final(self).strbuf@ == old(self).strbuf@ + csi_num(n as int, fin),
            final(self).cells == old(self).cells,
            keeps(final(self), old(self)),
    {
        self.strbuf.push('\x1B');
        self.strbuf.push('[');
        push_nat_chars(&mut self.strbuf, n as u64);
        self.strbuf.push(fin);
        assert(self.strbuf@ =~= old(self).strbuf@ + csi_num(n as int, fin));
    }

    /// Writes `ch` and the one-cell `cell` at the cursor (see `write_one`).
    fn write_one_cell(&mut self, p: &mut Progress, ch: char, cell: Cell) -> (ok: bool)
        requires
            fits(old(self), *old(p)),
            !(cell@ is Link),
        ensures
            final(self).wf(),
            keeps(final(self), old(self)),
            match write_one(old(self).env(), state_of(old(self), *old(p)), ch, cell@) {
                None => !ok,
                Some(s) => ok && state_of(final(self), *final(p)) == s && fits(final(self), *final(p)),
            },
    {
        self.strbuf.push(ch);
        let total = self.strbuf.len();
        let cut1 = bump_by(p.cut, len_utf8(ch));
        let pend1 = p.pending + 1;
        match self.patch_cell(cell, p.index, cut1, pend1) {
            None => false,
            Some(changed) => {
                let ni = p.index + 1;
                if changed {
                    *p = Progress { index: ni, cut: 0, pending: 0, freeze: ni };
                } else {
                    p.index = ni;
                    p.cut = cut1;
                    p.pending = pend1;
                }
                proof {
                    assert(self.width * self.height + self.width == self.width * (self.height + 1)) by (nonlinear_arith)
                        requires
                            self.width > 0,
                            self.height > 0,
                    ;
                }
                true
            },
        }
    }

    /// Writes `text` and the two-cell `cell` at the cursor (see
    /// `write_wide`).
    fn write_wide_cell(&mut self, p: &mut Progress, text: &Vec<char>, cell: Cell) -> (ok: bool)
        requires
            fits(old(self), *old(p)),
            !(cell@ is Link),
        ensures
            final(self).wf(),
            keeps(final(self), old(self)),
            match write_wide(old(self).env(), state_of(old(self), *old(p)), text@, cell@) {
                None => !ok,
                Some(s) => ok && state_of(final(self), *final(p)) == s && fits(final(self), *final(p)),
            },
    {
        push_chars(&mut self.strbuf, text);
        let total = self.strbuf.len();
        let cut1 = bump_by_text(p.cut, text);
        let pend1 = p.pending + text.len();
        match self.patch_cell(cell, p.index, cut1, pend1) {
            None => false,
            Some(changed) => {
                match self.patch_cell(Cell::Link, p.index + 1, 0, 0) {
                    None => false,
                    Some(_) => {
                        let ni = p.index + 2;
                        if changed {
                            *p = Progress { index: ni, cut: 0, pending: 0, freeze: ni };
                        } else {
                            p.index = ni;
                            p.cut = cut1;
                            p.pending = pend1;
                        }
                        proof {
                            assert(self.width * self.height + self.width == self.width * (self.height + 1)) by (nonlinear_arith)
                                requires
                                    self.width > 0,
                                    self.height > 0,
                            ;
                        }
                        true
                    },
                }
            },
        }
    }

    /// A tab (see `tab_move`).
    fn tab_step(&mut self, p: &mut Progress)
        requires
            fits(old(self), *old(p)),
        ensures
            state_of(final(self), *final(p)) == tab_move(old(self).env(), state_of(old(self), *old(p))),
            fits(final(self), *final(p)),
            keeps(final(self), old(self)),
    {
        let w = self.width as usize;
        let (col, row) = (p.index % w, p.index / w);
        proof {
            lemma_coord(w as int, self.height + 1, p.index as int);
            assert((row as int) * (w as int) + (w as int) == (row as int + 1) * (w as int)) by (nonlinear_arith);
            assert((row as int + 1) * (w as int) <= (w as int) * (self.height + 1)) by (nonlinear_arith)
                requires
                    row <= self.height,
                    w > 0,
            ;
            assert(self.width * (self.height + 1) <= 2 * 32767) by (nonlinear_arith)
                requires
                    self.width * self.height <= 32767,
                    self.width >= 1,
                    self.width <= 32767,
            ;
        }
        let t = tab_target(w, self.tabwidth, col, row);
        proof {
            assert(t <= row * w + w - 1);
            assert(row * w + w - 1 < self.width * (self.height + 1));
        }
        if t > p.index {
            let n = t - p.index;
            self.push_csi(n, 'C');
            *p = Progress { index: t, cut: 0, pending: 0, freeze: t };
        }
    }

    /// A line feed (see `line_feed`).
    fn line_feed_step(&mut self, p: &mut Progress)
        requires
            fits(old(self), *old(p)),
        ensures
            state_of(final(self), *final(p)) == line_feed(old(self).env(), state_of(old(self), *old(p))),
            fits(final(self), *final(p)),
            keeps(final(self), old(self)),
    {
        let w = self.width as usize;
        let h = self.height as usize;
        let (col, row) = (p.index % w, p.index / w);
        proof {
            lemma_coord(w as int, h + 1, p.index as int);
        }
        let r = if h > row + 1 { row + 1 } else { h - 1 };
        proof {
            assert(r * w + col < (r + 1) * w <= w * h) by (nonlinear_arith)
                requires
                    r < h,
                    col < w,
                    w > 0,
            ;
            assert(w * h < w * (h + 1)) by (nonlinear_arith)
                requires
                    w > 0,
            ;
        }
        self.strbuf.push('\x1B');
        self.strbuf.push('[');
        self.strbuf.push('B');
        let ni = r * w + col;
        *p = Progress { index: ni, cut: 0, pending: 0, freeze: ni };
        assert(self.strbuf@ =~= old(self).strbuf@ + seq!['\x1B', '[', 'B']);
    }

    /// A carriage return (see `carriage_return`).
    fn carriage_return_step(&mut self, p: &mut Progress)
        requires
            fits(old(self), *old(p)),
        ensures
            state_of(final(self), *final(p)) == carriage_return(old(self).env(), state_of(old(self), *old(p))),
            fits(final(self), *final(p)),
            keeps(final(self), old(self)),
    {
        let w = self.width as usize;
        let (col, row) = (p.index % w, p.index / w);
        proof {
            lemma_coord(w as int, self.height + 1, p.index as int);
        }
        self.push_csi(col, 'D');
        let ni = row * w;
        *p = Progress { index: ni, cut: 0, pending: 0, freeze: ni };
    }

    /// A carriage return with a line feed (see `new_line`).
    fn new_line_step(&mut self, p: &mut Progress)
        requires
            fits(old(self), *old(p)),
        ensures
            state_of(final(self), *final(p)) == new_line(old(self).env(), state_of(old(self), *old(p))),
            fits(final(self), *final(p)),
            keeps(final(self), old(self)),
    {
        let w = self.width as usize;
        let h = self.height as usize;
        let row = p.index / w;
        proof {
            lemma_coord(w as int, h + 1, p.index as int);
        }
        let r = if h > row + 1 { row + 1 } else { h - 1 };
        proof {
            assert(r * w < (r + 1) * w <= w * h) by (nonlinear_arith)
                requires
                    r < h,
                    w > 0,
            ;
            assert(w * h < w * (h + 1)) by (nonlinear_arith)
                requires
                    w > 0,
            ;
        }
        self.strbuf.push('\x1B');
        self.strbuf.push('[');
        self.strbuf.push('0');
        self.strbuf.push(';');
        push_nat_chars(&mut self.strbuf, r as u64);
        self.strbuf.push('H');
        let ni = r * w;
        *p = Progress { index: ni, cut: 0, pending: 0, freeze: ni };
        assert(self.strbuf@ =~= old(self).strbuf@ + (seq!['\x1B', '[', '0', ';'] + decimal(r as int) + seq!['H']));
    }
}

/// Whether `c` is an emoji modifier.
pub fn is_modifier_char(c: char) -> (res: bool)
    ensures
        res == is_modifier(c),
{
    let v = c as u32;
    (0x1F3FB <= v && v <= 0x1F3FF) || c == '\u{2640}' || c == '\u{2642}' || (0x1F9B0 <= v && v <= 0x1F9B3)
}

/// No sum of widths is negative.
proof fn lemma_width_sum_nonneg(s: Seq<char>)
    ensures
        width_sum(s) >= 0,
    decreases s.len(),
{
    if s.len() > 0 {
        lemma_width_sum_nonneg(s.drop_last());
    }
}

/// The sum of the widths of the characters, saturating at `usize::MAX`.
fn total_width(v: &Vec<char>) -> (res: usize)
    ensures
        res == clip(width_sum(v@)),
{
    let mut w: usize = 0;
    let mut i: usize = 0;
    while i < v.len()
        invariant
            i <= v@.len(),
            w == clip(width_sum(v@.take(i as int))),
        decreases v.len() - i,
    {
        let x: usize = match char_width(v[i]) {
            Some(n) => n,
            None => 0,
        };
        proof {
            let t = v@.take(i as int + 1);
            assert(t.drop_last() =~= v@.take(i as int));
            assert(t.last() == v@[i as int]);
            lemma_width_sum_nonneg(v@.take(i as int));
            assert(width_sum(t) == width_sum(v@.take(i as int)) + x);
        }
        w = if w > usize::MAX - x { usize::MAX } else { w + x };
        i += 1;
    }
    assert(v@.take(v@.len() as int) =~= v@);
    w
}

/// What is written out for an emoji sequence (see `multi_text`).
fn multi_text_of(v: &Vec<char>, w: usize, can_modify: bool) -> (res: Vec<char>)
    ensures
        res@ == multi_text(v@, w as int, can_modify),
{
    if w < 2 {
        return copy_chars(v);
    }
    let mut i: usize = 0;
    while i < v.len() && v[i] != ZWJ
        invariant
            i <= v@.len(),
            first_zwj(v@, 0) == first_zwj(v@, i as int),
        decreases v.len() - i,
    {
        i += 1;
    }
    let n = if can_modify || i == 0 { i } else { 1 };
    let mut out: Vec<char> = Vec::new();
    let mut j: usize = 0;
    while j < n
        invariant
            n <= i <= v@.len(),
            j <= n,
            out@ == v@.take(j as int),
        decreases n - j,
    {
        out.push(v[j]);
        j += 1;
        assert(out@ =~= v@.take(j as int));
    }
    proof {
        let p = v@.take(first_zwj(v@, 0));
        assert(first_zwj(v@, 0) == i);
        if !(can_modify || i == 0) {
            assert(p.take(1) =~= v@.take(1));
        }
    }
    out
}

/// `group_end` never goes back, and stays within the clusters.
proof fn lemma_group_end(gs: Seq<Seq<char>>, j: int)
    requires
        0 <= j <= gs.len(),
    ensures
        j <= group_end(gs, j) <= gs.len(),
    decreases gs.len() - j,
{
    if 0 < j < gs.len() && gs[j - 1].len() > 0 && gs[j - 1].last() == ZWJ {
        lemma_group_end(gs, j + 1);
    }
}

/// The end of the emoji sequence whose clusters before `j` are taken (see
/// `group_end`).
fn group_end_of(gs: &Vec<Vec<char>>, j: usize) -> (res: usize)
    requires
        j <= gs@.len(),
    ensures
        res == group_end(cluster_views(gs@), j as int),
{
    let ghost views = cluster_views(gs@);
    let mut e = j;
    loop
        invariant
            j <= e <= gs@.len(),
            views == cluster_views(gs@),
            group_end(views, j as int) == group_end(views, e as int),
        ensures
            group_end(views, j as int) == e,
        decreases gs.len() - e,
    {
        if e == 0 || e >= gs.len() {
            break;
        }
        let g = &gs[e - 1];
        assert(g@ == views[e - 1]);
        if g.len() > 0 && g[g.len() - 1] == ZWJ {
            e += 1;
        } else {
            break;
        }
    }
    e
}

/// The clusters `k..end`, joined.
fn join_clusters(gs: &Vec<Vec<char>>, k: usize, end: usize) -> (res: Vec<char>)
    requires
        k <= end <= gs@.len(),
    ensures
        res@ == cluster_views(gs@).subrange(k as int, end as int).flatten(),
{
    let ghost views = cluster_views(gs@);
    let mut v: Vec<char> = Vec::new();
    let mut i = k;
    assert(views.subrange(k as int, k as int) =~= Seq::<Seq<char>>::empty());
    while i < end
        invariant
            k <= i <= end <= gs@.len(),
            views == cluster_views(gs@),
            v@ == views.subrange(k as int, i as int).flatten(),
        decreases end - i,
    {
        push_chars(&mut v, &gs[i]);
        proof {
            let sr = views.subrange(k as int, i as int);
            assert(views.subrange(k as int, i as int + 1) =~= sr.push(views[i as int]));
            sr.lemma_flatten_push(views[i as int]);
        }
        i += 1;
    }
    v
}

/// A copy of the cells.
fn copy_cells(cells: &Vec<Cell>) -> (res: Vec<Cell>)
    ensures
        cell_views(res@) == cell_views(cells@),
{
    let mut out: Vec<Cell> = Vec::new();
    let mut i: usize = 0;
    while i < cells.len()
        invariant
            i <= cells@.len(),
            cell_views(out@) =~= cell_views(cells@).take(i as int),
        decreases cells.len() - i,
    {
        let ghost before = out@;
        out.push(cells[i].duplicate());
        assert(cell_views(out@) =~= cell_views(before).push(cells@[i as int]@));
        i += 1;
    }
    assert(cell_views(cells@).take(cells@.len() as int) =~= cell_views(cells@));
    out
}

impl Buffer {
    /// Writes the emoji sequence made of the clusters `k..end` (see
    /// `multi_step`).
    fn multi_cluster_step(&mut self, gs: &Vec<Vec<char>>, k: usize, end: usize, p: &mut Progress) -> (ok: bool)
        requires
            fits(old(self), *old(p)),
            k <= end <= gs@.len(),
        ensures
            final(self).wf(),
            keeps(final(self), old(self)),
            match multi_step(old(self).env(), cluster_views(gs@), k as int, end as int, state_of(old(self), *old(p))) {
                None => !ok,
                Some((e, s)) => ok && e == end && state_of(final(self), *final(p)) == s && fits(final(self), *final(p)),
            },
    {
        let v = join_clusters(gs, k, end);
        let w = total_width(&v);
        let text = multi_text_of(&v, w, self.can_modify);
        let cell = Cell::Multi(v, w, self.style);
        self.write_wide_cell(p, &text, cell)
    }

    /// What the cluster `gs[k]` does (see `step`): the index of the next
    /// cluster, or `None` where writing would go past the cells.
    fn step_cluster(&mut self, gs: &Vec<Vec<char>>, k: usize, p: &mut Progress) -> (res: Option<usize>)
        requires
            fits(old(self), *old(p)),
            k < gs@.len(),
        ensures
            final(self).wf(),
            keeps(final(self), old(self)),
            match step(old(self).env(), cluster_views(gs@), k as int, state_of(old(self), *old(p))) {
                None => res is None,
                Some((k2, s)) => res == Some(k2 as usize) && k < k2 <= gs@.len()
                    && state_of(final(self), *final(p)) == s && fits(final(self), *final(p)),
            },
    {
        let ghost views = cluster_views(gs@);
        let count = gs.len();
        let g = &gs[k];
        assert(g@ == views[k as int]);
        if g.len() == 0 {
            return Some(k + 1);
        }
        if g.len() == 1 {
            let car = g[0];
            match char_width(car) {
                Some(wd) => {
                    if wd == 1 {
                        let cell = if car == ' ' { Cell::NIL } else { Cell::Single(car, self.style) };
                        if self.write_one_cell(p, car, cell) { Some(k + 1) } else { None }
                    } else if wd == 2 {
                        let nextc = if k + 1 < gs.len() && gs[k + 1].len() > 0 { gs[k + 1][0] } else { '0' };
                        proof {
                            if k + 1 < gs@.len() {
                                assert(gs@[k + 1]@ == views[k + 1]);
                            }
                        }
                        if is_modifier_char(nextc) {
                            proof {
                                lemma_group_end(views, k + 2);
                            }
                            let end = group_end_of(gs, k + 2);
                            if self.multi_cluster_step(gs, k, end, p) { Some(end) } else { None }
                        } else {
                            let mut text: Vec<char> = Vec::new();
                            text.push(car);
                            assert(text@ =~= seq![car]);
                            if self.write_wide_cell(p, &text, Cell::Double(car, self.style)) {
                                Some(k + 1)
                            } else {
                                None
                            }
                        }
                    } else {
                        Some(k + 1)
                    }
                },
                None => {
                    if car == '\t' {
                        self.tab_step(p);
                        Some(k + 1)
                    } else if car == '\n' {
                        self.line_feed_step(p);
                        Some(k + 1)
                    } else if car == '\r' {
                        self.carriage_return_step(p);
                        Some(k + 1)
                    } else if car == '\x1B' {
                        let cell = Cell::Single('^', self.style);
                        if self.write_one_cell(p, '^', cell) { Some(k + 1) } else { None }
                    } else {
                        Some(k + 1)
                    }
                },
            }
        } else if g[0] == '\r' && g[1] == '\n' {
            self.new_line_step(p);
            Some(k + 1)
        } else {
            proof {
                lemma_group_end(views, k + 1);
            }
            let end = group_end_of(gs, k + 1);
            if self.multi_cluster_step(gs, k, end, p) { Some(end) } else { None }
        }
    }
}

impl Buffer {
    /// Writes the grapheme clusters `gs` into the cells at the cursor and
    /// builds the output that shows them (see `parse_result`). Returns
    /// `false`, with the cells, the output and the cursor as they were,
    /// where the text would go past the cells.
    pub fn parse_graphemes(&mut self, gs: &Vec<Vec<char>>) -> (ok: bool)
        requires
            old(self).wf(),
        ensures
            final(self).wf(),
            ok == old(self).parsed(cluster_views(gs@)) is Some,
            ok ==> ({
                let (c, o, i) = old(self).parsed(cluster_views(gs@))->0;
                &&& final(self).cells_view() == c
                &&& final(self).strbuf@ == o
                &&& final(self).index == i
            }),
            ok ==> final(self).index < final(self).cells_view().len(),
            !ok ==> final(self).cells_view() == old(self).cells_view() && final(self).strbuf@
                == old(self).strbuf@ && final(self).index == old(self).index,
            final(self).width == old(self).width,
            final(self).height == old(self).height,
            final(self).style == old(self).style,
            final(self).savedpos == old(self).savedpos,
            final(self).tabwidth == old(self).tabwidth,
            final(self).use_winapi == old(self).use_winapi,
            final(self).can_modify == old(self).can_modify,
    {
        let ghost views = cluster_views(gs@);
        let ghost env = self.env();
        let backup_cells = copy_cells(&self.cells);
        let backup_out = copy_chars(&self.strbuf);
        let backup_index = self.index;
        let start = self.cursor();
        let mut p = Progress { index: start, cut: 0, pending: 0, freeze: start };
        proof {
            assert(self.width * self.height + self.width == self.width * (self.height + 1)) by (nonlinear_arith);
        }
        let ghost st0 = state_of(self, p);
        let ghost snapshot = *self;
        proof {
            let (c0, i0) = cursor_fix(old(self).cells_view(), env.w * env.h, old(self).index as int);
            assert(st0 == ParseState { cells: c0, out: old(self).strbuf@, index: i0, cut: 0, pending: 0, freeze: i0 });
        }
        let mut k: usize = 0;
        while k < gs.len()
            invariant
                k <= gs@.len(),
                views == cluster_views(gs@),
                fits(self, p),
                keeps(self, &snapshot),
                env == self.env(),
                run(env, views, 0, st0) == run(env, views, k as int, state_of(self, p)),
                self.width == old(self).width,
                self.height == old(self).height,
                self.style == old(self).style,
                self.savedpos == old(self).savedpos,
                self.tabwidth == old(self).tabwidth,
                self.use_winapi == old(self).use_winapi,
                self.can_modify == old(self).can_modify,
                cell_views(backup_cells@) == old(self).cells_view(),
                backup_out@ == old(self).strbuf@,
                backup_index == old(self).index,
                old(self).wf(),
                env == old(self).env(),
                st0 == (ParseState {
                    cells: cursor_fix(old(self).cells_view(), env.w * env.h, old(self).index as int).0,
                    out: old(self).strbuf@,
                    index: cursor_fix(old(self).cells_view(), env.w * env.h, old(self).index as int).1,
                    cut: 0,
                    pending: 0,
                    freeze: cursor_fix(old(self).cells_view(), env.w * env.h, old(self).index as int).1,
                }),
            decreases gs.len() - k,
        {
            let ghost before = state_of(self, p);
            match self.step_cluster(gs, k, &mut p) {
                None => {
                    assert(run(env, views, k as int, before) is None);
                    self.cells = backup_cells;
                    self.strbuf = backup_out;
                    self.index = backup_index;
                    return false;
                },
                Some(k2) => {
                    k = k2;
                },
            }
        }
        let ghost st = state_of(self, p);
        assert(run(env, views, k as int, st) == Some(st));
        if p.cut > 0 {
            let keep = self.strbuf.len() - p.pending;
            self.strbuf.truncate(keep);
            self.index = p.freeze;
        } else {
            self.index = p.index;
        }
        self.cursor();
        true
    }
}

impl Buffer {
    /// A copy of the buffer.
    pub fn copy(&self) -> (res: Buffer)
        ensures
            res.cells_view() == self.cells_view(),
            res.strbuf@ == self.strbuf@,
            keeps(&res, self),
    {
        Buffer {
            index: self.index,
            cells: copy_cells(&self.cells),
            strbuf: copy_chars(&self.strbuf),
            width: self.width,
            height: self.height,
            style: self.style,
            savedpos: self.savedpos,
            tabwidth: self.tabwidth,
            use_winapi: self.use_winapi,
            can_modify: self.can_modify,
        }
    }

    /// Whether writing `s` at the cursor stays within the cells.
    pub fn fits_text(&self, s: &str) -> (res: bool)
        requires
            self.wf(),
        ensures
            res == self.parsed(extended_graphemes(s@)) is Some,
    {
        let gs = graphemes(s);
        let mut scratch = self.copy();
        scratch.parse_graphemes(&gs)
    }

    /// Writes `s` at the cursor: each printable grapheme cluster goes into
    /// the cells (a wide one takes two) and, unless the screen already
    /// shows it, into the output; tab, line feed and carriage return move
    /// the cursor (see `parse_result`). The text must stay within the cells.
    pub fn parse(&mut self, s: &str)
        requires
            old(self).wf(),
            old(self).parsed(extended_graphemes(s@)) is Some,
        ensures
            final(self).wf(),
            ({
                let (c, o, i) = old(self).parsed(extended_graphemes(s@))->0;
                &&& final(self).cells_view() == c
                &&& final(self).strbuf@ == o
                &&& final(self).index == i
            }),
            final(self).index < final(self).cells_view().len(),
            final(self).width == old(self).width,
            final(self).height == old(self).height,
            final(self).style == old(self).style,
            final(self).savedpos == old(self).savedpos,
            final(self).tabwidth == old(self).tabwidth,
            final(self).use_winapi == old(self).use_winapi,
            final(self).can_modify == old(self).can_modify,
    {
        let gs = graphemes(s);
        self.parse_graphemes(&gs);
    }

    /// Writes `s` at the cursor as `parse` does, where it stays within the
    /// cells; else changes nothing and returns `false`.
    pub fn try_parse(&mut self, s: &str) -> (ok: bool)
        requires
            old(self).wf(),
        ensures
            final(self).wf(),
            ok == old(self).parsed(extended_graphemes(s@)) is Some,
            ok ==> ({
                let (c, o, i) = old(self).parsed(extended_graphemes(s@))->0;
                &&& final(self).cells_view() == c
                &&& final(self).strbuf@ == o
                &&& final(self).index == i
            }),
            ok ==> final(self).index < final(self).cells_view().len(),
            !ok ==> *final(self) == *old(self),
            final(self).width == old(self).width,
            final(self).height == old(self).height,
            final(self).style == old(self).style,
            final(self).savedpos == old(self).savedpos,
            final(self).tabwidth == old(self).tabwidth,
            final(self).use_winapi == old(self).use_winapi,
            final(self).can_modify == old(self).can_modify,
    {
        if self.fits_text(s) {
            self.parse(s);
            true
        } else {
            false
        }
    }
}

} // verus!
