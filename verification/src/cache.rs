//! A cache of what each cell of the screen shows, with the style it was
//! written in, so that a screen can be redrawn (`_flush_buffer`) after it
//! was left.

pub mod content;
pub mod charinfo;

use vstd::prelude::*;
use crate::ansi::style::{set_style, style_seq};
use crate::enums::{Clear, Color, Effect, Style};
use crate::store::buffer::{same_style, Buffer, clear_range};

verus! {

/// What a cell shows.
#[derive(Debug)]
pub enum Rune {
    /// A narrow character.
    Single(char),
    /// A wide character; the next cell holds `Null`.
    Double(char),
    /// A character sequence (an emoji with modifiers or joiners).
    Compound(Vec<char>),
    /// The right half of a wide character or sequence.
    Null,
}

/// What a cell shows, as a value.
pub ghost enum RuneView {
    Single(char),
    Double(char),
    Compound(Seq<char>),
    Null,
}

impl View for Rune {
    type V = RuneView;

    open spec fn view(&self) -> RuneView {
        match self {
            Rune::Single(c) => RuneView::Single(*c),
            Rune::Double(c) => RuneView::Double(*c),
            Rune::Compound(v) => RuneView::Compound(v@),
            Rune::Null => RuneView::Null,
        }
    }
}

/// One cached cell: what it shows, its width and its style.
#[derive(Debug)]
pub struct CellInfo {
    pub rune: Rune,
    pub width: usize,
    pub style: (Color, Color, u32),
}

/// One cached cell, as a value.
pub ghost struct InfoView {
    pub rune: RuneView,
    pub width: usize,
    pub style: (Color, Color, u32),
}

impl View for CellInfo {
    type V = InfoView;

    open spec fn view(&self) -> InfoView {
        InfoView { rune: self.rune@, width: self.width, style: self.style }
    }
}

/// The cached cells, as values.
pub open spec fn info_views(cells: Seq<Option<CellInfo>>) -> Seq<Option<InfoView>> {
    cells.map_values(|c: Option<CellInfo>| match c {
        Some(i) => Some(i@),
        None => None,
    })
}

/// The style of text written without any setting.
pub open spec fn default_style() -> (Color, Color, u32) {
    (Color::Reset, Color::Reset, Effect::Reset.spec_bits())
}

/// The cache of one screen.
pub struct CellInfoCache {
    pub tab_width: u8,
    pub style: (Color, Color, u32),
    pub screen_pos: (i16, i16),
    pub screen_size: (i16, i16),
    /// One entry per cell, in row-major order; `None` for a cell never
    /// written.
    pub buffer: Vec<Option<CellInfo>>,
}

impl CellInfoCache {
    /// The cached cells, as values.
    pub open spec fn cells(&self) -> Seq<Option<InfoView>> {
        info_views(self.buffer@)
    }

    /// The size fits (as for `Buffer`) and there is one entry per cell.
    pub open spec fn wf(&self) -> bool {
        &&& Buffer::size_ok(self.screen_size.0 as int, self.screen_size.1 as int)
        &&& self.buffer@.len() == self.screen_size.0 * self.screen_size.1
    }

    /// An empty cache of a `w` by `h` screen: cursor at the top left,
    /// default style, tab width 4.
    pub fn new(w: i16, h: i16) -> (res: CellInfoCache)
        requires
            Buffer::size_ok(w as int, h as int),
        ensures
            res.wf(),
            res.tab_width == 4,
            res.screen_pos == (0i16, 0i16),
            res.screen_size == (w, h),
            res.style == default_style(),
            res.cells() == Seq::new((w * h) as nat, |i: int| None::<InfoView>),
    {
        proof {
            assert(w * h <= w * (h + 1)) by (nonlinear_arith)
                requires
                    w > 0,
                    h > 0,
            ;
        }
        let capacity = (w * h) as usize;
        let buffer = empty_cells(capacity);
        assert(buffer@.len() == info_views(buffer@).len());
        CellInfoCache {
            tab_width: 4,
            screen_pos: (0, 0),
            screen_size: (w, h),
            style: (Color::Reset, Color::Reset, Effect::Reset.bits()),
            buffer,
        }
    }

    /// The tab width.
    pub fn _tab_width(&self) -> (res: u8)
        ensures
            res == self.tab_width,
    {
        self.tab_width
    }

    /// Sets the tab width.
    pub fn _sync_tab(&mut self, w: u8)
        ensures
            *final(self) == (CellInfoCache { tab_width: w, ..*old(self) }),
    {
        self.tab_width = w;
    }

    /// The number of columns and rows.
    pub fn _screen_size(&self) -> (res: (i16, i16))
        ensures
            res == self.screen_size,
    {
        self.screen_size
    }

    /// The cursor's (column, row).
    pub fn _screen_pos(&self) -> (res: (i16, i16))
        ensures
            res == self.screen_pos,
    {
        self.screen_pos
    }

    /// Changes the size; entries are kept by index, cut off at the end or
    /// added empty at the end. The cursor stays where it was.
    pub fn _sync_size(&mut self, w: i16, h: i16)
        requires
            Buffer::size_ok(w as int, h as int),
        ensures
            final(self).wf(),
            final(self).screen_size == (w, h),
            final(self).cells() == (if w * h <= old(self).cells().len() {
                old(self).cells().take(w * h)
            } else {
                old(self).cells() + Seq::new((w * h - old(self).cells().len()) as nat, |i: int| None::<InfoView>)
            }),
            final(self).screen_pos == old(self).screen_pos,
            final(self).style == old(self).style,
            final(self).tab_width == old(self).tab_width,
    {
        proof {
            assert(w * h <= w * (h + 1)) by (nonlinear_arith)
                requires
                    w > 0,
                    h > 0,
            ;
        }
        self.screen_size = (w, h);
        let capacity = (w * h) as usize;
        let ghost before = self.cells();
        if capacity <= self.buffer.len() {
            self.buffer.truncate(capacity);
            assert(self.cells() =~= before.take(capacity as int));
        } else {
            while self.buffer.len() < capacity
                invariant
                    before.len() <= self.buffer@.len() <= capacity,
                    self.cells() =~= before + Seq::new(
                        (self.buffer@.len() - before.len()) as nat,
                        |i: int| None::<InfoView>,
                    ),
                    self.screen_size == (w, h),
                    self.screen_pos == old(self).screen_pos,
                    self.style == old(self).style,
                    self.tab_width == old(self).tab_width,
                decreases capacity - self.buffer.len(),
            {
                let ghost prev = self.buffer@;
                self.buffer.push(None);
                assert(info_views(self.buffer@) =~= info_views(prev).push(None));
            }
        }
    }

    /// Sets the cursor's (column, row).
    pub fn _sync_pos(&mut self, col: i16, row: i16)
        ensures
            *final(self) == (CellInfoCache { screen_pos: (col, row), ..*old(self) }),
    {
        self.screen_pos = (col, row);
    }

    /// Moves the cursor `n` rows up, stopping at the top row; a negative
    /// `n` does nothing.
    pub fn _sync_up(&mut self, n: i16)
        requires
            old(self).screen_pos.1 >= 0,
        ensures
            final(self).screen_pos == (old(self).screen_pos.0, up_row(old(self).screen_pos.1 as int, n as int) as i16),
            final(self).buffer == old(self).buffer,
            final(self).screen_size == old(self).screen_size,
            final(self).style == old(self).style,
            final(self).tab_width == old(self).tab_width,
    {
        if n < 0 {
            return;
        }
        let current_row = self.screen_pos.1;
        if current_row - n > 0 {
            self.screen_pos.1 = current_row - n;
        } else {
            self.screen_pos.1 = 0;
        }
    }

    /// Moves the cursor `n` rows down, stopping at the row past the last
    /// one; a negative `n` does nothing.
    pub fn _sync_down(&mut self, n: i16)
        requires
            n < 0 || old(self).screen_pos.1 + n <= i16::MAX,
        ensures
            final(self).screen_pos == (old(self).screen_pos.0, down_row(
                old(self).screen_pos.1 as int,
                n as int,
                old(self).screen_size.1 as int,
            ) as i16),
            final(self).buffer == old(self).buffer,
            final(self).screen_size == old(self).screen_size,
            final(self).style == old(self).style,
            final(self).tab_width == old(self).tab_width,
    {
        if n < 0 {
            return;
        }
        let h = self.screen_size.1;
        let current_row = self.screen_pos.1;
        if current_row + n < h {
            self.screen_pos.1 = current_row + n;
        } else {
            self.screen_pos.1 = h;
        }
    }

    /// Moves the cursor `n` columns left; where that passes the first
    /// column, whole rows of `n` move it up and the rest left, stopping at
    /// the first column. A negative `n` does nothing.
    pub fn _sync_left(&mut self, n: i16)
        requires
            old(self).screen_size.0 > 0,
            old(self).screen_pos.0 >= 0,
            old(self).screen_pos.1 >= 0,
        ensures
            final(self).screen_pos == left_pos(old(self).screen_pos, n, old(self).screen_size.0),
            final(self).buffer == old(self).buffer,
            final(self).screen_size == old(self).screen_size,
            final(self).style == old(self).style,
            final(self).tab_width == old(self).tab_width,
    {
        if n < 0 {
            return;
        }
        let current_col = self.screen_pos.0;
        if current_col - n > 0 {
            self.screen_pos.0 = current_col - n;
        } else {
            let w = self.screen_size.0;
            let rows = n / w;
            let rest = n % w;
            self._sync_up(rows);
            if current_col - rest > 0 {
                self.screen_pos.0 = current_col - rest;
            } else {
                self.screen_pos.0 = 0;
            }
        }
    }

    /// Moves the cursor `n` columns right; where that passes the last
    /// column, whole rows of `n` move it down and the rest right, stopping
    /// at the column past the last one. A negative `n` does nothing.
    pub fn _sync_right(&mut self, n: i16)
        requires
            old(self).screen_size.0 > 0,
            n < 0 || old(self).screen_pos.0 + n <= i16::MAX,
            n < 0 || old(self).screen_pos.1 + n / old(self).screen_size.0 <= i16::MAX,
        ensures
            final(self).screen_pos == right_pos(old(self).screen_pos, n, old(self).screen_size),
            final(self).buffer == old(self).buffer,
            final(self).screen_size == old(self).screen_size,
            final(self).style == old(self).style,
            final(self).tab_width == old(self).tab_width,
    {
        if n < 0 {
            return;
        }
        let w = self.screen_size.0;
        let current_col = self.screen_pos.0;
        if current_col + n < w {
            self.screen_pos.0 = current_col + n;
        } else {
            let rows = n / w;
            let rest = n % w;
            assert(rest <= n) by (nonlinear_arith)
                requires
                    n >= 0,
                    w > 0,
                    rest == n % w,
            ;
            self._sync_down(rows);
            if current_col + rest < w {
                self.screen_pos.0 = current_col + rest;
            } else {
                self.screen_pos.0 = w;
            }
        }
    }

    /// Sets one part of the style of new text.
    pub fn _sync_style(&mut self, style: Style)
        ensures
            final(self).style == (match style {
                Style::Fg(c) => (c, old(self).style.1, old(self).style.2),
                Style::Bg(c) => (old(self).style.0, c, old(self).style.2),
                Style::Fx(f) => (old(self).style.0, old(self).style.1, f),
            }),
            final(self).buffer == old(self).buffer,
            final(self).screen_size == old(self).screen_size,
            final(self).screen_pos == old(self).screen_pos,
            final(self).tab_width == old(self).tab_width,
    {
        match style {
            Style::Fg(c) => self.style.0 = c,
            Style::Bg(c) => self.style.1 = c,
            Style::Fx(f) => self.style.2 = f,
        }
    }

    /// Sets the style of new text.
    pub fn _sync_styles(&mut self, fg: Color, bg: Color, fx: u32)
        ensures
            *final(self) == (CellInfoCache { style: (fg, bg, fx), ..*old(self) }),
    {
        self.style = (fg, bg, fx);
    }

    /// Goes back to the default style.
    pub fn _reset_styles(&mut self)
        ensures
            *final(self) == (CellInfoCache { style: default_style(), ..*old(self) }),
    {
        self.style = (Color::Reset, Color::Reset, Effect::Reset.bits());
    }
}

/// The row after moving `n` rows up from `row`.
pub open spec fn up_row(row: int, n: int) -> int {
    if n < 0 { row } else if row - n > 0 { row - n } else { 0 }
}

/// The row after moving `n` rows down from `row` on a screen of `h` rows.
pub open spec fn down_row(row: int, n: int, h: int) -> int {
    if n < 0 { row } else if row + n < h { row + n } else { h }
}

/// The (column, row) after `_sync_left(n)` on a screen `w` columns wide.
pub open spec fn left_pos(pos: (i16, i16), n: i16, w: i16) -> (i16, i16) {
    let (col, row) = (pos.0 as int, pos.1 as int);
    if n < 0 {
        pos
    } else if col - n > 0 {
        ((col - n) as i16, pos.1)
    } else {
        let rows = n / w;
        let rest = n % w;
        let c = if col - rest > 0 { col - rest } else { 0 };
        (c as i16, up_row(row, rows as int) as i16)
    }
}

/// The (column, row) after `_sync_right(n)` on a screen of `size`.
pub open spec fn right_pos(pos: (i16, i16), n: i16, size: (i16, i16)) -> (i16, i16) {
    let (col, row) = (pos.0 as int, pos.1 as int);
    let (w, h) = (size.0 as int, size.1 as int);
    if n < 0 {
        pos
    } else if col + n < w {
        ((col + n) as i16, pos.1)
    } else {
        let rows = n / size.0;
        let rest = n % size.0;
        let c = if col + rest < w { col + rest } else { w };
        (c as i16, down_row(row, rows as int, h) as i16)
    }
}

/// `n` empty entries.
fn empty_cells(n: usize) -> (res: Vec<Option<CellInfo>>)
    ensures
        info_views(res@) == Seq::new(n as nat, |i: int| None::<InfoView>),
{
    let mut v: Vec<Option<CellInfo>> = Vec::new();
    while v.len() < n
        invariant
            v@.len() <= n,
            info_views(v@) =~= Seq::new(v@.len() as nat, |i: int| None::<InfoView>),
        decreases n - v.len(),
    {
        let ghost prev = v@;
        v.push(None);
        assert(info_views(v@) =~= info_views(prev).push(None));
    }
    v
}

/// The entries with those of `lo..hi` emptied.
pub open spec fn none_range(cells: Seq<Option<InfoView>>, lo: int, hi: int) -> Seq<Option<InfoView>> {
    Seq::new(cells.len(), |i: int| if lo <= i < hi { None } else { cells[i] })
}

/// What a cell adds to the redrawn screen, after cells in the style
/// `prev`, and the style after it: the style changes (a full reset where
/// the cell has the default style and the previous one did not), then its
/// characters (`tab` spaces for a tab); an empty cell is a space in the
/// default style.
pub open spec fn flush_cell(cell: Option<InfoView>, prev: (Color, Color, u32), tab: u8) -> (Seq<char>, (Color, Color, u32)) {
    match cell {
        Some(c) => {
            let styles = if c.style != prev && c.style == default_style() {
                "\x1B[0m"@
            } else {
                (if c.style.0 != prev.0 { style_seq(Style::Fg(c.style.0)) } else { Seq::empty() })
                    + (if c.style.1 != prev.1 { style_seq(Style::Bg(c.style.1)) } else { Seq::empty() })
                    + (if c.style.2 != prev.2 { style_seq(Style::Fx(c.style.2)) } else { Seq::empty() })
            };
            let text = match c.rune {
                RuneView::Single(ch) => if ch == '\t' { Seq::new(tab as nat, |i: int| ' ') } else { seq![ch] },
                RuneView::Double(ch) => seq![ch],
                RuneView::Null => Seq::empty(),
                RuneView::Compound(v) => v,
            };
            (styles + text, c.style)
        },
        None => if prev == default_style() {
            (seq![' '], prev)
        } else {
            ("\x1B[0m"@ + seq![' '], default_style())
        },
    }
}

/// The redrawn screen after the first `n` cells, and the style then: a
/// reset first, then each cell in turn.
pub open spec fn flush_upto(cells: Seq<Option<InfoView>>, n: int, tab: u8) -> (Seq<char>, (Color, Color, u32))
    decreases n,
{
    if n <= 0 {
        ("\x1B[0m"@, default_style())
    } else {
        let (s, prev) = flush_upto(cells, n - 1, tab);
        let (t, next) = flush_cell(cells[n - 1], prev, tab);
        (s + t, next)
    }
}

impl CellInfoCache {
    /// Empties the entries that clearing with `method` clears, for the
    /// cursor at `screen_pos` (see `clear_range`).
    pub fn _clear_buffer(&mut self, method: Clear)
        requires
            old(self).wf(),
            0 <= old(self).screen_pos.0 <= old(self).screen_size.0,
            0 <= old(self).screen_pos.1 <= old(self).screen_size.1,
            method !is All ==> old(self).screen_pos.1 * old(self).screen_size.0 + old(self).screen_size.0 <= i16::MAX,
            ({
                let (lo, hi) = clear_range(
                    method,
                    old(self).screen_size.0 as int,
                    old(self).screen_size.1 as int,
                    old(self).screen_pos.0 as int,
                    old(self).screen_pos.1 as int,
                );
                lo < hi ==> hi <= old(self).cells().len()
            }),
        ensures
            final(self).wf(),
            final(self).cells() == ({
                let (lo, hi) = clear_range(
                    method,
                    old(self).screen_size.0 as int,
                    old(self).screen_size.1 as int,
                    old(self).screen_pos.0 as int,
                    old(self).screen_pos.1 as int,
                );
                none_range(old(self).cells(), lo, hi)
            }),
            final(self).screen_size == old(self).screen_size,
            final(self).screen_pos == old(self).screen_pos,
            final(self).style == old(self).style,
            final(self).tab_width == old(self).tab_width,
    {
        let (w, h) = self.screen_size;
        let (col, row) = self.screen_pos;
        proof {
            assert(row * w + col <= (row + 1) * w) by (nonlinear_arith)
                requires
                    0 <= col <= w,
                    0 <= row,
                    w > 0,
            ;
            assert((row + 1) * w == row * w + w) by (nonlinear_arith);
            if method !is All {
                assert(row * w + w <= 32767);
            }
        }
        match method {
            Clear::All => {
                let capacity = (w * h) as usize;
                self.buffer = empty_cells(capacity);
                assert(self.cells() =~= none_range(old(self).cells(), 0, w * h));
            },
            Clear::NewLn => self.none_span(((row * w) + col) as usize, (row * w + w) as usize),
            Clear::CurrentLn => self.none_span((row * w) as usize, (row * w + w) as usize),
            Clear::CursorUp => self.none_span(0, ((row * w) + col) as usize),
            Clear::CursorDn => self.none_span(((row * w) + col) as usize, (w * h) as usize),
        }
    }

    /// Empties the entries `here..there` (none when `here` is not below
    /// `there`).
    fn none_span(&mut self, here: usize, there: usize)
        requires
            here < there ==> there <= old(self).buffer@.len(),
        ensures
            final(self).cells() == none_range(old(self).cells(), here as int, there as int),
            final(self).buffer@.len() == old(self).buffer@.len(),
            final(self).screen_size == old(self).screen_size,
            final(self).screen_pos == old(self).screen_pos,
            final(self).style == old(self).style,
            final(self).tab_width == old(self).tab_width,
    {
        let ghost before = self.cells();
        let mut i = here;
        while i < there
            invariant
                here <= i,
                here < there ==> i <= there <= self.buffer@.len(),
                here >= there ==> i == here,
                self.buffer@.len() == before.len(),
                self.cells() =~= none_range(before, here as int, i as int),
                self.screen_size == old(self).screen_size,
                self.screen_pos == old(self).screen_pos,
                self.style == old(self).style,
                self.tab_width == old(self).tab_width,
            decreases there - i,
        {
            let ghost prev = self.buffer@;
            self.buffer.set(i, None);
            assert(info_views(self.buffer@) =~= info_views(prev).update(i as int, None));
            i += 1;
        }
        assert(self.cells() =~= none_range(before, here as int, there as int));
    }

    /// The text that redraws the cached screen (see `flush_upto`).
    pub fn _flush_buffer(&self) -> (res: String)
        ensures
            res@ == flush_upto(self.cells(), self.cells().len() as int, self.tab_width).0,
    {
        let mut contents = String::from_str("\x1B[0m");
        proof {
            reveal_strlit("\x1B[0m");
        }
        let mut previous = (Color::Reset, Color::Reset, Effect::Reset.bits());
        let mut i: usize = 0;
        while i < self.buffer.len()
            invariant
                i <= self.buffer@.len(),
                (contents@, previous) == flush_upto(self.cells(), i as int, self.tab_width),
            decreases self.buffer.len() - i,
        {
            assert(self.cells()[i as int] == (match self.buffer@[i as int] {
                Some(c) => Some(c@),
                None => None::<InfoView>,
            }));
            previous = push_flush_cell(&mut contents, &self.buffer[i], previous, self.tab_width);
            i += 1;
        }
        contents
    }
}

/// Appends what `cell` adds to the redrawn screen after cells in the style
/// `previous` (see `flush_cell`), and returns the style after it.
fn push_flush_cell(
    contents: &mut String,
    cell: &Option<CellInfo>,
    previous: (Color, Color, u32),
    tab: u8,
) -> (res: (Color, Color, u32))
    ensures
        ({
            let (t, next) = flush_cell(
                match *cell {
                    Some(c) => Some(c@),
                    None => None,
                },
                previous,
                tab,
            );
            final(contents)@ == old(contents)@ + t && res == next
        }),
{
    proof {
        reveal_strlit("\x1B[0m");
    }
    let default = (Color::Reset, Color::Reset, Effect::Reset.bits());
    match cell {
        Some(cel) => {
            if !same_style(cel.style, previous) && same_style(cel.style, default) {
                contents.append("\x1B[0m");
            } else {
                if cel.style.0 != previous.0 {
                    let t = set_style(Style::Fg(cel.style.0));
                    contents.append(t.as_str());
                }
                if cel.style.1 != previous.1 {
                    let t = set_style(Style::Bg(cel.style.1));
                    contents.append(t.as_str());
                }
                if cel.style.2 != previous.2 {
                    let t = set_style(Style::Fx(cel.style.2));
                    contents.append(t.as_str());
                }
            }
            let ghost styled = contents@;
            match &cel.rune {
                Rune::Single(c) => {
                    if *c == '\t' {
                        let mut k: u8 = 0;
                        while k < tab
                            invariant
                                k <= tab,
                                contents@ == styled + Seq::new(k as nat, |j: int| ' '),
                            decreases tab - k,
                        {
                            contents.push(' ');
                            k += 1;
                            assert(contents@ =~= styled + Seq::new(k as nat, |j: int| ' '));
                        }
                    } else {
                        contents.push(*c);
                    }
                },
                Rune::Double(c) => contents.push(*c),
                Rune::Null => {},
                Rune::Compound(v) => {
                    let mut k: usize = 0;
                    while k < v.len()
                        invariant
                            k <= v@.len(),
                            contents@ == styled + v@.take(k as int),
                        decreases v.len() - k,
                    {
                        contents.push(v[k]);
                        k += 1;
                        assert(contents@ =~= styled + v@.take(k as int));
                    }
                    assert(v@.take(v@.len() as int) =~= v@);
                },
            }
            assert(contents@ =~= old(contents)@ + flush_cell(Some(cel@), previous, tab).0);
            cel.style
        },
        None => {
            if same_style(previous, default) {
                contents.push(' ');
                assert(contents@ =~= old(contents)@ + seq![' ']);
                previous
            } else {
                contents.append("\x1B[0m");
                contents.push(' ');
                assert(contents@ =~= old(contents)@ + ("\x1B[0m"@ + seq![' ']));
                default
            }
        },
    }
}

/// Walks a character sequence, telling for each character whether it is
/// the first and whether it is the last.
pub struct FirstLast {
    items: Vec<char>,
    pos: usize,
}

impl FirstLast {
    /// The characters walked.
    pub closed spec fn items(&self) -> Seq<char> {
        self.items@
    }

    /// How many characters were handed out.
    pub closed spec fn position(&self) -> int {
        self.pos as int
    }

    /// A walk from the first character of `items`.
    pub fn new(items: Vec<char>) -> (res: FirstLast)
        ensures
            res.items() == items@,
            res.position() == 0,
    {
        FirstLast { items, pos: 0 }
    }

    /// The next character, with whether it is the first and whether it is
    /// the last; `None` once all were handed out.
    pub fn next(&mut self) -> (res: Option<(bool, bool, char)>)
        requires
            old(self).position() <= old(self).items().len(),
        ensures
            final(self).items() == old(self).items(),
            final(self).position() <= final(self).items().len(),
            old(self).position() < old(self).items().len() ==> res == Some((
                old(self).position() == 0,
                old(self).position() + 1 == old(self).items().len(),
                old(self).items()[old(self).position()],
            )) && final(self).position() == old(self).position() + 1,
            old(self).position() >= old(self).items().len() ==> res is None && final(self).position()
                == old(self).position(),
    {
        if self.pos < self.items.len() {
            let p = self.pos;
            self.pos = p + 1;
            Some((p == 0, p + 1 == self.items.len(), self.items[p]))
        } else {
            None
        }
    }
}

/// The cache of a screen, by the kind of terminal.
pub enum ScreenCache {
    /// A terminal that takes escape sequences.
    Ansi(CellInfoCache),
    /// A Windows console without them, whose cells are read and written as
    /// a block.
    Win32(charinfo::CharInfoCache),
}

impl ScreenCache {
    /// An empty cache of a `w` by `h` screen of a terminal that takes
    /// escape sequences.
    pub fn new(w: i16, h: i16) -> (res: ScreenCache)
        requires
            Buffer::size_ok(w as int, h as int),
        ensures
            res matches ScreenCache::Ansi(c) && c.wf() && c.screen_size == (w, h) && c.screen_pos == (0i16, 0i16)
                && c.style == default_style() && c.tab_width == 4
                && c.cells() == Seq::new((w * h) as nat, |i: int| None::<InfoView>),
    {
        ScreenCache::Ansi(CellInfoCache::new(w, h))
    }
}

/// The settings of a screen and the cache of what it shows.
pub struct Metadata {
    pub is_raw_enabled: bool,
    pub is_mouse_enabled: bool,
    pub is_cursor_visible: bool,
    pub saved_position: (i16, i16),
    pub cache: ScreenCache,
}

impl Metadata {
    /// The settings of a new `w` by `h` screen: not raw, no mouse, cursor
    /// shown, nothing saved or cached.
    pub fn new(w: i16, h: i16) -> (res: Metadata)
        requires
            Buffer::size_ok(w as int, h as int),
        ensures
            !res.is_raw_enabled,
            !res.is_mouse_enabled,
            res.is_cursor_visible,
            res.saved_position == (0i16, 0i16),
            res.cache matches ScreenCache::Ansi(c) && c.wf() && c.screen_size == (w, h)
                && c.screen_pos == (0i16, 0i16)
                && c.cells() == Seq::new((w * h) as nat, |i: int| None::<InfoView>),
    {
        Metadata {
            is_raw_enabled: false,
            is_mouse_enabled: false,
            is_cursor_visible: true,
            saved_position: (0, 0),
            cache: ScreenCache::new(w, h),
        }
    }
}

} // verus!
