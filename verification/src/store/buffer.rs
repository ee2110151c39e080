//! An in-memory model of the terminal screen.
//!
//! The screen is a row-major grid of cells. A wide character takes two
//! cells: its own and a `Link` cell to its right. Writing text to the model
//! (`Buffer::parse`) updates the cells and builds, in `strbuf`, the output
//! that brings the terminal up to date: text that is already on the screen
//! is left out, and a cursor move takes its place.

use vstd::prelude::*;
use crate::enums::{Clear, Color};
use crate::text::{decimal, push_decimal};

verus! {

/// One cell of the screen.
#[derive(Debug)]
pub enum Cell {
    /// A narrow character with its (foreground, background, effects) style.
    Single(char, (Color, Color, u32)),
    /// A wide character; the cell to its right is a `Link`.
    Double(char, (Color, Color, u32)),
    /// A character sequence (an emoji with modifiers or joiners) of the
    /// given total width; the cell to its right is a `Link`.
    Multi(Vec<char>, usize, (Color, Color, u32)),
    /// The right half of a wide character.
    Link,
    /// An empty cell.
    NIL,
}

/// What a cell holds.
pub ghost enum CellView {
    Single(char, (Color, Color, u32)),
    Double(char, (Color, Color, u32)),
    Multi(Seq<char>, usize, (Color, Color, u32)),
    Link,
    Nil,
}

impl View for Cell {
    type V = CellView;

    open spec fn view(&self) -> CellView {
        match self {
            Cell::Single(c, s) => CellView::Single(*c, *s),
            Cell::Double(c, s) => CellView::Double(*c, *s),
            Cell::Multi(v, w, s) => CellView::Multi(v@, *w, *s),
            Cell::Link => CellView::Link,
            Cell::NIL => CellView::Nil,
        }
    }
}

/// Whether two styles are the same.
pub fn same_style(a: (Color, Color, u32), b: (Color, Color, u32)) -> (res: bool)
    ensures
        res == (a == b),
{
    a.0 == b.0 && a.1 == b.1 && a.2 == b.2
}

impl Cell {
    /// Whether two cells hold the same thing.
    pub fn same(&self, other: &Cell) -> (res: bool)
        ensures
            res == (self@ == other@),
    {
        match (self, other) {
            (Cell::Single(a, s), Cell::Single(b, t)) => *a == *b && same_style(*s, *t),
            (Cell::Double(a, s), Cell::Double(b, t)) => *a == *b && same_style(*s, *t),
            (Cell::Multi(v, w, s), Cell::Multi(u, x, t)) => *w == *x && same_style(*s, *t)
                && same_chars(v, u),
            (Cell::Link, Cell::Link) => true,
            (Cell::NIL, Cell::NIL) => true,
            _ => false,
        }
    }

    /// A copy of the cell.
    pub fn duplicate(&self) -> (res: Cell)
        ensures
            res@ == self@,
    {
        match self {
            Cell::Single(c, s) => Cell::Single(*c, *s),
            Cell::Double(c, s) => Cell::Double(*c, *s),
            Cell::Multi(v, w, s) => Cell::Multi(copy_chars(v), *w, *s),
            Cell::Link => Cell::Link,
            Cell::NIL => Cell::NIL,
        }
    }
}

/// Whether two character vectors hold the same characters.
pub fn same_chars(v: &Vec<char>, u: &Vec<char>) -> (res: bool)
    ensures
        res == (v@ == u@),
{
    if v.len() != u.len() {
        return false;
    }
    let mut i: usize = 0;
    while i < v.len()
        invariant
            i <= v@.len(),
            v@.len() == u@.len(),
            forall|j: int| 0 <= j < i ==> v@[j] == u@[j],
        decreases v.len() - i,
    {
        if v[i] != u[i] {
            assert(v@[i as int] != u@[i as int]);
            return false;
        }
        i += 1;
    }
    assert(v@ =~= u@);
    true
}

/// A copy of a character vector.
pub fn copy_chars(v: &Vec<char>) -> (res: Vec<char>)
    ensures
        res@ == v@,
{
    let mut out: Vec<char> = Vec::new();
    let mut i: usize = 0;
    while i < v.len()
        invariant
            i <= v@.len(),
            out@ == v@.take(i as int),
        decreases v.len() - i,
    {
        out.push(v[i]);
        i += 1;
        assert(out@ =~= v@.take(i as int));
    }
    assert(v@.take(v@.len() as int) =~= v@);
    out
}

/// The contents of each cell.
pub open spec fn cell_views(cells: Seq<Cell>) -> Seq<CellView> {
    cells.map_values(|c: Cell| c@)
}

/// The first cell is never the right half of a wide character (so that
/// the cell to the left of a `Link` always exists).
pub open spec fn links_ok(cells: Seq<CellView>) -> bool {
    cells.len() > 0 ==> !(cells[0] is Link)
}

/// The 0-based (column, row) of a cell index on a screen `w` columns wide.
pub open spec fn coord_of(w: int, index: int) -> (int, int) {
    (index % w, index / w)
}

/// The cell index of a (column, row) on a screen `w` columns wide.
pub open spec fn index_of(w: int, col: int, row: int) -> int {
    row * w + col
}

/// The index of the next tab stop after (col, row): the next multiple of
/// `tab` in the row, or the last column when that is past the end.
pub open spec fn tabstop_of(w: int, tab: int, col: int, row: int) -> int {
    let prev = (col / tab) * tab;
    let next = if prev + tab > w - 1 { w - 1 } else { prev + tab };
    row * w + next
}

/// The cursor position that `Buffer::cursor` settles on, and the cells
/// after it has brought their number to `cap`: an index past the end moves
/// to the last cell, and the right half of a wide character moves to its
/// left half.
pub open spec fn cursor_fix(cells: Seq<CellView>, cap: int, index: int) -> (Seq<CellView>, int) {
    if index < cells.len() {
        if cells[index] is Link {
            (cells, index - 1)
        } else {
            (cells, index)
        }
    } else {
        let c2 = if cap > cells.len() {
            cells + Seq::new((cap - cells.len()) as nat, |i: int| CellView::Nil)
        } else {
            cells.take(cap)
        };
        let i2 = if index >= cap { cap - 1 } else { index };
        if c2[i2] is Link {
            (c2, i2 - 1)
        } else {
            (c2, i2)
        }
    }
}

/// The screen model.
pub struct Buffer {
    /// The cursor, as a cell index.
    pub index: usize,
    /// The cells, in row-major order.
    pub cells: Vec<Cell>,
    /// The output that brings the terminal up to date, built by `parse`.
    pub strbuf: Vec<char>,
    pub width: i16,
    pub height: i16,
    pub style: (Color, Color, u32),
    pub savedpos: usize,
    pub tabwidth: usize,
    pub use_winapi: bool,
    pub can_modify: bool,
}

impl Buffer {
    /// The cells, in row-major order.
    pub open spec fn cells_view(&self) -> Seq<CellView> {
        cell_views(self.cells@)
    }

    /// The output built so far.
    pub open spec fn out_view(&self) -> Seq<char> {
        self.strbuf@
    }

    /// The cursor, as a cell index.
    pub open spec fn index_view(&self) -> int {
        self.index as int
    }

    /// A `w` by `h` screen has at least one cell and its cell count fits in
    /// an `i16`, the type of its coordinates.
    pub open spec fn size_ok(w: int, h: int) -> bool {
        0 < w && 0 < h && w * h <= i16::MAX
    }

    /// The buffer is well-formed: its size fits (`size_ok`), it holds one
    /// cell for each position, tabs are at least one column wide, and the
    /// first cell is not the right half of a wide character.
    pub open spec fn wf(&self) -> bool {
        &&& Self::size_ok(self.width as int, self.height as int)
        &&& self.cells_view().len() == self.width * self.height
        &&& 1 <= self.tabwidth <= i16::MAX
        &&& links_ok(self.cells_view())
    }

    /// An empty screen of `width` columns and `height` rows, with the cursor
    /// at the top left, default style and tab width 4.
    pub fn new(width: i16, height: i16) -> (res: Buffer)
        requires
            Self::size_ok(width as int, height as int),
        ensures
            res.wf(),
            res.width == width,
            res.height == height,
            res.cells_view() == Seq::new((width * height) as nat, |i: int| CellView::Nil),
            res.out_view() == Seq::<char>::empty(),
            res.index_view() == 0,
            res.style == (Color::Reset, Color::Reset, crate::enums::Effect::Reset.spec_bits()),
            res.savedpos == 0,
            res.tabwidth == 4,
            !res.use_winapi,
            !res.can_modify,
    {
        assert(width * height <= width * (height + 1)) by (nonlinear_arith)
            requires
                width > 0,
                height > 0,
        ;
        let capacity = (width * height) as usize;
        let cells = nil_cells(capacity);
        Buffer {
            index: 0,
            cells,
            strbuf: Vec::new(),
            width,
            height,
            style: (Color::Reset, Color::Reset, crate::enums::Effect::Reset.bits()),
            savedpos: 0,
            tabwidth: 4,
            use_winapi: false,
            can_modify: false,
        }
    }

    /// The number of columns and rows.
    pub fn size(&self) -> (res: (i16, i16))
        ensures
            res == (self.width, self.height),
    {
        (self.width, self.height)
    }

    /// Changes the size to `w` columns and `h` rows: cells are kept by
    /// index, cut off at the end or added empty at the end. A size with no
    /// cells is taken too, but leaves no buffer that the cursor operations
    /// accept (they divide by the width).
    pub fn resize(&mut self, w: i16, h: i16)
        requires
            old(self).wf(),
            0 <= w,
            0 <= h,
            w * h <= i16::MAX,
        ensures
            Self::size_ok(w as int, h as int) ==> final(self).wf(),
            final(self).cells_view().len() == w * h,
            links_ok(final(self).cells_view()),
            final(self).width == w,
            final(self).height == h,
            final(self).cells_view() == (if w * h <= old(self).cells_view().len() {
                old(self).cells_view().take(w * h)
            } else {
                old(self).cells_view() + Seq::new(
                    (w * h - old(self).cells_view().len()) as nat,
                    |i: int| CellView::Nil,
                )
            }),
            final(self).index_view() == old(self).index_view(),
            final(self).out_view() == old(self).out_view(),
            final(self).style == old(self).style,
            final(self).savedpos == old(self).savedpos,
            final(self).tabwidth == old(self).tabwidth,
            final(self).can_modify == old(self).can_modify,
            final(self).use_winapi == old(self).use_winapi,
    {
        self.width = w;
        self.height = h;
        assert(w * h >= 0) by (nonlinear_arith)
            requires
                w >= 0,
                h >= 0,
        ;
        let capacity = (w * h) as usize;
        resize_cells(&mut self.cells, capacity);
    }
}


/// The absolute value.
pub open spec fn abs(x: int) -> int {
    if x < 0 { -x } else { x }
}

/// The cells with those of `start..stop` emptied.
pub open spec fn nil_range(cells: Seq<CellView>, start: int, stop: int) -> Seq<CellView> {
    Seq::new(cells.len(), |i: int| if start <= i < stop { CellView::Nil } else { cells[i] })
}

/// The range of cell indices that clearing with `c` empties, for the cursor
/// at (col, row) on a `w` by `h` screen.
pub open spec fn clear_range(c: Clear, w: int, h: int, col: int, row: int) -> (int, int) {
    match c {
        Clear::All => (0, w * h),
        Clear::NewLn => (row * w + col, (row + 1) * w),
        Clear::CurrentLn => (row * w, (row + 1) * w),
        Clear::CursorUp => (0, row * w + col),
        Clear::CursorDn => (row * w + col, w * h),
    }
}

/// What `getch` gives for a cell: its characters, or a space for an empty
/// cell.
pub open spec fn cell_text(c: CellView) -> Seq<char> {
    match c {
        CellView::Single(ch, _) => seq![ch],
        CellView::Double(ch, _) => seq![ch],
        CellView::Multi(chs, _, _) => chs,
        CellView::Nil => seq![' '],
        CellView::Link => Seq::empty(),
    }
}

/// What `getch` gives for a cell, as a `String`.
pub fn cell_string(c: &Cell) -> (res: String)
    ensures
        res@ == cell_text(c@),
{
    match c {
        Cell::Single(ch, ..) => {
            let mut s = String::new();
            s.push(*ch);
            s
        },
        Cell::Double(ch, ..) => {
            let mut s = String::new();
            s.push(*ch);
            s
        },
        Cell::Multi(chs, ..) => chars_to_string(chs),
        Cell::NIL => {
            let s = String::from_str(" ");
            proof {
                reveal_strlit(" ");
            }
            s
        },
        Cell::Link => String::new(),
    }
}

/// The characters of a vector, as a `String`.
pub fn chars_to_string(v: &Vec<char>) -> (res: String)
    ensures
        res@ == v@,
{
    let mut s = String::new();
    let mut i: usize = 0;
    while i < v.len()
        invariant
            i <= v@.len(),
            s@ == v@.take(i as int),
        decreases v.len() - i,
    {
        s.push(v[i]);
        i += 1;
        assert(s@ =~= v@.take(i as int));
    }
    assert(v@.take(v@.len() as int) =~= v@);
    s
}

impl Buffer {
    /// The (column, row) of a cell index.
    pub fn coord(&self, index: usize) -> (res: (i16, i16))
        requires
            self.width > 0,
            index <= i16::MAX,
        ensures
            res.0 == coord_of(self.width as int, index as int).0,
            res.1 == coord_of(self.width as int, index as int).1,
    {
        let width = self.width;
        let index = index as i16;
        ((index % width), (index / width))
    }

    /// The cell index of a (column, row); negative coordinates count as
    /// their absolute value.
    pub fn index(&self, coord: (i16, i16)) -> (res: usize)
        requires
            self.width > 0,
            coord.0 > i16::MIN,
            coord.1 > i16::MIN,
            abs(coord.1 as int) * self.width + abs(coord.0 as int) <= i16::MAX,
        ensures
            res == index_of(self.width as int, abs(coord.0 as int), abs(coord.1 as int)),
    {
        let (mut col, mut row) = (coord.0, coord.1);
        if col < 0 {
            col = -col;
        }
        if row < 0 {
            row = -row;
        }
        assert(row * self.width >= 0) by (nonlinear_arith)
            requires
                row >= 0,
                self.width > 0,
        ;
        ((row * self.width) + col) as usize
    }

    /// The cell index of the next tab stop from (col, row) in its row.
    pub fn tabstop(&self, coord: (i16, i16)) -> (res: usize)
        requires
            self.wf(),
            0 <= coord.0 < self.width,
            0 <= coord.1,
            coord.1 * self.width + self.width <= i16::MAX,
        ensures
            res == tabstop_of(self.width as int, self.tabwidth as int, coord.0 as int, coord.1 as int),
    {
        let (col, row) = (coord.0, coord.1);
        let c = col as usize;
        let tab = self.tabwidth;
        proof {
            vstd::arithmetic::div_mod::lemma_fundamental_div_mod(c as int, tab as int);
            vstd::arithmetic::mul::lemma_mul_is_commutative(tab as int, c as int / tab as int);
            vstd::arithmetic::div_mod::lemma_div_pos_is_pos(c as int, tab as int);
            assert(0 <= (c as int / tab as int) * tab as int) by (nonlinear_arith)
                requires
                    c as int / tab as int >= 0,
                    tab >= 1,
            ;
        }
        let prev_stop = c - c % tab;
        assert(prev_stop == (c as int / tab as int) * tab as int);
        let next = prev_stop + tab;
        let last = (self.width - 1) as usize;
        let new_stop = if next > last {
            last
        } else {
            next
        };
        assert(row * self.width >= 0) by (nonlinear_arith)
            requires
                row >= 0,
                self.width > 0,
        ;
        (row * self.width) as usize + new_stop
    }

    /// Settles the cursor on a valid cell: an index past the end moves to
    /// the last cell, and the right half of a wide character to its left
    /// half. Returns the cursor.
    #[verifier::rlimit(40)]
    pub fn cursor(&mut self) -> (res: usize)
        requires
            old(self).wf(),
        ensures
            final(self).wf(),
            res == final(self).index,
            (final(self).cells_view(), final(self).index as int) == cursor_fix(
                old(self).cells_view(),
                old(self).width * old(self).height,
                old(self).index as int,
            ),
            final(self).index < final(self).cells_view().len(),
            final(self).strbuf == old(self).strbuf,
            final(self).width == old(self).width,
            final(self).height == old(self).height,
            final(self).style == old(self).style,
            final(self).savedpos == old(self).savedpos,
            final(self).tabwidth == old(self).tabwidth,
            final(self).use_winapi == old(self).use_winapi,
            final(self).can_modify == old(self).can_modify,
    {
        proof {
            assert(1 <= self.width * self.height <= self.width * (self.height + 1)) by (nonlinear_arith)
                requires
                    self.width >= 1,
                    self.height >= 1,
            ;
        }
        if self.index < self.cells.len() {
            assert(cell_views(self.cells@)[self.index as int] == self.cells@[self.index as int]@);
            if let Cell::Link = self.cells[self.index] {
                self.index -= 1;
            }
        } else {
            let capacity = (self.width * self.height) as usize;
            resize_cells(&mut self.cells, capacity);
            assert(cell_views(self.cells@) =~= cell_views(old(self).cells@).take(capacity as int));
            if self.index >= capacity {
                self.index = capacity - 1;
            }
            assert(cell_views(self.cells@)[self.index as int] == self.cells@[self.index as int]@);
            if let Cell::Link = self.cells[self.index] {
                self.index -= 1;
            }
        }
        self.index
    }

    /// Moves the cursor to a cell index (settled as `cursor` does).
    pub fn goto_index(&mut self, index: usize) -> (res: usize)
        requires
            old(self).wf(),
        ensures
            final(self).wf(),
            res == final(self).index,
            (final(self).cells_view(), final(self).index as int) == cursor_fix(
                old(self).cells_view(),
                old(self).width * old(self).height,
                index as int,
            ),
            final(self).index < final(self).cells_view().len(),
            final(self).strbuf == old(self).strbuf,
            final(self).width == old(self).width,
            final(self).height == old(self).height,
            final(self).style == old(self).style,
            final(self).savedpos == old(self).savedpos,
            final(self).tabwidth == old(self).tabwidth,
            final(self).use_winapi == old(self).use_winapi,
            final(self).can_modify == old(self).can_modify,
    {
        self.index = index;
        self.cursor()
    }

    /// Moves the cursor to (col, row) (settled as `cursor` does).
    pub fn goto_coord(&mut self, col: i16, row: i16) -> (res: usize)
        requires
            old(self).wf(),
            col > i16::MIN,
            row > i16::MIN,
            abs(row as int) * old(self).width + abs(col as int) <= i16::MAX,
        ensures
            final(self).wf(),
            res == final(self).index,
            (final(self).cells_view(), final(self).index as int) == cursor_fix(
                old(self).cells_view(),
                old(self).width * old(self).height,
                index_of(old(self).width as int, abs(col as int), abs(row as int)),
            ),
            final(self).index < final(self).cells_view().len(),
            final(self).strbuf == old(self).strbuf,
            final(self).width == old(self).width,
            final(self).height == old(self).height,
            final(self).style == old(self).style,
            final(self).savedpos == old(self).savedpos,
            final(self).tabwidth == old(self).tabwidth,
            final(self).use_winapi == old(self).use_winapi,
            final(self).can_modify == old(self).can_modify,
    {
        self.index = self.index((col, row));
        self.cursor()
    }

    /// Moves the cursor to the saved position, and saves where it was.
    pub fn goto_mark(&mut self)
        requires
            old(self).wf(),
        ensures
            final(self).wf(),
            ({
                let (c1, i1) = cursor_fix(
                    old(self).cells_view(),
                    old(self).width * old(self).height,
                    old(self).index as int,
                );
                let (c2, i2) = cursor_fix(c1, old(self).width * old(self).height, old(self).savedpos as int);
                &&& final(self).cells_view() == c2
                &&& final(self).index == i2
                &&& final(self).savedpos == i1
            }),
            final(self).strbuf == old(self).strbuf,
            final(self).width == old(self).width,
            final(self).height == old(self).height,
            final(self).style == old(self).style,
            final(self).tabwidth == old(self).tabwidth,
            final(self).use_winapi == old(self).use_winapi,
            final(self).can_modify == old(self).can_modify,
    {
        let index = self.cursor();
        let saved = self.savedpos;
        self.goto_index(saved);
        self.savedpos = index;
    }

    /// The characters under the cursor (a space for an empty cell). The
    /// cursor settles first, as `cursor` does; it must not settle on the
    /// right half of a wide character.
    #[verifier::rlimit(40)]
    pub fn getch(&mut self) -> (res: String)
        requires
            old(self).wf(),
            ({
                let (c, i) = cursor_fix(old(self).cells_view(), old(self).width * old(self).height, old(self).index as int);
                !(c[i] is Link)
            }),
        ensures
            final(self).wf(),
            (final(self).cells_view(), final(self).index as int) == cursor_fix(
                old(self).cells_view(),
                old(self).width * old(self).height,
                old(self).index as int,
            ),
            res@ == cell_text(final(self).cells_view()[final(self).index as int]),
            final(self).strbuf == old(self).strbuf,
            final(self).width == old(self).width,
            final(self).height == old(self).height,
            final(self).style == old(self).style,
            final(self).savedpos == old(self).savedpos,
            final(self).tabwidth == old(self).tabwidth,
            final(self).use_winapi == old(self).use_winapi,
            final(self).can_modify == old(self).can_modify,
    {
        let index = self.cursor();
        assert(cell_views(self.cells@)[index as int] == self.cells@[index as int]@);
        cell_string(&self.cells[index])
    }

    /// Hands out the output built so far and starts a new one.
    pub fn flush(&mut self) -> (res: String)
        ensures
            res@ == old(self).strbuf@,
            final(self).strbuf@ == Seq::<char>::empty(),
            final(self).index == old(self).index,
            final(self).cells == old(self).cells,
            final(self).width == old(self).width,
            final(self).height == old(self).height,
            final(self).style == old(self).style,
            final(self).savedpos == old(self).savedpos,
            final(self).tabwidth == old(self).tabwidth,
            final(self).use_winapi == old(self).use_winapi,
            final(self).can_modify == old(self).can_modify,
    {
        let output = chars_to_string(&self.strbuf);
        self.strbuf.clear();
        output
    }
}

/// When the cells already number `cap`, settling the cursor keeps them and
/// lands on one of them.
pub proof fn lemma_cursor_fix(cells: Seq<CellView>, cap: int, index: int)
    requires
        cells.len() == cap,
        cap >= 1,
        links_ok(cells),
        index >= 0,
    ensures
        cursor_fix(cells, cap, index).0 == cells,
        0 <= cursor_fix(cells, cap, index).1 < cap,
{
    if index >= cells.len() {
        assert(cells.take(cap) =~= cells);
    }
}

/// Splitting a cell index into its row and column.
pub proof fn lemma_coord(w: int, rows: int, index: int)
    requires
        w > 0,
        rows > 0,
        0 <= index < w * rows,
    ensures
        0 <= index / w < rows,
        0 <= index % w < w,
        (index / w) * w + index % w == index,
        0 <= (index / w) * w,
        (index / w + 1) * w <= w * rows,
{
    vstd::arithmetic::div_mod::lemma_fundamental_div_mod(index, w);
    vstd::arithmetic::mul::lemma_mul_is_commutative(w, index / w);
    vstd::arithmetic::div_mod::lemma_div_pos_is_pos(index, w);
    vstd::arithmetic::div_mod::lemma_multiply_divide_lt(index, w, rows);
    assert(0 <= (index / w) * w) by (nonlinear_arith)
        requires
            index / w >= 0,
            w > 0,
    ;
    assert((index / w + 1) * w <= w * rows) by (nonlinear_arith)
        requires
            index / w + 1 <= rows,
            w > 0,
    ;
}

impl Buffer {
    /// Empties the cells `start..stop`.
    fn nil_span(&mut self, start: usize, stop: usize)
        requires
            old(self).wf(),
            start <= stop <= old(self).cells@.len(),
        ensures
            final(self).wf(),
            final(self).cells_view() == nil_range(old(self).cells_view(), start as int, stop as int),
            final(self).index == old(self).index,
            final(self).strbuf == old(self).strbuf,
            final(self).width == old(self).width,
            final(self).height == old(self).height,
            final(self).style == old(self).style,
            final(self).savedpos == old(self).savedpos,
            final(self).tabwidth == old(self).tabwidth,
            final(self).use_winapi == old(self).use_winapi,
            final(self).can_modify == old(self).can_modify,
    {
        let ghost before = self.cells_view();
        let mut i = start;
        while i < stop
            invariant
                start <= i <= stop <= self.cells@.len(),
                self.wf(),
                self.cells_view() =~= nil_range(before, start as int, i as int),
                before.len() == self.cells@.len(),
                self.index == old(self).index,
                self.strbuf == old(self).strbuf,
                self.width == old(self).width,
                self.height == old(self).height,
                self.style == old(self).style,
                self.savedpos == old(self).savedpos,
                self.tabwidth == old(self).tabwidth,
                self.use_winapi == old(self).use_winapi,
                self.can_modify == old(self).can_modify,
            decreases stop - i,
        {
            let ghost prev = self.cells@;
            self.cells.set(i, Cell::NIL);
            assert(cell_views(self.cells@) =~= cell_views(prev).update(i as int, CellView::Nil));
            i += 1;
        }
    }

    /// Clears part of the screen, as `Clear` says, around the cursor (which
    /// settles first, as `cursor` does). `All` also moves the cursor to the
    /// top left, and `CurrentLn` to the start of its row.
    pub fn clear(&mut self, c: Clear)
        requires
            old(self).wf(),
        ensures
            final(self).wf(),
            c is All ==> final(self).cells_view() == Seq::new(
                (old(self).width * old(self).height) as nat,
                |i: int| CellView::Nil,
            ) && final(self).index == 0,
            !(c is All) ==> ({
                let w = old(self).width as int;
                let (c1, i) = cursor_fix(old(self).cells_view(), w * old(self).height, old(self).index as int);
                let (lo, hi) = clear_range(c, w, old(self).height as int, i % w, i / w);
                &&& final(self).cells_view() == nil_range(c1, lo, hi)
                &&& final(self).index == (if c is CurrentLn { (i / w) * w } else { i })
            }),
            final(self).strbuf == old(self).strbuf,
            final(self).width == old(self).width,
            final(self).height == old(self).height,
            final(self).style == old(self).style,
            final(self).savedpos == old(self).savedpos,
            final(self).tabwidth == old(self).tabwidth,
            final(self).use_winapi == old(self).use_winapi,
            final(self).can_modify == old(self).can_modify,
    {
        let (w, h) = (self.width, self.height);
        assert(w * h <= w * (h + 1)) by (nonlinear_arith)
            requires
                w > 0,
                h > 0,
        ;
        if let Clear::All = c {
            let capacity = (w * h) as usize;
            self.cells = nil_cells(capacity);
            self.index = 0;
            return;
        }
        let index = self.cursor();
        let (col, row) = self.coord(index);
        proof {
            lemma_coord(w as int, h as int, index as int);
            assert(self.cells@.len() == self.cells_view().len());
            assert(row == index as int / w as int);
            assert(col == index as int % w as int);
            assert((row as int + 1) * (w as int) <= (w as int) * (h as int));
            assert(row as int * w as int + col as int <= (row as int + 1) * (w as int)) by (nonlinear_arith)
                requires
                    col < w,
            ;
            assert(self.cells@.len() == (w as int) * (h as int));
        }
        match c {
            Clear::NewLn => {
                self.nil_span((row * w + col) as usize, ((row + 1) * w) as usize);
            },
            Clear::CurrentLn => {
                let start = (row * w) as usize;
                let stop = ((row + 1) * w) as usize;
                assert(start < stop) by (nonlinear_arith)
                    requires
                        start == row * w,
                        stop == (row + 1) * w,
                        w > 0,
                ;
                self.nil_span(start, stop);
                assert(self.cells_view()[start as int] is Nil);
                self.goto_coord(0, row);
                assert(index_of(w as int, 0, row as int) == (index as int / w as int) * w as int);
            },
            Clear::CursorUp => {
                self.nil_span(0, (row * w + col) as usize);
            },
            Clear::CursorDn => {
                self.nil_span((row * w + col) as usize, (w * h) as usize);
            },
            Clear::All => {},
        }
    }
}

/// Brings the number of cells to `capacity`, cutting off at the end or
/// adding empty cells at the end.
fn resize_cells(cells: &mut Vec<Cell>, capacity: usize)
    requires
        links_ok(cell_views(old(cells)@)),
    ensures
        links_ok(cell_views(final(cells)@)),
        cell_views(final(cells)@) == (if capacity <= old(cells)@.len() {
            cell_views(old(cells)@).take(capacity as int)
        } else {
            cell_views(old(cells)@) + Seq::new(
                (capacity - old(cells)@.len()) as nat,
                |i: int| CellView::Nil,
            )
        }),
{
    let ghost before = cell_views(cells@);
    if capacity <= cells.len() {
        cells.truncate(capacity);
        assert(cell_views(cells@) =~= before.take(capacity as int));
    } else {
        while cells.len() < capacity
            invariant
                before.len() <= cells@.len() <= capacity,
                cell_views(cells@) =~= before + Seq::new(
                    (cells@.len() - before.len()) as nat,
                    |i: int| CellView::Nil,
                ),
            decreases capacity - cells.len(),
        {
            let ghost old_c = cells@;
            cells.push(Cell::NIL);
            assert(cells@ == old_c.push(Cell::NIL));
            assert(cell_views(cells@) =~= cell_views(old_c).push(CellView::Nil));
        }
    }
    assert(capacity > 0 && before.len() > 0 ==> cell_views(cells@)[0] == before[0]);
}

/// `n` empty cells.
fn nil_cells(n: usize) -> (res: Vec<Cell>)
    ensures
        cell_views(res@) == Seq::new(n as nat, |i: int| CellView::Nil),
{
    let mut v: Vec<Cell> = Vec::new();
    while v.len() < n
        invariant
            v@.len() <= n,
            cell_views(v@) =~= Seq::new(v@.len() as nat, |i: int| CellView::Nil),
        decreases n - v.len(),
    {
        let ghost old_v = v@;
        v.push(Cell::NIL);
        assert(v@ == old_v.push(Cell::NIL));
        assert(cell_views(v@) =~= cell_views(old_v).push(CellView::Nil));
    }
    v
}

} // verus!
