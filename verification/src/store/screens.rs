//! The store of screens: the modes the terminal shows on each screen, and
//! a model of its cells. One screen is current; the actions apply to it.

use vstd::prelude::*;
use crate::enums::{Clear, Color, Style};
use crate::store::buffer::{Buffer, Cell, CellView, cursor_fix, index_of, cell_text, cell_string, cell_views, abs, lemma_cursor_fix, lemma_coord};
use crate::unicode::extended_graphemes;

verus! {

/// One screen: its modes and its cells.
pub struct Screen {
    pub is_raw_enabled: bool,
    pub is_mouse_enabled: bool,
    pub is_cursor_visible: bool,
    pub buffer: Buffer,
}

impl Screen {
    /// A screen of `w` columns and `h` rows: not raw, no mouse, cursor
    /// shown, every cell empty.
    pub fn new(w: i16, h: i16) -> (res: Screen)
        requires
            Buffer::size_ok(w as int, h as int),
        ensures
            !res.is_raw_enabled,
            !res.is_mouse_enabled,
            res.is_cursor_visible,
            res.buffer.wf(),
            res.buffer.width == w,
            res.buffer.height == h,
            res.buffer.cells_view() == Seq::new((w * h) as nat, |i: int| CellView::Nil),
            res.buffer.index == 0,
            res.buffer.strbuf@ == Seq::<char>::empty(),
            res.buffer.style == (Color::Reset, Color::Reset, crate::enums::Effect::Reset.spec_bits()),
            res.buffer.savedpos == 0,
            res.buffer.tabwidth == 4,
            !res.buffer.use_winapi,
            !res.buffer.can_modify,
    {
        Screen {
            is_raw_enabled: false,
            is_mouse_enabled: false,
            is_cursor_visible: true,
            buffer: Buffer::new(w, h),
        }
    }

    /// The screen's buffer is well-formed and its cursor is on a cell.
    pub open spec fn ready(&self) -> bool {
        &&& self.buffer.wf()
        &&& self.buffer.index < self.buffer.cells_view().len()
    }
}

/// The column or row `v` kept within `0..n`.
pub open spec fn clamp(v: int, n: int) -> int {
    if v < 0 { 0 } else if v > n - 1 { n - 1 } else { v }
}

/// Screens that were ready and whose buffers did not change are still
/// ready.
proof fn lemma_kept_ready(a: &Store, b: &Store)
    requires
        a.wf(),
        a.screens().len() == b.screens().len(),
        0 <= b.current_id() < b.screens().len(),
        b.current().ready(),
        forall|i: int| 0 <= i < b.screens().len() && i != b.current_id()
            ==> #[trigger] b.screens()[i] == a.screens()[i],
    ensures
        b.wf(),
{
    assert forall|i: int| 0 <= i < b.screens().len() implies #[trigger] b.screens()[i].ready() by {
        if i != b.current_id() {
            assert(b.screens()[i] == a.screens()[i]);
            assert(a.screens()[i].ready());
        }
    }
}

/// The store of screens.
pub struct Store {
    id: usize,
    data: Vec<Screen>,
}

impl Store {
    /// The screens, in the order they were made.
    pub closed spec fn screens(&self) -> Seq<Screen> {
        self.data@
    }

    /// The index of the current screen.
    pub closed spec fn current_id(&self) -> int {
        self.id as int
    }

    /// The current screen.
    pub open spec fn current(&self) -> Screen {
        self.screens()[self.current_id()]
    }

    /// There is a screen, the current one exists, and every screen is
    /// ready.
    pub open spec fn wf(&self) -> bool {
        &&& self.screens().len() >= 1
        &&& 0 <= self.current_id() < self.screens().len()
        &&& forall|i: int| 0 <= i < self.screens().len() ==> #[trigger] self.screens()[i].ready()
    }

    /// `self` is `old` with only the buffer of the current screen changed.
    pub open spec fn only_buffer(&self, old: &Store) -> bool {
        &&& self.current_id() == old.current_id()
        &&& self.screens().len() == old.screens().len()
        &&& forall|i: int| 0 <= i < self.screens().len() && i != self.current_id()
            ==> #[trigger] self.screens()[i] == old.screens()[i]
        &&& self.current().is_raw_enabled == old.current().is_raw_enabled
        &&& self.current().is_mouse_enabled == old.current().is_mouse_enabled
        &&& self.current().is_cursor_visible == old.current().is_cursor_visible
    }

    /// A store with one screen of `w` columns and `h` rows, which is
    /// current.
    pub fn new(w: i16, h: i16) -> (res: Store)
        requires
            Buffer::size_ok(w as int, h as int),
        ensures
            res.wf(),
            res.screens().len() == 1,
            res.current_id() == 0,
            !res.current().is_raw_enabled,
            !res.current().is_mouse_enabled,
            res.current().is_cursor_visible,
            res.current().buffer.width == w,
            res.current().buffer.height == h,
            res.current().buffer.cells_view() == Seq::new((w * h) as nat, |i: int| CellView::Nil),
            res.current().buffer.index == 0,
            res.current().buffer.strbuf@ == Seq::<char>::empty(),
            res.current().buffer.style == (Color::Reset, Color::Reset, crate::enums::Effect::Reset.spec_bits()),
            res.current().buffer.savedpos == 0,
            res.current().buffer.tabwidth == 4,
            !res.current().buffer.use_winapi,
            !res.current().buffer.can_modify,
    {
        proof {
            assert(w * h >= 1) by (nonlinear_arith)
                requires
                    w >= 1,
                    h >= 1,
            ;
        }
        let mut data: Vec<Screen> = Vec::new();
        data.push(Screen::new(w, h));
        let res = Store { id: 0, data };
        assert(res.screens()[0].ready());
        res
    }

    /// The index of the current screen.
    pub fn id(&self) -> (res: usize)
        ensures
            res == self.current_id(),
    {
        self.id
    }

    /// Whether there is a screen at `id`.
    pub fn screen_exists(&self, id: usize) -> (res: bool)
        ensures
            res == (id < self.screens().len()),
    {
        id < self.data.len()
    }

    /// Makes the screen at `id` current, where there is one.
    pub fn set(&mut self, id: usize)
        requires
            old(self).wf(),
        ensures
            final(self).wf(),
            final(self).screens() == old(self).screens(),
            final(self).current_id() == (if id < old(self).screens().len() {
                id as int
            } else {
                old(self).current_id()
            }),
    {
        if id < self.data.len() {
            self.id = id;
        }
    }

    /// Adds a screen of `w` columns and `h` rows and makes it current.
    pub fn new_screen(&mut self, w: i16, h: i16)
        requires
            old(self).wf(),
            Buffer::size_ok(w as int, h as int),
        ensures
            final(self).wf(),
            final(self).screens().len() == old(self).screens().len() + 1,
            final(self).screens().take(old(self).screens().len() as int) == old(self).screens(),
            final(self).current_id() == old(self).screens().len(),
            !final(self).current().is_raw_enabled,
            !final(self).current().is_mouse_enabled,
            final(self).current().is_cursor_visible,
            final(self).current().buffer.width == w,
            final(self).current().buffer.height == h,
            final(self).current().buffer.cells_view() == Seq::new((w * h) as nat, |i: int| CellView::Nil),
            final(self).current().buffer.index == 0,
    {
        let screen = Screen::new(w, h);
        proof {
            assert(w * h >= 1) by (nonlinear_arith)
                requires
                    w >= 1,
                    h >= 1,
            ;
        }
        self.data.push(screen);
        self.id = self.data.len() - 1;
        assert(self.data@.take(old(self).data@.len() as int) =~= old(self).data@);
        assert forall|i: int| 0 <= i < self.screens().len() implies #[trigger] self.screens()[i].ready() by {
            if i < old(self).screens().len() {
                assert(self.screens()[i] == old(self).screens()[i]);
            }
        }
    }

    /// The (column, row) of the cursor on the current screen.
    pub fn coord(&self) -> (res: (i16, i16))
        requires
            self.wf(),
        ensures
            res.0 == (self.current().buffer.index as int) % (self.current().buffer.width as int),
            res.1 == (self.current().buffer.index as int) / (self.current().buffer.width as int),
    {
        let b = &self.data[self.id].buffer;
        assert(self.current().ready());
        proof {
            assert(b.width * b.height <= b.width * (b.height + 1)) by (nonlinear_arith)
                requires
                    b.width > 0,
                    b.height > 0,
            ;
        }
        b.coord(b.index)
    }

    /// The number of columns and rows of the current screen.
    pub fn size(&self) -> (res: (i16, i16))
        requires
            self.wf(),
        ensures
            res == (self.current().buffer.width, self.current().buffer.height),
    {
        self.data[self.id].buffer.size()
    }

    /// Whether the current screen is in raw mode.
    pub fn is_raw(&self) -> (res: bool)
        requires
            self.wf(),
        ensures
            res == self.current().is_raw_enabled,
    {
        self.data[self.id].is_raw_enabled
    }

    /// Whether the current screen shows the cursor.
    pub fn is_cursor(&self) -> (res: bool)
        requires
            self.wf(),
        ensures
            res == self.current().is_cursor_visible,
    {
        self.data[self.id].is_cursor_visible
    }

    /// Whether the current screen reports the mouse.
    pub fn is_mouse(&self) -> (res: bool)
        requires
            self.wf(),
        ensures
            res == self.current().is_mouse_enabled,
    {
        self.data[self.id].is_mouse_enabled
    }

    /// Turns raw mode on the current screen on or off.
    pub fn sync_raw(&mut self, state: bool)
        requires
            old(self).wf(),
        ensures
            final(self).wf(),
            final(self).current_id() == old(self).current_id(),
            final(self).screens() == old(self).screens().update(
                old(self).current_id(),
                Screen { is_raw_enabled: state, ..old(self).current() },
            ),
    {
        let id = self.id;
        self.data[id].is_raw_enabled = state;
        proof {
            assert(old(self).screens()[id as int].ready());
            assert(self.screens()[id as int].buffer == old(self).screens()[id as int].buffer);
            lemma_kept_ready(old(self), self);
        }
    }
}

/// Two buffers that differ at most in their cells, cursor and output.
pub open spec fn same_setup(a: Buffer, b: Buffer) -> bool {
    &&& a.width == b.width
    &&& a.height == b.height
    &&& a.style == b.style
    &&& a.savedpos == b.savedpos
    &&& a.tabwidth == b.tabwidth
    &&& a.use_winapi == b.use_winapi
    &&& a.can_modify == b.can_modify
}

impl Store {
    /// Shows or hides the cursor on the current screen.
    pub fn sync_cursor(&mut self, state: bool)
        requires
            old(self).wf(),
        ensures
            final(self).wf(),
            final(self).current_id() == old(self).current_id(),
            final(self).screens() == old(self).screens().update(
                old(self).current_id(),
                Screen { is_cursor_visible: state, ..old(self).current() },
            ),
    {
        let id = self.id;
        self.data[id].is_cursor_visible = state;
        proof {
            assert(old(self).screens()[id as int].ready());
            assert(self.screens()[id as int].buffer == old(self).screens()[id as int].buffer);
            lemma_kept_ready(old(self), self);
        }
    }

    /// Turns mouse reporting on the current screen on or off.
    pub fn sync_mouse(&mut self, state: bool)
        requires
            old(self).wf(),
        ensures
            final(self).wf(),
            final(self).current_id() == old(self).current_id(),
            final(self).screens() == old(self).screens().update(
                old(self).current_id(),
                Screen { is_mouse_enabled: state, ..old(self).current() },
            ),
    {
        let id = self.id;
        self.data[id].is_mouse_enabled = state;
        proof {
            assert(old(self).screens()[id as int].ready());
            assert(self.screens()[id as int].buffer == old(self).screens()[id as int].buffer);
            lemma_kept_ready(old(self), self);
        }
    }

    /// Hands out the output built for the current screen since the last
    /// render, and starts a new one.
    pub fn render(&mut self) -> (res: String)
        requires
            old(self).wf(),
        ensures
            final(self).wf(),
            final(self).only_buffer(old(self)),
            res@ == old(self).current().buffer.strbuf@,
            final(self).current().buffer.strbuf@ == Seq::<char>::empty(),
            final(self).current().buffer.cells == old(self).current().buffer.cells,
            final(self).current().buffer.index == old(self).current().buffer.index,
            same_setup(final(self).current().buffer, old(self).current().buffer),
    {
        let id = self.id;
        assert(self.data@[id as int].ready());
        let out = self.data[id].buffer.flush();
        proof {
            lemma_kept_ready(old(self), self);
        }
        out
    }

    /// The cursor of the current screen, settled as `Buffer::cursor` does,
    /// does not rest on the right half of a wide character (where there is
    /// nothing to read).
    pub open spec fn getch_ok(&self) -> bool {
        let b = self.current().buffer;
        let (c, i) = cursor_fix(b.cells_view(), b.width * b.height, b.index as int);
        !(c[i] is Link)
    }

    /// Whether `getch` can read (see `getch_ok`).
    pub fn can_getch(&self) -> (res: bool)
        requires
            self.wf(),
        ensures
            res == self.getch_ok(),
    {
        let id = self.id;
        assert(self.data@[id as int].ready());
        let b = &self.data[id].buffer;
        let i = b.index;
        assert(cell_views(b.cells@)[i as int] == b.cells@[i as int]@);
        match &b.cells[i] {
            Cell::Link => {
                assert(i >= 1);
                assert(cell_views(b.cells@)[i - 1] == b.cells@[i - 1]@);
                match &b.cells[i - 1] {
                    Cell::Link => false,
                    _ => true,
                }
            },
            _ => true,
        }
    }

    /// The characters under the cursor of the current screen (see
    /// `Buffer::getch`).
    pub fn getch(&mut self) -> (res: String)
        requires
            old(self).wf(),
            old(self).getch_ok(),
        ensures
            final(self).wf(),
            final(self).only_buffer(old(self)),
            ({
                let b = old(self).current().buffer;
                let (c, i) = cursor_fix(b.cells_view(), b.width * b.height, b.index as int);
                &&& final(self).current().buffer.cells_view() == c
                &&& final(self).current().buffer.index == i
                &&& res@ == cell_text(c[i])
            }),
            final(self).current().buffer.strbuf == old(self).current().buffer.strbuf,
            same_setup(final(self).current().buffer, old(self).current().buffer),
    {
        let id = self.id;
        assert(self.data@[id as int].ready());
        let res = self.data[id].buffer.getch();
        proof {
            lemma_kept_ready(old(self), self);
        }
        res
    }
}

impl Store {
    /// Moves the cursor of the current screen to (col, row), settled as
    /// `Buffer::cursor` does.
    pub fn sync_goto(&mut self, col: i16, row: i16)
        requires
            old(self).wf(),
            col > i16::MIN,
            row > i16::MIN,
            abs(row as int) * old(self).current().buffer.width + abs(col as int) <= i16::MAX,
        ensures
            final(self).wf(),
            final(self).only_buffer(old(self)),
            ({
                let b = old(self).current().buffer;
                (final(self).current().buffer.cells_view(), final(self).current().buffer.index as int)
                    == cursor_fix(b.cells_view(), b.width * b.height, index_of(b.width as int, abs(col as int), abs(row as int)))
            }),
            final(self).current().buffer.strbuf == old(self).current().buffer.strbuf,
            same_setup(final(self).current().buffer, old(self).current().buffer),
    {
        let id = self.id;
        assert(self.data@[id as int].ready());
        self.data[id].buffer.goto_coord(col, row);
        proof {
            lemma_kept_ready(old(self), self);
        }
    }

    /// Moves the cursor of the current screen to column `col` of its row,
    /// kept on the screen.
    fn move_to_col(&mut self, col: i32)
        requires
            old(self).wf(),
        ensures
            final(self).wf(),
            final(self).only_buffer(old(self)),
            ({
                let b = old(self).current().buffer;
                let w = b.width as int;
                (final(self).current().buffer.cells_view(), final(self).current().buffer.index as int)
                    == cursor_fix(b.cells_view(), w * b.height, index_of(w, clamp(col as int, w), (b.index as int) / w))
            }),
            final(self).current().buffer.strbuf == old(self).current().buffer.strbuf,
            same_setup(final(self).current().buffer, old(self).current().buffer),
    {
        let id = self.id;
        assert(self.data@[id as int].ready());
        let (w, h) = self.data[id].buffer.size();
        let index = self.data[id].buffer.index;
        proof {
            lemma_coord(w as int, h as int, index as int);
        }
        let row = (index / (w as usize)) as i16;
        let c: i16 = if col < 0 { 0 } else if col > (w as i32) - 1 { w - 1 } else { col as i16 };
        proof {
            assert((row as int) * (w as int) + (c as int) <= (row as int) * (w as int) + (w as int) - 1);
            assert((row as int + 1) * (w as int) == (row as int) * (w as int) + (w as int)) by (nonlinear_arith);
            assert((row as int) == (index as int) / (w as int));
            assert((w as int) * (h as int) <= (w as int) * (h as int + 1)) by (nonlinear_arith)
                requires
                    w > 0,
                    h > 0,
            ;
        }
        self.data[id].buffer.goto_coord(c, row);
        proof {
            lemma_kept_ready(old(self), self);
        }
    }

    /// Moves the cursor of the current screen to row `row`, in its column,
    /// kept on the screen.
    fn move_to_row(&mut self, row: i32)
        requires
            old(self).wf(),
        ensures
            final(self).wf(),
            final(self).only_buffer(old(self)),
            ({
                let b = old(self).current().buffer;
                let w = b.width as int;
                (final(self).current().buffer.cells_view(), final(self).current().buffer.index as int)
                    == cursor_fix(b.cells_view(), w * b.height, index_of(w, (b.index as int) % w, clamp(row as int, b.height as int)))
            }),
            final(self).current().buffer.strbuf == old(self).current().buffer.strbuf,
            same_setup(final(self).current().buffer, old(self).current().buffer),
    {
        let id = self.id;
        assert(self.data@[id as int].ready());
        let (w, h) = self.data[id].buffer.size();
        let index = self.data[id].buffer.index;
        proof {
            lemma_coord(w as int, h as int, index as int);
        }
        let col = (index % (w as usize)) as i16;
        let r: i16 = if row < 0 { 0 } else if row > (h as i32) - 1 { h - 1 } else { row as i16 };
        proof {
            assert((r as int) * (w as int) + (col as int) < (r as int + 1) * (w as int)) by (nonlinear_arith)
                requires
                    col < w,
            ;
            assert((r as int + 1) * (w as int) <= (h as int) * (w as int)) by (nonlinear_arith)
                requires
                    r < h,
                    w > 0,
            ;
            assert((h as int) * (w as int) <= (w as int) * (h as int + 1)) by (nonlinear_arith)
                requires
                    w > 0,
                    h > 0,
            ;
        }
        self.data[id].buffer.goto_coord(col, r);
        proof {
            lemma_kept_ready(old(self), self);
        }
    }

    /// Moves the cursor of the current screen `n` columns left (right for
    /// a negative `n`), stopping at the edge of the screen.
    pub fn sync_left(&mut self, n: i16)
        requires
            old(self).wf(),
        ensures
            final(self).wf(),
            final(self).only_buffer(old(self)),
            ({
                let b = old(self).current().buffer;
                let w = b.width as int;
                (final(self).current().buffer.cells_view(), final(self).current().buffer.index as int)
                    == cursor_fix(b.cells_view(), w * b.height, index_of(w, clamp((b.index as int) % w - n, w), (b.index as int) / w))
            }),
            final(self).current().buffer.strbuf == old(self).current().buffer.strbuf,
            same_setup(final(self).current().buffer, old(self).current().buffer),
    {
        let (col, _) = self.coord();
        self.move_to_col(col as i32 - n as i32);
    }

    /// Moves the cursor of the current screen `n` columns right (left for
    /// a negative `n`), stopping at the edge of the screen.
    pub fn sync_right(&mut self, n: i16)
        requires
            old(self).wf(),
        ensures
            final(self).wf(),
            final(self).only_buffer(old(self)),
            ({
                let b = old(self).current().buffer;
                let w = b.width as int;
                (final(self).current().buffer.cells_view(), final(self).current().buffer.index as int)
                    == cursor_fix(b.cells_view(), w * b.height, index_of(w, clamp((b.index as int) % w + n, w), (b.index as int) / w))
            }),
            final(self).current().buffer.strbuf == old(self).current().buffer.strbuf,
            same_setup(final(self).current().buffer, old(self).current().buffer),
    {
        let (col, _) = self.coord();
        self.move_to_col(col as i32 + n as i32);
    }

    /// Moves the cursor of the current screen `n` rows up (down for a
    /// negative `n`), stopping at the edge of the screen.
    pub fn sync_up(&mut self, n: i16)
        requires
            old(self).wf(),
        ensures
            final(self).wf(),
            final(self).only_buffer(old(self)),
            ({
                let b = old(self).current().buffer;
                let w = b.width as int;
                (final(self).current().buffer.cells_view(), final(self).current().buffer.index as int)
                    == cursor_fix(b.cells_view(), w * b.height, index_of(w, (b.index as int) % w, clamp((b.index as int) / w - n, b.height as int)))
            }),
            final(self).current().buffer.strbuf == old(self).current().buffer.strbuf,
            same_setup(final(self).current().buffer, old(self).current().buffer),
    {
        let (_, row) = self.coord();
        self.move_to_row(row as i32 - n as i32);
    }

    /// Moves the cursor of the current screen `n` rows down (up for a
    /// negative `n`), stopping at the edge of the screen.
    pub fn sync_down(&mut self, n: i16)
        requires
            old(self).wf(),
        ensures
            final(self).wf(),
            final(self).only_buffer(old(self)),
            ({
                let b = old(self).current().buffer;
                let w = b.width as int;
                (final(self).current().buffer.cells_view(), final(self).current().buffer.index as int)
                    == cursor_fix(b.cells_view(), w * b.height, index_of(w, (b.index as int) % w, clamp((b.index as int) / w + n, b.height as int)))
            }),
            final(self).current().buffer.strbuf == old(self).current().buffer.strbuf,
            same_setup(final(self).current().buffer, old(self).current().buffer),
    {
        let (_, row) = self.coord();
        self.move_to_row(row as i32 + n as i32);
    }
}

impl Store {
    /// Moves the cursor of the current screen to its saved position, and
    /// saves where it was (see `Buffer::goto_mark`).
    pub fn jump(&mut self)
        requires
            old(self).wf(),
        ensures
            final(self).wf(),
            final(self).only_buffer(old(self)),
            ({
                let b = old(self).current().buffer;
                let f = final(self).current().buffer;
                let (c1, i1) = cursor_fix(b.cells_view(), b.width * b.height, b.index as int);
                let (c2, i2) = cursor_fix(c1, b.width * b.height, b.savedpos as int);
                &&& f.cells_view() == c2
                &&& f.index == i2
                &&& f.savedpos == i1
            }),
            final(self).current().buffer.strbuf == old(self).current().buffer.strbuf,
            final(self).current().buffer.width == old(self).current().buffer.width,
            final(self).current().buffer.height == old(self).current().buffer.height,
            final(self).current().buffer.style == old(self).current().buffer.style,
            final(self).current().buffer.tabwidth == old(self).current().buffer.tabwidth,
            final(self).current().buffer.can_modify == old(self).current().buffer.can_modify,
            final(self).current().buffer.use_winapi == old(self).current().buffer.use_winapi,
    {
        let id = self.id;
        assert(self.data@[id as int].ready());
        self.data[id].buffer.goto_mark();
        proof {
            let b = self.data@[id as int].buffer;
            assert(b.width * b.height >= 1) by (nonlinear_arith)
                requires
                    b.width >= 1,
                    b.height >= 1,
            ;
            let ob = old(self).current().buffer;
            lemma_cursor_fix(ob.cells_view(), ob.width * ob.height, ob.index as int);
            let c1 = cursor_fix(ob.cells_view(), ob.width * ob.height, ob.index as int).0;
            lemma_cursor_fix(c1, ob.width * ob.height, ob.savedpos as int);
            lemma_kept_ready(old(self), self);
        }
    }

    /// Saves (col, row) as the position of the current screen that `jump`
    /// goes back to.
    pub fn sync_marker(&mut self, col: i16, row: i16)
        requires
            old(self).wf(),
            col > i16::MIN,
            row > i16::MIN,
            abs(row as int) * old(self).current().buffer.width + abs(col as int) <= i16::MAX,
        ensures
            final(self).wf(),
            final(self).current_id() == old(self).current_id(),
            final(self).screens() == old(self).screens().update(
                old(self).current_id(),
                Screen {
                    buffer: Buffer {
                        savedpos: index_of(
                            old(self).current().buffer.width as int,
                            abs(col as int),
                            abs(row as int),
                        ) as usize,
                        ..old(self).current().buffer
                    },
                    ..old(self).current()
                },
            ),
    {
        let id = self.id;
        assert(self.data@[id as int].ready());
        let pos = self.data[id].buffer.index((col, row));
        self.data[id].buffer.savedpos = pos;
        proof {
            lemma_kept_ready(old(self), self);
        }
    }

    /// Resizes the current screen to `w` columns and `h` rows (cells are
    /// kept by index, see `Buffer::resize`), and settles its cursor.
    pub fn sync_size(&mut self, w: i16, h: i16)
        requires
            old(self).wf(),
            Buffer::size_ok(w as int, h as int),
        ensures
            final(self).wf(),
            final(self).only_buffer(old(self)),
            ({
                let b = old(self).current().buffer;
                let resized = if w * h <= b.cells_view().len() {
                    b.cells_view().take(w * h)
                } else {
                    b.cells_view() + Seq::new((w * h - b.cells_view().len()) as nat, |i: int| CellView::Nil)
                };
                (final(self).current().buffer.cells_view(), final(self).current().buffer.index as int)
                    == cursor_fix(resized, w * h, b.index as int)
            }),
            final(self).current().buffer.width == w,
            final(self).current().buffer.height == h,
            final(self).current().buffer.strbuf@ == old(self).current().buffer.strbuf@,
            final(self).current().buffer.style == old(self).current().buffer.style,
            final(self).current().buffer.savedpos == old(self).current().buffer.savedpos,
            final(self).current().buffer.tabwidth == old(self).current().buffer.tabwidth,
            final(self).current().buffer.can_modify == old(self).current().buffer.can_modify,
            final(self).current().buffer.use_winapi == old(self).current().buffer.use_winapi,
    {
        let id = self.id;
        assert(self.data@[id as int].ready());
        self.data[id].buffer.resize(w, h);
        self.data[id].buffer.cursor();
        proof {
            lemma_kept_ready(old(self), self);
        }
    }

    /// Sets the tab width of the current screen.
    pub fn sync_tab_size(&mut self, n: usize)
        requires
            old(self).wf(),
            1 <= n <= i16::MAX,
        ensures
            final(self).wf(),
            final(self).current_id() == old(self).current_id(),
            final(self).screens() == old(self).screens().update(
                old(self).current_id(),
                Screen { buffer: Buffer { tabwidth: n, ..old(self).current().buffer }, ..old(self).current() },
            ),
    {
        let id = self.id;
        assert(self.data@[id as int].ready());
        self.data[id].buffer.tabwidth = n;
        proof {
            lemma_kept_ready(old(self), self);
        }
    }

    /// Writes `content` at the cursor of the current screen (see
    /// `Buffer::try_parse`); returns `false`, changing nothing, where it
    /// would go past the cells.
    pub fn sync_content(&mut self, content: &str) -> (ok: bool)
        requires
            old(self).wf(),
        ensures
            final(self).wf(),
            final(self).only_buffer(old(self)),
            ok == old(self).current().buffer.parsed(extended_graphemes(content@)) is Some,
            ok ==> ({
                let (c, o, i) = old(self).current().buffer.parsed(extended_graphemes(content@))->0;
                &&& final(self).current().buffer.cells_view() == c
                &&& final(self).current().buffer.strbuf@ == o
                &&& final(self).current().buffer.index == i
            }),
            !ok ==> final(self).screens() == old(self).screens(),
            same_setup(final(self).current().buffer, old(self).current().buffer),
    {
        let id = self.id;
        assert(self.data@[id as int].ready());
        let ok = self.data[id].buffer.try_parse(content);
        proof {
            let b = self.data@[id as int].buffer;
            assert(b.width * b.height >= 1) by (nonlinear_arith)
                requires
                    b.width >= 1,
                    b.height >= 1,
            ;
            if ok {
            } else {
                assert(self.data@ =~= old(self).data@);
            }
            lemma_kept_ready(old(self), self);
        }
        ok
    }

    /// Sets one part of the style of new text on the current screen.
    pub fn sync_style(&mut self, style: Style)
        requires
            old(self).wf(),
        ensures
            final(self).wf(),
            final(self).current_id() == old(self).current_id(),
            final(self).screens() == old(self).screens().update(
                old(self).current_id(),
                Screen {
                    buffer: Buffer {
                        style: match style {
                            Style::Fg(c) => (c, old(self).current().buffer.style.1, old(self).current().buffer.style.2),
                            Style::Bg(c) => (old(self).current().buffer.style.0, c, old(self).current().buffer.style.2),
                            Style::Fx(f) => (old(self).current().buffer.style.0, old(self).current().buffer.style.1, f),
                        },
                        ..old(self).current().buffer
                    },
                    ..old(self).current()
                },
            ),
    {
        let id = self.id;
        assert(self.data@[id as int].ready());
        match style {
            Style::Fg(c) => self.data[id].buffer.style.0 = c,
            Style::Bg(c) => self.data[id].buffer.style.1 = c,
            Style::Fx(f) => self.data[id].buffer.style.2 = f,
        }
        proof {
            lemma_kept_ready(old(self), self);
        }
    }

    /// Sets the style of new text on the current screen.
    pub fn sync_styles(&mut self, f: Color, b: Color, fx: u32)
        requires
            old(self).wf(),
        ensures
            final(self).wf(),
            final(self).current_id() == old(self).current_id(),
            final(self).screens() == old(self).screens().update(
                old(self).current_id(),
                Screen { buffer: Buffer { style: (f, b, fx), ..old(self).current().buffer }, ..old(self).current() },
            ),
    {
        let id = self.id;
        assert(self.data@[id as int].ready());
        self.data[id].buffer.style = (f, b, fx);
        proof {
            lemma_kept_ready(old(self), self);
        }
    }

    /// Clears part of the current screen (see `Buffer::clear`).
    pub fn sync_clear(&mut self, clr: Clear)
        requires
            old(self).wf(),
        ensures
            final(self).wf(),
            final(self).only_buffer(old(self)),
            ({
                let b = old(self).current().buffer;
                let f = final(self).current().buffer;
                let w = b.width as int;
                &&& clr is All ==> f.cells_view() == Seq::new((w * b.height) as nat, |i: int| CellView::Nil)
                    && f.index == 0
                &&& !(clr is All) ==> ({
                    let (c1, i) = cursor_fix(b.cells_view(), w * b.height, b.index as int);
                    let (lo, hi) = crate::store::buffer::clear_range(clr, w, b.height as int, i % w, i / w);
                    &&& f.cells_view() == crate::store::buffer::nil_range(c1, lo, hi)
                    &&& f.index == (if clr is CurrentLn { (i / w) * w } else { i })
                })
            }),
            final(self).current().buffer.strbuf == old(self).current().buffer.strbuf,
            same_setup(final(self).current().buffer, old(self).current().buffer),
    {
        let id = self.id;
        assert(self.data@[id as int].ready());
        self.data[id].buffer.clear(clr);
        proof {
            let b = old(self).current().buffer;
            let w = b.width as int;
            assert(w * b.height >= 1) by (nonlinear_arith)
                requires
                    w >= 1,
                    b.height >= 1,
            ;
            lemma_cursor_fix(b.cells_view(), w * b.height, b.index as int);
            let i = cursor_fix(b.cells_view(), w * b.height, b.index as int).1;
            lemma_coord(w, b.height as int, i);
            lemma_kept_ready(old(self), self);
        }
    }
}

/// What the cells show, one after another (a space for an empty cell).
pub open spec fn screen_text(cells: Seq<CellView>) -> Seq<char> {
    cells.map_values(|c: CellView| cell_text(c)).flatten()
}

impl Store {
    /// What the cells of the current screen show, row after row.
    pub fn contents(&self) -> (res: String)
        requires
            self.wf(),
        ensures
            res@ == screen_text(self.current().buffer.cells_view()),
    {
        let cells = &self.data[self.id].buffer.cells;
        let ghost texts = cell_views(cells@).map_values(|c: CellView| cell_text(c));
        let mut out = String::new();
        let mut i: usize = 0;
        assert(texts.take(0) =~= Seq::<Seq<char>>::empty());
        while i < cells.len()
            invariant
                i <= cells@.len(),
                texts == cell_views(cells@).map_values(|c: CellView| cell_text(c)),
                out@ == texts.take(i as int).flatten(),
            decreases cells.len() - i,
        {
            let t = cell_string(&cells[i]);
            out.append(t.as_str());
            proof {
                assert(texts.take(i as int + 1) =~= texts.take(i as int).push(texts[i as int]));
                texts.take(i as int).lemma_flatten_push(texts[i as int]);
            }
            i += 1;
        }
        assert(texts.take(cells@.len() as int) =~= texts);
        out
    }
}

} // verus!
