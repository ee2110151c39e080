//! The cache of a Windows console screen: one console cell (a UTF-16 code
//! unit and its attributes) per position, read from and written back to the
//! console as a block, with the cursor and the style of new text.

use vstd::prelude::*;
use crate::cache::{default_style, down_row, left_pos, right_pos, up_row};
use crate::enums::{Color, Effect, Style};
use crate::store::buffer::Buffer;

verus! {

/// What the console keeps for one cell: a UTF-16 code unit and its
/// attributes.
#[derive(Clone, Copy, Debug, PartialEq, Eq, Structural)]
pub struct CharInfo {
    pub ch: u16,
    pub attributes: u16,
}

/// A console cell that holds nothing: both fields zero.
pub open spec fn zeroed() -> CharInfo {
    CharInfo { ch: 0, attributes: 0 }
}

/// The cache of one console screen.
pub struct CharInfoCache {
    pub screen_pos: (i16, i16),
    pub screen_size: (i16, i16),
    pub style: (Color, Color, u32),
    /// One console cell per position, in row-major order.
    pub buffer: Vec<CharInfo>,
}

/// `n` zeroed console cells.
fn zeroed_cells(n: usize) -> (res: Vec<CharInfo>)
    ensures
        res@ == Seq::new(n as nat, |i: int| zeroed()),
{
    let mut v: Vec<CharInfo> = Vec::new();
    while v.len() < n
        invariant
            v@.len() <= n,
            v@ =~= Seq::new(v@.len() as nat, |i: int| zeroed()),
        decreases n - v.len(),
    {
        v.push(CharInfo { ch: 0, attributes: 0 });
    }
    v
}

impl CharInfoCache {
    /// The size fits (as for `Buffer`) and there is one cell per position.
    pub open spec fn wf(&self) -> bool {
        &&& Buffer::size_ok(self.screen_size.0 as int, self.screen_size.1 as int)
        &&& self.buffer@.len() == self.screen_size.0 * self.screen_size.1
    }

    /// A cache of a `w` by `h` console: zeroed cells, cursor at the top
    /// left, default style.
    pub fn new(w: i16, h: i16) -> (res: CharInfoCache)
        requires
            Buffer::size_ok(w as int, h as int),
        ensures
            res.wf(),
            res.screen_pos == (0i16, 0i16),
            res.screen_size == (w, h),
            res.style == default_style(),
            res.buffer@ == Seq::new((w * h) as nat, |i: int| zeroed()),
    {
        proof {
            assert(w * h <= w * (h + 1)) by (nonlinear_arith)
                requires
                    w > 0,
                    h > 0,
            ;
        }
        let capacity = (w * h) as usize;
        CharInfoCache {
            screen_pos: (0, 0),
            screen_size: (w, h),
            style: (Color::Reset, Color::Reset, Effect::Reset.bits()),
            buffer: zeroed_cells(capacity),
        }
    }

    /// The number of columns and rows.
    pub fn _screen_size(&self) -> (res: (i16, i16))
        ensures
            res == self.screen_size,
    {
        self.screen_size
    }

    /// The cursor's (column, row).
    pub fn _screen_pos(&self) -> (res: (i16, i16))
        ensures
            res == self.screen_pos,
    {
        self.screen_pos
    }

    /// Changes the size; cells are kept by index, cut off at the end or
    /// added zeroed at the end. The cursor stays where it was.
    pub fn _sync_size(&mut self, w: i16, h: i16)
        requires
            Buffer::size_ok(w as int, h as int),
        ensures
            final(self).wf(),
            final(self).screen_size == (w, h),
            final(self).buffer@ == (if w * h <= old(self).buffer@.len() {
                old(self).buffer@.take(w * h)
            } else {
                old(self).buffer@ + Seq::new((w * h - old(self).buffer@.len()) as nat, |i: int| zeroed())
            }),
            final(self).screen_pos == old(self).screen_pos,
            final(self).style == old(self).style,
    {
        proof {
            assert(w * h <= w * (h + 1)) by (nonlinear_arith)
                requires
                    w > 0,
                    h > 0,
            ;
        }
        self.screen_size = (w, h);
        let capacity = (w * h) as usize;
        let ghost before = self.buffer@;
        if capacity <= self.buffer.len() {
            self.buffer.truncate(capacity);
        } else {
            while self.buffer.len() < capacity
                invariant
                    before.len() <= self.buffer@.len() <= capacity,
                    self.buffer@ =~= before + Seq::new(
                        (self.buffer@.len() - before.len()) as nat,
                        |i: int| zeroed(),
                    ),
                    self.screen_size == (w, h),
                    self.screen_pos == old(self).screen_pos,
                    self.style == old(self).style,
                decreases capacity - self.buffer.len(),
            {
                self.buffer.push(CharInfo { ch: 0, attributes: 0 });
            }
        }
    }

    /// Sets the cursor's (column, row).
    pub fn _sync_pos(&mut self, col: i16, row: i16)
        ensures
            final(self).screen_pos == (col, row),
            final(self).buffer == old(self).buffer,
            final(self).screen_size == old(self).screen_size,
            final(self).style == old(self).style,
    {
        self.screen_pos = (col, row);
    }

    /// Moves the cursor `n` rows up, stopping at the top row; a negative
    /// `n` does nothing.
    pub fn _sync_up(&mut self, n: i16)
        requires
            old(self).screen_pos.1 >= 0,
        ensures
            final(self).screen_pos == (old(self).screen_pos.0, up_row(old(self).screen_pos.1 as int, n as int) as i16),
            final(self).buffer == old(self).buffer,
            final(self).screen_size == old(self).screen_size,
            final(self).style == old(self).style,
    {
        if n < 0 {
            return;
        }
        let current_row = self.screen_pos.1;
        if current_row - n > 0 {
            self.screen_pos.1 = current_row - n;
        } else {
            self.screen_pos.1 = 0;
        }
    }

    /// Moves the cursor `n` rows down, stopping at the row past the last
    /// one; a negative `n` does nothing.
    pub fn _sync_down(&mut self, n: i16)
        requires
            n < 0 || old(self).screen_pos.1 + n <= i16::MAX,
        ensures
            final(self).screen_pos == (old(self).screen_pos.0, down_row(
                old(self).screen_pos.1 as int,
                n as int,
                old(self).screen_size.1 as int,
            ) as i16),
            final(self).buffer == old(self).buffer,
            final(self).screen_size == old(self).screen_size,
            final(self).style == old(self).style,
    {
        if n < 0 {
            return;
        }
        let h = self.screen_size.1;
        let current_row = self.screen_pos.1;
        if current_row + n < h {
            self.screen_pos.1 = current_row + n;
        } else {
            self.screen_pos.1 = h;
        }
    }

    /// Moves the cursor `n` columns left; where that passes the first
    /// column, whole rows of `n` move it up and the rest left, stopping at
    /// the first column. A negative `n` does nothing.
    pub fn _sync_left(&mut self, n: i16)
        requires
            old(self).screen_size.0 > 0,
            old(self).screen_pos.0 >= 0,
            old(self).screen_pos.1 >= 0,
        ensures
            final(self).screen_pos == left_pos(old(self).screen_pos, n, old(self).screen_size.0),
            final(self).buffer == old(self).buffer,
            final(self).screen_size == old(self).screen_size,
            final(self).style == old(self).style,
    {
        if n < 0 {
            return;
        }
        let current_col = self.screen_pos.0;
        if current_col - n > 0 {
            self.screen_pos.0 = current_col - n;
        } else {
            let w = self.screen_size.0;
            let rows = n / w;
            let rest = n % w;
            self._sync_up(rows);
            if current_col - rest > 0 {
                self.screen_pos.0 = current_col - rest;
            } else {
                self.screen_pos.0 = 0;
            }
        }
    }

    /// Moves the cursor `n` columns right; where that passes the last
    /// column, whole rows of `n` move it down and the rest right, stopping
    /// at the column past the last one. A negative `n` does nothing.
    pub fn _sync_right(&mut self, n: i16)
        requires
            old(self).screen_size.0 > 0,
            n < 0 || old(self).screen_pos.0 + n <= i16::MAX,
            n < 0 || old(self).screen_pos.1 + n / old(self).screen_size.0 <= i16::MAX,
        ensures
            final(self).screen_pos == right_pos(old(self).screen_pos, n, old(self).screen_size),
            final(self).buffer == old(self).buffer,
            final(self).screen_size == old(self).screen_size,
            final(self).style == old(self).style,
    {
        if n < 0 {
            return;
        }
        let w = self.screen_size.0;
        let current_col = self.screen_pos.0;
        if current_col + n < w {
            self.screen_pos.0 = current_col + n;
        } else {
            let rows = n / w;
            let rest = n % w;
            assert(rest <= n) by (nonlinear_arith)
                requires
                    n >= 0,
                    w > 0,
                    rest == n % w,
            ;
            self._sync_down(rows);
            if current_col + rest < w {
                self.screen_pos.0 = current_col + rest;
            } else {
                self.screen_pos.0 = w;
            }
        }
    }

    /// Sets one part of the style of new text.
    pub fn _sync_style(&mut self, style: Style)
        ensures
            final(self).style == (match style {
                Style::Fg(c) => (c, old(self).style.1, old(self).style.2),
                Style::Bg(c) => (old(self).style.0, c, old(self).style.2),
                Style::Fx(f) => (old(self).style.0, old(self).style.1, f),
            }),
            final(self).buffer == old(self).buffer,
            final(self).screen_size == old(self).screen_size,
            final(self).screen_pos == old(self).screen_pos,
    {
        match style {
            Style::Fg(c) => self.style.0 = c,
            Style::Bg(c) => self.style.1 = c,
            Style::Fx(f) => self.style.2 = f,
        }
    }

    /// Sets the style of new text.
    pub fn _sync_styles(&mut self, fg: Color, bg: Color, fx: u32)
        ensures
            final(self).style == (fg, bg, fx),
            final(self).buffer == old(self).buffer,
            final(self).screen_size == old(self).screen_size,
            final(self).screen_pos == old(self).screen_pos,
    {
        self.style = (fg, bg, fx);
    }

    /// Goes back to the default style.
    pub fn _reset_styles(&mut self)
        ensures
            final(self).style == default_style(),
            final(self).buffer == old(self).buffer,
            final(self).screen_size == old(self).screen_size,
            final(self).screen_pos == old(self).screen_pos,
    {
        self.style = (Color::Reset, Color::Reset, Effect::Reset.bits());
    }
}

} // verus!
