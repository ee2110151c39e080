//! Recording written text in the cache.
//!
//! `_cache_content` walks the grapheme clusters of the text from the cursor.
//! An ASCII cluster is one narrow cell (a carriage return goes back to the
//! start of the row, NUL is skipped, ESC shows as `^`). Other clusters go
//! character by character: a lone narrow or wide character fills one or two
//! cells where the cell is empty; the characters of a longer cluster are
//! gathered into one `Compound` cell, followed by a `Null` cell unless the
//! cluster ends with a zero-width joiner (then the next cluster joins it).
//! When the cursor is past the last cell, the screen scrolls up a row.

use vstd::prelude::*;
use crate::cache::{CellInfo, CellInfoCache, InfoView, Rune, RuneView, info_views};
use crate::store::buffer::Buffer;
use crate::enums::Color;
use crate::store::parse::ZWJ;
use crate::unicode::{char_width, cluster_views, display_width, extended_graphemes, graphemes};

verus! {

/// Where the cache stands between two characters: its entries and the
/// cursor, as a cell index.
pub ghost struct CacheState {
    pub cells: Seq<Option<InfoView>>,
    pub index: int,
}

/// Whether every character is ASCII.
pub open spec fn all_ascii(g: Seq<char>) -> bool {
    forall|i: int| 0 <= i < g.len() ==> (#[trigger] g[i] as u32) < 0x80
}

/// The width that a cluster character counts (1 for a control character).
pub open spec fn char_cells(c: char) -> usize {
    match display_width(c) {
        Some(w) => w,
        None => 1,
    }
}

/// A new entry in the style `style`.
pub open spec fn entry(rune: RuneView, width: usize, style: (Color, Color, u32)) -> Option<InfoView> {
    Some(InfoView { rune, width, style })
}

/// The entry with `c` added when it holds a `Compound`; else unchanged.
pub open spec fn extend(e: Option<InfoView>, c: char) -> Option<InfoView> {
    match e {
        Some(info) => match info.rune {
            RuneView::Compound(v) => Some(InfoView { rune: RuneView::Compound(v.push(c)), ..info }),
            _ => e,
        },
        None => e,
    }
}

/// Whether the entry holds a `Compound`.
pub open spec fn is_compound(e: Option<InfoView>) -> bool {
    e matches Some(info) && info.rune is Compound
}

/// Scrolls up a row when the cursor is past the last cell: the first row
/// goes, an empty row comes at the end, and the cursor goes to its start.
pub open spec fn make_room(w: int, st: CacheState) -> CacheState {
    if st.index >= st.cells.len() {
        CacheState {
            cells: st.cells.skip(w) + Seq::new(w as nat, |i: int| None::<InfoView>),
            index: st.cells.len() - w,
        }
    } else {
        st
    }
}

/// Puts a `Null` entry after the cursor and moves past it; `None` where
/// that is past the last cell.
pub open spec fn close_pair(cells: Seq<Option<InfoView>>, index: int, style: (Color, Color, u32)) -> Option<CacheState> {
    if index + 1 < cells.len() {
        Some(CacheState { cells: cells.update(index + 1, entry(RuneView::Null, 0, style)), index: index + 2 })
    } else {
        None
    }
}

/// What the character `c` of a non-ASCII cluster does (`first` and `last`
/// tell its place in the cluster); `None` where it would go past the last
/// cell.
pub open spec fn char_step(c: char, first: bool, last: bool, style: (Color, Color, u32), st: CacheState) -> Option<CacheState> {
    let (cells, index) = (st.cells, st.index);
    if !(0 <= index < cells.len()) {
        None
    } else {
        let cur = cells[index];
        let wd = char_cells(c);
        if first && last {
            if is_compound(cur) {
                close_pair(cells.update(index, extend(cur, c)), index, style)
            } else if wd == 1 {
                Some(CacheState { cells: cells.update(index, entry(RuneView::Single(c), 1, style)), index: index + 1 })
            } else if wd == 2 {
                close_pair(cells.update(index, entry(RuneView::Double(c), 2, style)), index, style)
            } else {
                Some(st)
            }
        } else if first {
            if is_compound(cur) {
                Some(CacheState { cells: cells.update(index, extend(cur, c)), index })
            } else {
                Some(CacheState { cells: cells.update(index, entry(RuneView::Compound(seq![c]), wd, style)), index })
            }
        } else if !last {
            Some(CacheState { cells: cells.update(index, extend(cur, c)), index })
        } else {
            let c2 = cells.update(index, extend(cur, c));
            if c != ZWJ {
                close_pair(c2, index, style)
            } else {
                Some(CacheState { cells: c2, index })
            }
        }
    }
}

/// The characters of a non-ASCII cluster from the `i`-th on.
pub open spec fn chars_run(g: Seq<char>, i: int, style: (Color, Color, u32), st: CacheState) -> Option<CacheState>
    decreases g.len() - i,
{
    if i < 0 || i >= g.len() {
        Some(st)
    } else {
        match char_step(g[i], i == 0, i == g.len() - 1, style, st) {
            None => None,
            Some(s) => chars_run(g, i + 1, style, s),
        }
    }
}

/// What the cluster `g` does.
pub open spec fn cluster_step(w: int, g: Seq<char>, style: (Color, Color, u32), st: CacheState) -> Option<CacheState> {
    let st1 = make_room(w, st);
    if all_ascii(g) {
        let c0 = if g.len() > 0 { g[0] } else { '\x00' };
        if c0 == '\x00' {
            Some(st1)
        } else {
            let c = if c0 == '\x1B' { '^' } else { c0 };
            if c == '\r' {
                Some(CacheState { index: (st1.index / w) * w, ..st1 })
            } else {
                Some(CacheState {
                    cells: st1.cells.update(st1.index, entry(RuneView::Single(c), 1, style)),
                    index: st1.index + 1,
                })
            }
        }
    } else {
        chars_run(g, 0, style, st1)
    }
}

/// The clusters from `k` on.
pub open spec fn clusters_run(w: int, gs: Seq<Seq<char>>, k: int, style: (Color, Color, u32), st: CacheState) -> Option<CacheState>
    decreases gs.len() - k,
{
    if k < 0 || k >= gs.len() {
        Some(st)
    } else {
        match cluster_step(w, gs[k], style, st) {
            None => None,
            Some(s) => clusters_run(w, gs, k + 1, style, s),
        }
    }
}

impl CellInfoCache {
    /// The entries and the cursor after recording the clusters `gs`, or
    /// `None` where a wide character or sequence would go past the last
    /// cell.
    pub open spec fn cached(&self, gs: Seq<Seq<char>>) -> Option<(Seq<Option<InfoView>>, (i16, i16))> {
        let w = self.screen_size.0 as int;
        let start = CacheState {
            cells: self.cells(),
            index: self.screen_pos.1 * w + self.screen_pos.0,
        };
        match clusters_run(w, gs, 0, self.style, start) {
            None => None,
            Some(st) => Some((st.cells, ((st.index % w) as i16, (st.index / w) as i16))),
        }
    }
}

/// A copy of an entry.
fn copy_entry(e: &Option<CellInfo>) -> (res: Option<CellInfo>)
    ensures
        (match res {
            Some(i) => Some(i@),
            None => None::<InfoView>,
        }) == (match *e {
            Some(i) => Some(i@),
            None => None::<InfoView>,
        }),
{
    match e {
        Some(info) => {
            let rune = match &info.rune {
                Rune::Single(c) => Rune::Single(*c),
                Rune::Double(c) => Rune::Double(*c),
                Rune::Compound(v) => Rune::Compound(crate::store::buffer::copy_chars(v)),
                Rune::Null => Rune::Null,
            };
            Some(CellInfo { rune, width: info.width, style: info.style })
        },
        None => None,
    }
}

/// A copy of the entries.
fn copy_entries(v: &Vec<Option<CellInfo>>) -> (res: Vec<Option<CellInfo>>)
    ensures
        info_views(res@) == info_views(v@),
{
    let mut out: Vec<Option<CellInfo>> = Vec::new();
    let mut i: usize = 0;
    while i < v.len()
        invariant
            i <= v@.len(),
            info_views(out@) =~= info_views(v@).take(i as int),
        decreases v.len() - i,
    {
        let ghost before = out@;
        let e = copy_entry(&v[i]);
        out.push(e);
        assert(info_views(out@) =~= info_views(before).push(info_views(v@)[i as int]));
        i += 1;
    }
    assert(info_views(v@).take(v@.len() as int) =~= info_views(v@));
    out
}

/// Whether every character is ASCII.
fn is_ascii_chars(g: &Vec<char>) -> (res: bool)
    ensures
        res == all_ascii(g@),
{
    let mut i: usize = 0;
    while i < g.len()
        invariant
            i <= g@.len(),
            forall|j: int| 0 <= j < i ==> (#[trigger] g@[j] as u32) < 0x80,
        decreases g.len() - i,
    {
        if (g[i] as u32) >= 0x80 {
            return false;
        }
        i += 1;
    }
    true
}

impl CellInfoCache {
    /// Adds `c` to the entry at `index` when it holds a `Compound`.
    fn extend_entry(&mut self, index: usize, c: char)
        requires
            index < old(self).buffer@.len(),
        ensures
            final(self).cells() == old(self).cells().update(index as int, extend(old(self).cells()[index as int], c)),
            final(self).buffer@.len() == old(self).buffer@.len(),
            final(self).screen_size == old(self).screen_size,
            final(self).screen_pos == old(self).screen_pos,
            final(self).style == old(self).style,
            final(self).tab_width == old(self).tab_width,
    {
        let ghost before = self.buffer@;
        let mut e: Option<CellInfo> = None;
        std::mem::swap(&mut self.buffer[index], &mut e);
        let e2 = match e {
            Some(info) => match info.rune {
                Rune::Compound(mut v) => {
                    v.push(c);
                    Some(CellInfo { rune: Rune::Compound(v), width: info.width, style: info.style })
                },
                other => Some(CellInfo { rune: other, width: info.width, style: info.style }),
            },
            None => None,
        };
        self.buffer.set(index, e2);
        proof {
            assert(info_views(self.buffer@) =~= info_views(before).update(index as int, extend(info_views(before)[index as int], c)));
        }
    }

    /// Puts `e` at `index`.
    fn put_entry(&mut self, index: usize, e: Option<CellInfo>)
        requires
            index < old(self).buffer@.len(),
        ensures
            final(self).cells() == old(self).cells().update(index as int, match e {
                Some(i) => Some(i@),
                None => None::<InfoView>,
            }),
            final(self).buffer@.len() == old(self).buffer@.len(),
            final(self).screen_size == old(self).screen_size,
            final(self).screen_pos == old(self).screen_pos,
            final(self).style == old(self).style,
            final(self).tab_width == old(self).tab_width,
    {
        let ghost before = self.buffer@;
        self.buffer.set(index, e);
        assert(info_views(self.buffer@) =~= info_views(before).update(index as int, match e {
            Some(i) => Some(i@),
            None => None::<InfoView>,
        }));
    }

    /// Puts a `Null` entry after `index` (see `close_pair`).
    fn close_entry(&mut self, index: usize) -> (res: Option<usize>)
        requires
            index < old(self).buffer@.len(),
        ensures
            match close_pair(old(self).cells(), index as int, old(self).style) {
                None => res is None,
                Some(s) => res is Some && res->0 == s.index && final(self).cells() == s.cells,
            },
            final(self).buffer@.len() == old(self).buffer@.len(),
            final(self).screen_size == old(self).screen_size,
            final(self).screen_pos == old(self).screen_pos,
            final(self).style == old(self).style,
            final(self).tab_width == old(self).tab_width,
    {
        let len = self.buffer.len();
        if index + 1 < len {
            self.put_entry(index + 1, Some(CellInfo { rune: Rune::Null, width: 0, style: self.style }));
            Some(index + 2)
        } else {
            None
        }
    }

    /// Scrolls up a row when the cursor is past the last cell (see
    /// `make_room`).
    fn room_at(&mut self, index: usize) -> (res: usize)
        requires
            old(self).wf(),
        ensures
            final(self).wf(),
            ({
                let s = make_room(old(self).screen_size.0 as int, CacheState { cells: old(self).cells(), index: index as int });
                final(self).cells() == s.cells && res == s.index
            }),
            final(self).screen_size == old(self).screen_size,
            final(self).screen_pos == old(self).screen_pos,
            final(self).style == old(self).style,
            final(self).tab_width == old(self).tab_width,
    {
        let len = self.buffer.len();
        if index < len {
            return index;
        }
        let w = self.screen_size.0 as usize;
        proof {
            let (sw, sh) = (self.screen_size.0 as int, self.screen_size.1 as int);
            assert(sw <= sw * sh) by (nonlinear_arith)
                requires
                    sw >= 1,
                    sh >= 1,
            ;
        }
        let ghost before = self.cells();
        let tail = self.buffer.split_off(w);
        self.buffer = tail;
        assert(self.cells() =~= before.skip(w as int));
        let mut k: usize = 0;
        while k < w
            invariant
                k <= w,
                w <= before.len(),
                self.cells() =~= before.skip(w as int) + Seq::new(k as nat, |i: int| None::<InfoView>),
                self.screen_size == old(self).screen_size,
                self.screen_pos == old(self).screen_pos,
                self.style == old(self).style,
                self.tab_width == old(self).tab_width,
            decreases w - k,
        {
            let ghost prev = self.buffer@;
            self.buffer.push(None);
            assert(info_views(self.buffer@) =~= info_views(prev).push(None));
            k += 1;
        }
        len - w
    }
}

impl CellInfoCache {
    /// What the character `c` of a non-ASCII cluster does at `index` (see
    /// `char_step`): the new cursor, or `None`.
    fn char_step_at(&mut self, c: char, first: bool, last: bool, index: usize) -> (res: Option<usize>)
        requires
            old(self).wf(),
        ensures
            final(self).wf(),
            match char_step(c, first, last, old(self).style, CacheState { cells: old(self).cells(), index: index as int }) {
                None => res is None,
                Some(s) => res is Some && res->0 == s.index && final(self).cells() == s.cells,
            },
            final(self).screen_size == old(self).screen_size,
            final(self).screen_pos == old(self).screen_pos,
            final(self).style == old(self).style,
            final(self).tab_width == old(self).tab_width,
    {
        if index >= self.buffer.len() {
            return None;
        }
        let wd: usize = match char_width(c) {
            Some(x) => x,
            None => 1,
        };
        let compound = match &self.buffer[index] {
            Some(info) => match &info.rune {
                Rune::Compound(_) => true,
                _ => false,
            },
            None => false,
        };
        proof {
            assert(self.cells()[index as int] == (match self.buffer@[index as int] {
                Some(i) => Some(i@),
                None => None::<InfoView>,
            }));
        }
        let style = self.style;
        if first && last {
            if compound {
                self.extend_entry(index, c);
                self.close_entry(index)
            } else if wd == 1 {
                self.put_entry(index, Some(CellInfo { rune: Rune::Single(c), width: 1, style }));
                Some(index + 1)
            } else if wd == 2 {
                self.put_entry(index, Some(CellInfo { rune: Rune::Double(c), width: 2, style }));
                self.close_entry(index)
            } else {
                Some(index)
            }
        } else if first {
            if compound {
                self.extend_entry(index, c);
            } else {
                let mut v: Vec<char> = Vec::new();
                v.push(c);
                assert(v@ =~= seq![c]);
                self.put_entry(index, Some(CellInfo { rune: Rune::Compound(v), width: wd, style }));
            }
            Some(index)
        } else if !last {
            self.extend_entry(index, c);
            Some(index)
        } else {
            self.extend_entry(index, c);
            if c != ZWJ {
                self.close_entry(index)
            } else {
                Some(index)
            }
        }
    }

    /// What the cluster `g` does at `index` (see `cluster_step`): the new
    /// cursor, or `None`.
    fn cluster_step_at(&mut self, g: &Vec<char>, index: usize) -> (res: Option<usize>)
        requires
            old(self).wf(),
        ensures
            final(self).wf(),
            match cluster_step(old(self).screen_size.0 as int, g@, old(self).style, CacheState { cells: old(self).cells(), index: index as int }) {
                None => res is None,
                Some(s) => res is Some && res->0 == s.index && final(self).cells() == s.cells,
            },
            final(self).screen_size == old(self).screen_size,
            final(self).screen_pos == old(self).screen_pos,
            final(self).style == old(self).style,
            final(self).tab_width == old(self).tab_width,
    {
        let mut at = self.room_at(index);
        let count = self.buffer.len();
        let ghost st1 = CacheState { cells: self.cells(), index: at as int };
        proof {
            let (sw, sh) = (self.screen_size.0 as int, self.screen_size.1 as int);
            assert(sw <= sw * sh) by (nonlinear_arith)
                requires
                    sw >= 1,
                    sh >= 1,
            ;
            assert(at < self.buffer@.len());
        }
        if is_ascii_chars(g) {
            let c0 = if g.len() > 0 { g[0] } else { '\x00' };
            if c0 == '\x00' {
                return Some(at);
            }
            let c = if c0 == '\x1B' { '^' } else { c0 };
            if c == '\r' {
                let w = self.screen_size.0 as usize;
                proof {
                    vstd::arithmetic::div_mod::lemma_fundamental_div_mod(at as int, w as int);
                    vstd::arithmetic::mul::lemma_mul_is_commutative(w as int, at as int / w as int);
                    vstd::arithmetic::div_mod::lemma_div_pos_is_pos(at as int, w as int);
                    assert(0 <= (at as int / w as int) * (w as int)) by (nonlinear_arith)
                        requires
                            at as int / w as int >= 0,
                            w > 0,
                    ;
                }
                return Some((at / w) * w);
            }
            let style = self.style;
            self.put_entry(at, Some(CellInfo { rune: Rune::Single(c), width: 1, style }));
            return Some(at + 1);
        }
        let mut i: usize = 0;
        while i < g.len()
            invariant
                self.wf(),
                i <= g@.len(),
                chars_run(g@, 0, old(self).style, st1) == chars_run(g@, i as int, old(self).style, CacheState { cells: self.cells(), index: at as int }),
                st1 == make_room(old(self).screen_size.0 as int, CacheState { cells: old(self).cells(), index: index as int }),
                !all_ascii(g@),
                self.screen_size == old(self).screen_size,
                self.screen_pos == old(self).screen_pos,
                self.style == old(self).style,
                self.tab_width == old(self).tab_width,
            decreases g.len() - i,
        {
            let last = i + 1 == g.len();
            let ghost cur = CacheState { cells: self.cells(), index: at as int };
            match self.char_step_at(g[i], i == 0, last, at) {
                None => {
                    assert(char_step(g@[i as int], i == 0, i == g@.len() - 1, old(self).style, cur) is None);
                    assert(chars_run(g@, i as int, old(self).style, cur) is None);
                    assert(chars_run(g@, 0, old(self).style, st1) is None);
                    return None;
                },
                Some(j) => {
                    at = j;
                },
            }
            i += 1;
        }
        Some(at)
    }
}

impl CellInfoCache {
    /// Records the clusters `gs` from the cursor (see `cached`) and moves
    /// the cursor past them. Returns `false`, with the cache as it was,
    /// where a wide character or sequence would go past the last cell.
    pub fn cache_graphemes(&mut self, gs: &Vec<Vec<char>>) -> (ok: bool)
        requires
            old(self).wf(),
            old(self).screen_pos.0 >= 0,
            old(self).screen_pos.1 >= 0,
        ensures
            final(self).wf(),
            ok == old(self).cached(cluster_views(gs@)) is Some,
            ok ==> ({
                let (c, p) = old(self).cached(cluster_views(gs@))->0;
                final(self).cells() == c && final(self).screen_pos == p
            }),
            !ok ==> final(self).cells() == old(self).cells() && final(self).screen_pos == old(self).screen_pos,
            final(self).screen_size == old(self).screen_size,
            final(self).style == old(self).style,
            final(self).tab_width == old(self).tab_width,
    {
        let ghost views = cluster_views(gs@);
        let backup = copy_entries(&self.buffer);
        let w = self.screen_size.0 as usize;
        let (col, row) = (self.screen_pos.0 as usize, self.screen_pos.1 as usize);
        proof {
            assert(row * w <= 32767 * 32767) by (nonlinear_arith)
                requires
                    row <= 32767,
                    w <= 32767,
            ;
        }
        let mut index = (row * w) + col;
        let ghost st0 = CacheState { cells: self.cells(), index: index as int };
        let mut k: usize = 0;
        while k < gs.len()
            invariant
                self.wf(),
                k <= gs@.len(),
                views == cluster_views(gs@),
                w == self.screen_size.0,
                clusters_run(w as int, views, 0, old(self).style, st0)
                    == clusters_run(w as int, views, k as int, old(self).style, CacheState { cells: self.cells(), index: index as int }),
                st0 == (CacheState {
                    cells: old(self).cells(),
                    index: old(self).screen_pos.1 * (w as int) + old(self).screen_pos.0,
                }),
                info_views(backup@) == old(self).cells(),
                old(self).wf(),
                self.screen_size == old(self).screen_size,
                self.screen_pos == old(self).screen_pos,
                self.style == old(self).style,
                self.tab_width == old(self).tab_width,
            decreases gs.len() - k,
        {
            assert(gs@[k as int]@ == views[k as int]);
            match self.cluster_step_at(&gs[k], index) {
                None => {
                    self.buffer = backup;
                    assert(self.buffer@.len() == info_views(self.buffer@).len());
                    assert(old(self).buffer@.len() == info_views(old(self).buffer@).len());
                    return false;
                },
                Some(j) => {
                    index = j;
                },
            }
            k += 1;
        }
        proof {
            assert(w as int <= 32767);
            assert(index as int % w as int <= 32767);
        }
        self.screen_pos = ((index % w) as i16, (index / w) as i16);
        true
    }

    /// A copy of the cache.
    pub fn copy(&self) -> (res: CellInfoCache)
        ensures
            res.cells() == self.cells(),
            res.screen_size == self.screen_size,
            res.screen_pos == self.screen_pos,
            res.style == self.style,
            res.tab_width == self.tab_width,
    {
        CellInfoCache {
            tab_width: self.tab_width,
            style: self.style,
            screen_pos: self.screen_pos,
            screen_size: self.screen_size,
            buffer: copy_entries(&self.buffer),
        }
    }

    /// Whether recording `content` stays within the cells.
    pub fn fits_content(&self, content: &str) -> (res: bool)
        requires
            self.wf(),
            self.screen_pos.0 >= 0,
            self.screen_pos.1 >= 0,
        ensures
            res == self.cached(extended_graphemes(content@)) is Some,
    {
        let gs = graphemes(content);
        let mut scratch = self.copy();
        scratch.cache_graphemes(&gs)
    }

    /// Records `content`, written at the cursor, and moves the cursor past
    /// it (see `cached`). A wide character or sequence must not go past
    /// the last cell.
    pub fn _cache_content(&mut self, content: &str)
        requires
            old(self).wf(),
            old(self).screen_pos.0 >= 0,
            old(self).screen_pos.1 >= 0,
            old(self).cached(extended_graphemes(content@)) is Some,
        ensures
            final(self).wf(),
            ({
                let (c, p) = old(self).cached(extended_graphemes(content@))->0;
                final(self).cells() == c && final(self).screen_pos == p
            }),
            final(self).screen_size == old(self).screen_size,
            final(self).style == old(self).style,
            final(self).tab_width == old(self).tab_width,
    {
        let gs = graphemes(content);
        self.cache_graphemes(&gs);
    }

    /// Records `content` as `_cache_content` does where it stays within the
    /// cells; else changes nothing and returns `false`.
    pub fn try_cache_content(&mut self, content: &str) -> (ok: bool)
        requires
            old(self).wf(),
            old(self).screen_pos.0 >= 0,
            old(self).screen_pos.1 >= 0,
        ensures
            final(self).wf(),
            ok == old(self).cached(extended_graphemes(content@)) is Some,
            ok ==> ({
                let (c, p) = old(self).cached(extended_graphemes(content@))->0;
                final(self).cells() == c && final(self).screen_pos == p
            }),
            !ok ==> final(self).cells() == old(self).cells() && final(self).screen_pos == old(self).screen_pos,
            final(self).screen_size == old(self).screen_size,
            final(self).style == old(self).style,
            final(self).tab_width == old(self).tab_width,
    {
        if self.fits_content(content) {
            self._cache_content(content);
            true
        } else {
            false
        }
    }
}

} // verus!
